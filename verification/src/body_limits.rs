//! Request-body limits of the public proxy and small rules of image-edit
//! body handling.

use vstd::prelude::*;

use crate::text::str_eq;

verus! {

/// The body size of a Codex image-edit JSON body grows by this factor
/// while a captured multipart body and its rebuilt form coexist.
pub const SPOOL_CAPACITY_WARNING_BODY_MULTIPLIER: u64 = 3;

/// The in-memory part of an image-edit body derived from a plain byte
/// limit.
pub const DEFAULT_IMAGE_EDIT_MEMORY_BYTES: usize = 65536;

/// Byte limits of multipart image-edit bodies; where a body is spooled is
/// chosen by the caller.
#[derive(Clone, Copy, PartialEq, Eq, Debug)]
pub struct ImageEditBodyPolicy {
    pub max_body_bytes: usize,
    pub max_file_bytes: usize,
    pub memory_bytes: usize,
    pub warning_floor_bytes: u64,
}

/// The free spool space below which a warning is logged: three bodies'
/// worth, saturating.
pub open spec fn warning_floor_spec(max_body_bytes: usize) -> u64 {
    if max_body_bytes as int * SPOOL_CAPACITY_WARNING_BODY_MULTIPLIER > u64::MAX {
        u64::MAX
    } else {
        (max_body_bytes as int * SPOOL_CAPACITY_WARNING_BODY_MULTIPLIER) as u64
    }
}

impl ImageEditBodyPolicy {
    pub fn new(max_body_bytes: usize, max_file_bytes: usize, memory_bytes: usize) -> (policy: Self)
        ensures
            policy == (ImageEditBodyPolicy {
                max_body_bytes,
                max_file_bytes,
                memory_bytes,
                warning_floor_bytes: warning_floor_spec(max_body_bytes),
            }),
    {
        let body = max_body_bytes as u64;
        let warning_floor_bytes = if body > u64::MAX / SPOOL_CAPACITY_WARNING_BODY_MULTIPLIER {
            u64::MAX
        } else {
            body * SPOOL_CAPACITY_WARNING_BODY_MULTIPLIER
        };
        ImageEditBodyPolicy { max_body_bytes, max_file_bytes, memory_bytes, warning_floor_bytes }
    }
}

/// Request-body limits used by the public proxy.
#[derive(Clone, Copy, PartialEq, Eq, Debug)]
pub struct ProxyRequestBodyLimits {
    pub proxy_body_bytes: usize,
    pub image_edit: ImageEditBodyPolicy,
}

impl ProxyRequestBodyLimits {
    /// Limits from a plain byte limit: image-edit bodies and files get the
    /// same limit (at least one byte), and at most 64 KiB of a body stays in
    /// memory.
    pub fn from_body_bytes(proxy_body_bytes: usize) -> (limits: Self)
        ensures
            limits.proxy_body_bytes == proxy_body_bytes,
            ({
                let bytes = if proxy_body_bytes >= 1 { proxy_body_bytes } else { 1 };
                limits.image_edit == (ImageEditBodyPolicy {
                    max_body_bytes: bytes,
                    max_file_bytes: bytes,
                    memory_bytes: if bytes <= DEFAULT_IMAGE_EDIT_MEMORY_BYTES {
                        bytes
                    } else {
                        DEFAULT_IMAGE_EDIT_MEMORY_BYTES
                    },
                    warning_floor_bytes: warning_floor_spec(bytes),
                })
            }),
    {
        let bytes = if proxy_body_bytes >= 1 {
            proxy_body_bytes
        } else {
            1
        };
        let memory = if bytes <= DEFAULT_IMAGE_EDIT_MEMORY_BYTES {
            bytes
        } else {
            DEFAULT_IMAGE_EDIT_MEMORY_BYTES
        };
        ProxyRequestBodyLimits { proxy_body_bytes, image_edit: ImageEditBodyPolicy::new(bytes, bytes, memory) }
    }

    /// Limits from configured values.
    pub fn from_config(
        proxy_body_bytes: usize,
        image_edit_body_bytes: usize,
        image_edit_file_bytes: usize,
        image_edit_memory_bytes: usize,
    ) -> (limits: Self)
        ensures
            limits.proxy_body_bytes == proxy_body_bytes,
            limits.image_edit == (ImageEditBodyPolicy {
                max_body_bytes: image_edit_body_bytes,
                max_file_bytes: image_edit_file_bytes,
                memory_bytes: image_edit_memory_bytes,
                warning_floor_bytes: warning_floor_spec(image_edit_body_bytes),
            }),
    {
        ProxyRequestBodyLimits {
            proxy_body_bytes,
            image_edit: ImageEditBodyPolicy::new(image_edit_body_bytes, image_edit_file_bytes, image_edit_memory_bytes),
        }
    }

    pub fn image_edit(&self) -> (policy: &ImageEditBodyPolicy)
        ensures
            *policy == self.image_edit,
    {
        &self.image_edit
    }
}

/// The length of the padded base64 encoding of `length` bytes, saturating.
pub open spec fn base64_encoded_len_spec(length: usize) -> usize {
    let groups: int = if length + 2 > usize::MAX {
        (usize::MAX / 3) as int
    } else {
        (length + 2) / 3
    };
    if groups * 4 > usize::MAX {
        usize::MAX
    } else {
        (groups * 4) as usize
    }
}

pub fn base64_encoded_len(length: usize) -> (encoded: usize)
    ensures
        encoded == base64_encoded_len_spec(length),
{
    let padded = if length > usize::MAX - 2 {
        usize::MAX
    } else {
        length + 2
    };
    let groups = padded / 3;
    if groups > usize::MAX / 4 {
        usize::MAX
    } else {
        groups * 4
    }
}

/// A multipart field that carries an input image.
pub fn is_image_field(name: &str) -> (image: bool)
    ensures
        image == (name@ == "image"@ || name@ == "image[]"@),
{
    str_eq(name, "image") || str_eq(name, "image[]")
}

/// A part header that describes the original part's bytes and would be
/// wrong on a rebuilt part.
pub open spec fn stale_rebuilt_part_header_spec(name: Seq<char>) -> bool {
    ||| name == "content-length"@
    ||| name == "content-md5"@
    ||| name == "digest"@
    ||| name == "content-digest"@
    ||| name == "repr-digest"@
    ||| name == "etag"@
    ||| name == "last-modified"@
}

pub fn is_stale_rebuilt_part_header(name: &str) -> (stale: bool)
    ensures
        stale == stale_rebuilt_part_header_spec(name@),
{
    str_eq(name, "content-length") || str_eq(name, "content-md5") || str_eq(name, "digest") || str_eq(
        name,
        "content-digest",
    ) || str_eq(name, "repr-digest") || str_eq(name, "etag") || str_eq(name, "last-modified")
}

} // verus!
