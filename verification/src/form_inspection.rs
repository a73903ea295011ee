//! The checks an Images edit form passes part by part while it is read:
//! how many parts, how long their names, how large the files and the text
//! fields, how many images and masks, and the one model it names.

use vstd::prelude::*;

use crate::body_limits::is_image_field;
use crate::image_edit::{field_text, field_views, MultipartTextField};
use crate::keyword::check_utf8;
use crate::proxy_error::{ImageEditBodyError, RequestPolicyError};
use crate::text::str_eq;
use crate::unicode::{chars_of, trim, trim_spec};

verus! {

/// The most parts a form may have.
pub const MAX_MULTIPART_FIELDS: usize = 64;

/// The longest part name, in bytes.
pub const MAX_MULTIPART_FIELD_NAME_BYTES: usize = 128;

/// The longest file name, in bytes.
pub const MAX_MULTIPART_FILE_NAME_BYTES: usize = 255;

/// The largest text part, in bytes.
pub const MAX_MULTIPART_TEXT_FIELD_BYTES: usize = 65536;

/// The most text, in bytes, over all text parts.
pub const MAX_MULTIPART_TEXT_BYTES: usize = 1048576;

/// The most images an edit may carry.
pub const MAX_IMAGE_EDIT_IMAGES: usize = 16;

/// The most masks an edit may carry.
pub const MAX_IMAGE_EDIT_MASKS: usize = 1;

/// The longest model name, in characters.
pub const MAX_MODEL_CHARS: usize = 300;

/// `a + b`, held at `usize::MAX`.
pub open spec fn saturating_sum(a: nat, b: nat) -> nat {
    if a + b > usize::MAX {
        usize::MAX as nat
    } else {
        a + b
    }
}

fn saturating_add(a: usize, b: usize) -> (sum: usize)
    ensures
        sum == saturating_sum(a as nat, b as nat),
{
    if a > usize::MAX - b {
        usize::MAX
    } else {
        a + b
    }
}

/// The part being read.
pub enum PartState {
    Idle,
    File { image: bool, length: nat },
    Text { name: Seq<char>, value: Seq<u8> },
}

/// What has been read of a form so far.
pub struct InspectionState {
    pub max_file_bytes: nat,
    pub field_count: nat,
    pub image_count: nat,
    pub image_bytes: nat,
    pub mask_count: nat,
    pub text_bytes: nat,
    pub model: Option<Seq<char>>,
    pub text_fields: Seq<(Seq<char>, Seq<u8>)>,
    pub part: PartState,
}

/// The kind of a part, once its headers are read.
#[derive(Clone, Copy, PartialEq, Eq, Debug)]
pub enum PartKind {
    File,
    Text,
}

/// A new part with a name (when it has one) and a file name (when it has
/// one): the form may hold no more than 64 parts, a part must be named, a
/// name may have at most 128 bytes and a file name at most 255; an
/// `image`, `image[]` or `mask` part, or any part with a file name, is a
/// file; a file must pass the request policy for its field
/// (`file_policy`, the policy's answer for `file_policy_name`), and must be
/// an image or a mask.
pub open spec fn begin_step(
    s: InspectionState,
    name: Option<Seq<char>>,
    file_name: Option<Seq<char>>,
    file_policy: Result<(), RequestPolicyError>,
) -> Result<
    (InspectionState, PartKind),
    ImageEditBodyError,
> {
    if s.field_count + 1 > MAX_MULTIPART_FIELDS {
        Err(ImageEditBodyError::TooManyFields)
    } else if name is None {
        Err(ImageEditBodyError::MalformedMultipart)
    } else if vstd::utf8::encode_utf8(name->0).len() > MAX_MULTIPART_FIELD_NAME_BYTES {
        Err(ImageEditBodyError::FieldNameTooLong)
    } else if file_name matches Some(f) && vstd::utf8::encode_utf8(f).len() > MAX_MULTIPART_FILE_NAME_BYTES {
        Err(ImageEditBodyError::FileNameTooLong)
    } else {
        let n = name->0;
        let image = n == "image"@ || n == "image[]"@;
        let mask = n == "mask"@;
        if image || mask || file_name is Some {
            if file_policy is Err {
                Err(ImageEditBodyError::RequestPolicy(file_policy->Err_0))
            } else if !image && !mask {
                Err(ImageEditBodyError::UnexpectedFileField)
            } else {
                Ok(
                    (
                        InspectionState {
                            field_count: s.field_count + 1,
                            part: PartState::File { image, length: 0 },
                            ..s
                        },
                        PartKind::File,
                    ),
                )
            }
        } else {
            Ok(
                (
                    InspectionState {
                        field_count: s.field_count + 1,
                        part: PartState::Text { name: n, value: Seq::empty() },
                        ..s
                    },
                    PartKind::Text,
                ),
            )
        }
    }
}

/// A chunk of `length` bytes of the open file: the file may have no more
/// than the limit.
pub open spec fn file_chunk_step(s: InspectionState, length: nat) -> Result<InspectionState, ImageEditBodyError>
    recommends
        s.part is File,
{
    let total = saturating_sum(s.part->length, length);
    if total > s.max_file_bytes {
        Err(ImageEditBodyError::FileTooLarge)
    } else {
        Ok(InspectionState { part: PartState::File { image: s.part->image, length: total }, ..s })
    }
}

/// The end of the open file: it counts as an image (at most 16) or as a
/// mask (at most one).
pub open spec fn end_file_step(s: InspectionState) -> Result<InspectionState, ImageEditBodyError>
    recommends
        s.part is File,
{
    if s.part->image {
        if s.image_count + 1 > MAX_IMAGE_EDIT_IMAGES {
            Err(ImageEditBodyError::TooManyImages)
        } else {
            Ok(
                InspectionState {
                    image_count: s.image_count + 1,
                    image_bytes: saturating_sum(s.image_bytes, s.part->length),
                    part: PartState::Idle,
                    ..s
                },
            )
        }
    } else if s.mask_count + 1 > MAX_IMAGE_EDIT_MASKS {
        Err(ImageEditBodyError::TooManyMasks)
    } else {
        Ok(InspectionState { mask_count: s.mask_count + 1, part: PartState::Idle, ..s })
    }
}

/// A chunk of the open text part: a text part may have at most 64 KiB.
pub open spec fn text_chunk_step(s: InspectionState, chunk: Seq<u8>) -> Result<InspectionState, ImageEditBodyError>
    recommends
        s.part is Text,
{
    if s.part->value.len() + chunk.len() > MAX_MULTIPART_TEXT_FIELD_BYTES {
        Err(ImageEditBodyError::TextFieldTooLarge)
    } else {
        Ok(InspectionState { part: PartState::Text { name: s.part->name, value: s.part->value + chunk }, ..s })
    }
}

/// The end of the open text part: all text parts together may have at
/// most 1 MiB; the one `model` part must be UTF-8, not blank, and at most
/// 300 characters long.
pub open spec fn end_text_step(s: InspectionState) -> Result<InspectionState, ImageEditBodyError>
    recommends
        s.part is Text,
{
    let name = s.part->name;
    let value = s.part->value;
    let text_bytes = s.text_bytes + value.len();
    if text_bytes > MAX_MULTIPART_TEXT_BYTES {
        Err(ImageEditBodyError::TextFieldTooLarge)
    } else {
        let model: Result<Option<Seq<char>>, ImageEditBodyError> = if name == "model"@ {
            if s.model is Some {
                Err(ImageEditBodyError::DuplicateModel)
            } else {
                match field_text(value) {
                    None => Err(ImageEditBodyError::InvalidModel),
                    Some(text) => if trim_spec(text).len() == 0 {
                        Err(ImageEditBodyError::EmptyModel)
                    } else if text.len() > MAX_MODEL_CHARS {
                        Err(ImageEditBodyError::ModelTooLong)
                    } else {
                        Ok(Some(text))
                    },
                }
            }
        } else {
            Ok(s.model)
        };
        match model {
            Err(error) => Err(error),
            Ok(model) => Ok(
                InspectionState {
                    text_bytes,
                    model,
                    text_fields: s.text_fields.push((name, value)),
                    part: PartState::Idle,
                    ..s
                },
            ),
        }
    }
}

/// What a complete form gives: it must carry an image and a model.
pub open spec fn finish_step(s: InspectionState) -> Result<
    (Seq<(Seq<char>, Seq<u8>)>, Seq<char>, nat, nat, nat),
    ImageEditBodyError,
> {
    if s.image_count == 0 {
        Err(ImageEditBodyError::MissingImage)
    } else if s.model is None {
        Err(ImageEditBodyError::MissingModel)
    } else {
        Ok((s.text_fields, s.model->0, s.image_count, s.image_bytes, s.mask_count))
    }
}

/// The limits every state reached by the steps keeps.
pub open spec fn inspection_wf(s: InspectionState) -> bool {
    &&& s.max_file_bytes <= usize::MAX
    &&& s.field_count <= MAX_MULTIPART_FIELDS
    &&& s.image_count <= MAX_IMAGE_EDIT_IMAGES
    &&& s.image_bytes <= usize::MAX
    &&& s.mask_count <= MAX_IMAGE_EDIT_MASKS
    &&& s.text_bytes <= MAX_MULTIPART_TEXT_BYTES
    &&& match s.part {
        PartState::Idle => true,
        PartState::File { length, .. } => length <= s.max_file_bytes,
        PartState::Text { value, .. } => value.len() <= MAX_MULTIPART_TEXT_FIELD_BYTES,
    }
}

/// The part being read.
enum OpenPart {
    Idle,
    File { image: bool, length: usize },
    Text { name: String, value: Vec<u8> },
}

/// What a well-formed Images edit form holds, once read.
#[derive(Debug)]
pub struct MultipartInspection {
    pub text_fields: Vec<MultipartTextField>,
    pub model: String,
    pub image_count: usize,
    pub image_bytes: usize,
    pub mask_count: usize,
}

/// Reads an Images edit form part by part.
pub struct MultipartInspector {
    max_file_bytes: usize,
    field_count: usize,
    image_count: usize,
    image_bytes: usize,
    mask_count: usize,
    text_bytes: usize,
    model: Option<String>,
    text_fields: Vec<MultipartTextField>,
    part: OpenPart,
}

impl View for MultipartInspector {
    type V = InspectionState;

    closed spec fn view(&self) -> InspectionState {
        InspectionState {
            max_file_bytes: self.max_file_bytes as nat,
            field_count: self.field_count as nat,
            image_count: self.image_count as nat,
            image_bytes: self.image_bytes as nat,
            mask_count: self.mask_count as nat,
            text_bytes: self.text_bytes as nat,
            model: match self.model {
                Some(model) => Some(model@),
                None => None,
            },
            text_fields: field_views(self.text_fields@),
            part: match self.part {
                OpenPart::Idle => PartState::Idle,
                OpenPart::File { image, length } => PartState::File { image, length: length as nat },
                OpenPart::Text { name, value } => PartState::Text { name: name@, value: value@ },
            },
        }
    }
}

impl MultipartInspector {
    /// An inspector that has read nothing, for files of at most
    /// `max_file_bytes` bytes.
    pub fn new(max_file_bytes: usize) -> (inspector: Self)
        ensures
            inspector@ == (InspectionState {
                max_file_bytes: max_file_bytes as nat,
                field_count: 0,
                image_count: 0,
                image_bytes: 0,
                mask_count: 0,
                text_bytes: 0,
                model: None,
                text_fields: Seq::empty(),
                part: PartState::Idle,
            }),
            inspection_wf(inspector@),
    {
        let inspector = MultipartInspector {
            max_file_bytes,
            field_count: 0,
            image_count: 0,
            image_bytes: 0,
            mask_count: 0,
            text_bytes: 0,
            model: None,
            text_fields: Vec::new(),
            part: OpenPart::Idle,
        };
        assert(field_views(inspector.text_fields@) =~= Seq::empty());
        inspector
    }

    /// Begins a part; a refused part leaves the inspector as it was.
    pub fn begin_part(
        &mut self,
        name: Option<&str>,
        file_name: Option<&str>,
        file_policy: Result<(), RequestPolicyError>,
    ) -> (kind: Result<
        PartKind,
        ImageEditBodyError,
    >)
        requires
            inspection_wf(old(self)@),
            old(self)@.part is Idle,
        ensures
            inspection_wf(final(self)@),
            match kind {
                Ok(kind) => begin_step(
                    old(self)@,
                    match name {
                        Some(n) => Some(n@),
                        None => None,
                    },
                    match file_name {
                        Some(f) => Some(f@),
                        None => None,
                    },
                    file_policy,
                ) == Ok::<(InspectionState, PartKind), ImageEditBodyError>((final(self)@, kind)),
                Err(error) => begin_step(
                    old(self)@,
                    match name {
                        Some(n) => Some(n@),
                        None => None,
                    },
                    match file_name {
                        Some(f) => Some(f@),
                        None => None,
                    },
                    file_policy,
                ) == Err::<(InspectionState, PartKind), ImageEditBodyError>(error) && final(self)@ == old(
                    self,
                )@,
            },
    {
        if self.field_count + 1 > MAX_MULTIPART_FIELDS {
            return Err(ImageEditBodyError::TooManyFields);
        }
        let name = match name {
            Some(name) => name,
            None => {
                return Err(ImageEditBodyError::MalformedMultipart);
            },
        };
        if name.as_bytes().len() > MAX_MULTIPART_FIELD_NAME_BYTES {
            return Err(ImageEditBodyError::FieldNameTooLong);
        }
        if let Some(file) = file_name {
            if file.as_bytes().len() > MAX_MULTIPART_FILE_NAME_BYTES {
                return Err(ImageEditBodyError::FileNameTooLong);
            }
        }
        let image = is_image_field(name);
        let mask = str_eq(name, "mask");
        if image || mask || file_name.is_some() {
            if let Err(refusal) = file_policy {
                return Err(ImageEditBodyError::RequestPolicy(refusal));
            }
            if !image && !mask {
                return Err(ImageEditBodyError::UnexpectedFileField);
            }
            self.field_count = self.field_count + 1;
            self.part = OpenPart::File { image, length: 0 };
            Ok(PartKind::File)
        } else {
            self.field_count = self.field_count + 1;
            self.part = OpenPart::Text { name: name.to_owned(), value: Vec::new() };
            proof {
                assert(self.text_fields@ == old(self).text_fields@);
            }
            Ok(PartKind::Text)
        }
    }

    /// A chunk of `length` bytes of the open file; a refused chunk leaves
    /// the inspector as it was.
    pub fn file_chunk(&mut self, length: usize) -> (accepted: Result<(), ImageEditBodyError>)
        requires
            inspection_wf(old(self)@),
            old(self)@.part is File,
        ensures
            inspection_wf(final(self)@),
            match accepted {
                Ok(()) => file_chunk_step(old(self)@, length as nat) == Ok::<
                    InspectionState,
                    ImageEditBodyError,
                >(final(self)@),
                Err(error) => file_chunk_step(old(self)@, length as nat) == Err::<
                    InspectionState,
                    ImageEditBodyError,
                >(error) && final(self)@ == old(self)@,
            },
    {
        match self.part {
            OpenPart::File { image, length: read } => {
                let total = saturating_add(read, length);
                if total > self.max_file_bytes {
                    return Err(ImageEditBodyError::FileTooLarge);
                }
                self.part = OpenPart::File { image, length: total };
                Ok(())
            },
            _ => Err(ImageEditBodyError::MalformedMultipart),
        }
    }

    /// The end of the open file; a refused file leaves the inspector as it
    /// was.
    pub fn end_file(&mut self) -> (accepted: Result<(), ImageEditBodyError>)
        requires
            inspection_wf(old(self)@),
            old(self)@.part is File,
        ensures
            inspection_wf(final(self)@),
            match accepted {
                Ok(()) => end_file_step(old(self)@) == Ok::<InspectionState, ImageEditBodyError>(final(self)@),
                Err(error) => end_file_step(old(self)@) == Err::<InspectionState, ImageEditBodyError>(error)
                    && final(self)@ == old(self)@,
            },
    {
        match self.part {
            OpenPart::File { image, length } => {
                if image {
                    if self.image_count + 1 > MAX_IMAGE_EDIT_IMAGES {
                        return Err(ImageEditBodyError::TooManyImages);
                    }
                    self.image_count = self.image_count + 1;
                    self.image_bytes = saturating_add(self.image_bytes, length);
                } else {
                    if self.mask_count + 1 > MAX_IMAGE_EDIT_MASKS {
                        return Err(ImageEditBodyError::TooManyMasks);
                    }
                    self.mask_count = self.mask_count + 1;
                }
                self.part = OpenPart::Idle;
                Ok(())
            },
            _ => Err(ImageEditBodyError::MalformedMultipart),
        }
    }

    /// A chunk of the open text part; a refused chunk leaves the inspector
    /// as it was.
    pub fn text_chunk(&mut self, chunk: &[u8]) -> (accepted: Result<(), ImageEditBodyError>)
        requires
            inspection_wf(old(self)@),
            old(self)@.part is Text,
        ensures
            inspection_wf(final(self)@),
            match accepted {
                Ok(()) => text_chunk_step(old(self)@, chunk@) == Ok::<InspectionState, ImageEditBodyError>(
                    final(self)@,
                ),
                Err(error) => text_chunk_step(old(self)@, chunk@) == Err::<InspectionState, ImageEditBodyError>(
                    error,
                ) && final(self)@ == old(self)@,
            },
    {
        let mut current = OpenPart::Idle;
        core::mem::swap(&mut current, &mut self.part);
        match current {
            OpenPart::Text { name, mut value } => {
                if chunk.len() > MAX_MULTIPART_TEXT_FIELD_BYTES - value.len() {
                    self.part = OpenPart::Text { name, value };
                    return Err(ImageEditBodyError::TextFieldTooLarge);
                }
                let ghost start = value@;
                let mut index: usize = 0;
                while index < chunk.len()
                    invariant
                        index <= chunk@.len(),
                        value@ == start + chunk@.take(index as int),
                    decreases chunk@.len() - index,
                {
                    value.push(chunk[index]);
                    assert(value@ =~= start + chunk@.take(index + 1));
                    index += 1;
                }
                assert(chunk@.take(chunk@.len() as int) =~= chunk@);
                self.part = OpenPart::Text { name, value };
                Ok(())
            },
            other => {
                self.part = other;
                Err(ImageEditBodyError::MalformedMultipart)
            },
        }
    }

    /// The end of the open text part; a refused part leaves the inspector
    /// as it was.
    pub fn end_text(&mut self) -> (accepted: Result<(), ImageEditBodyError>)
        requires
            inspection_wf(old(self)@),
            old(self)@.part is Text,
        ensures
            inspection_wf(final(self)@),
            match accepted {
                Ok(()) => end_text_step(old(self)@) == Ok::<InspectionState, ImageEditBodyError>(final(self)@),
                Err(error) => end_text_step(old(self)@) == Err::<InspectionState, ImageEditBodyError>(error)
                    && final(self)@ == old(self)@,
            },
    {
        let mut current = OpenPart::Idle;
        core::mem::swap(&mut current, &mut self.part);
        match current {
            OpenPart::Text { name, value } => {
                let text_bytes = self.text_bytes + value.len();
                if text_bytes > MAX_MULTIPART_TEXT_BYTES {
                    self.part = OpenPart::Text { name, value };
                    return Err(ImageEditBodyError::TextFieldTooLarge);
                }
                if str_eq(name.as_str(), "model") {
                    if self.model.is_some() {
                        self.part = OpenPart::Text { name, value };
                        return Err(ImageEditBodyError::DuplicateModel);
                    }
                    let parsed = match check_utf8(value.as_slice()) {
                        Ok(parsed) => parsed,
                        Err(_) => {
                            self.part = OpenPart::Text { name, value };
                            return Err(ImageEditBodyError::InvalidModel);
                        },
                    };
                    if trim(parsed.as_str()).is_empty() {
                        self.part = OpenPart::Text { name, value };
                        return Err(ImageEditBodyError::EmptyModel);
                    }
                    if chars_of(parsed.as_str()).len() > MAX_MODEL_CHARS {
                        self.part = OpenPart::Text { name, value };
                        return Err(ImageEditBodyError::ModelTooLong);
                    }
                    self.model = Some(parsed);
                }
                self.text_bytes = text_bytes;
                let ghost fields = self.text_fields@;
                self.text_fields.push(MultipartTextField { name, value });
                proof {
                    assert(field_views(self.text_fields@) =~= field_views(fields).push(
                        (old(self)@.part->name, old(self)@.part->value),
                    ));
                }
                Ok(())
            },
            other => {
                self.part = other;
                Err(ImageEditBodyError::MalformedMultipart)
            },
        }
    }

    /// What the form holds, once every part has been read.
    pub fn finish(self) -> (inspection: Result<MultipartInspection, ImageEditBodyError>)
        requires
            inspection_wf(self@),
            self@.part is Idle,
        ensures
            match inspection {
                Ok(inspection) => finish_step(self@) == Ok::<
                    (Seq<(Seq<char>, Seq<u8>)>, Seq<char>, nat, nat, nat),
                    ImageEditBodyError,
                >(
                    (
                        field_views(inspection.text_fields@),
                        inspection.model@,
                        inspection.image_count as nat,
                        inspection.image_bytes as nat,
                        inspection.mask_count as nat,
                    ),
                ),
                Err(error) => finish_step(self@) == Err::<
                    (Seq<(Seq<char>, Seq<u8>)>, Seq<char>, nat, nat, nat),
                    ImageEditBodyError,
                >(error),
            },
    {
        if self.image_count == 0 {
            return Err(ImageEditBodyError::MissingImage);
        }
        match self.model {
            None => Err(ImageEditBodyError::MissingModel),
            Some(model) => Ok(
                MultipartInspection {
                    text_fields: self.text_fields,
                    model,
                    image_count: self.image_count,
                    image_bytes: self.image_bytes,
                    mask_count: self.mask_count,
                },
            ),
        }
    }
}

/// Every form the inspection accepts carries between one and sixteen
/// images, at most one mask, at most sixty-four parts and at most 1 MiB of
/// text.
pub proof fn lemma_accepted_forms_are_within_limits(s: InspectionState)
    requires
        inspection_wf(s),
        finish_step(s) is Ok,
    ensures
        1 <= finish_step(s)->Ok_0.2 <= MAX_IMAGE_EDIT_IMAGES,
        finish_step(s)->Ok_0.4 <= MAX_IMAGE_EDIT_MASKS,
        s.field_count <= MAX_MULTIPART_FIELDS,
        s.text_bytes <= MAX_MULTIPART_TEXT_BYTES,
{
}

/// The request-policy field a file part is checked under: `image` for an
/// `image[]` part, the part's own name otherwise.
pub fn file_policy_name(name: &str) -> (field: &str)
    ensures
        field@ == if name@ == "image[]"@ {
            "image"@
        } else {
            name@
        },
{
    if str_eq(name, "image[]") {
        "image"
    } else {
        name
    }
}

} // verus!
