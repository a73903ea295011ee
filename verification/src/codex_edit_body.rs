//! The JSON body a Codex Images edit is sent as: the limits it is written
//! under, its text members, and its images in standard base64, encoded
//! chunk by chunk as the file parts are read.

use vstd::prelude::*;

use base64::Engine;

use crate::body_limits::{base64_encoded_len, base64_encoded_len_spec};
use crate::decimal::{decimal_spec, decimal_string};
use crate::form_inspection::saturating_sum;
use crate::image_edit::{
    codex_edit_spec, field_views, image_mime, image_mime_spec, optional_view, CodexEditFields, MultipartTextField,
};
use crate::json::{json_string_bytes, json_string_text};
use crate::proxy_error::{ImageEditBodyError, RequestPolicyError};
use crate::sse::extend_bytes;
use vstd::utf8::encode_utf8;

verus! {

/// The most images a Codex edit may carry.
pub const MAX_CODEX_EDIT_IMAGES: usize = 5;

/// The room a rebuilt body is given beyond what it is rebuilt from.
pub const REBUILT_BODY_OVERHEAD_BYTES: usize = 65536;

fn saturating_add(a: usize, b: usize) -> (sum: usize)
    ensures
        sum == saturating_sum(a as nat, b as nat),
{
    if a > usize::MAX - b {
        usize::MAX
    } else {
        a + b
    }
}

/// `a * b`, held at `usize::MAX`.
pub open spec fn saturating_product(a: nat, b: nat) -> nat {
    if a * b > usize::MAX {
        usize::MAX as nat
    } else {
        a * b
    }
}

/// The bytes of a form's text parts, added up and held at `usize::MAX`.
pub open spec fn text_bytes_spec(fields: Seq<MultipartTextField>) -> nat
    decreases fields.len(),
{
    if fields.len() == 0 {
        0
    } else {
        saturating_sum(text_bytes_spec(fields.drop_last()), fields.last().value@.len())
    }
}

/// The most bytes a Codex edit body may take: the base64 of its images,
/// six bytes for each byte of text, and the overhead, held at
/// `usize::MAX`.
pub open spec fn codex_json_limit_spec(image_bytes: usize, fields: Seq<MultipartTextField>) -> nat {
    saturating_sum(
        saturating_sum(
            base64_encoded_len_spec(image_bytes) as nat,
            saturating_product(text_bytes_spec(fields), 6),
        ),
        REBUILT_BODY_OVERHEAD_BYTES as nat,
    )
}

/// The most bytes a Codex edit body may take.
pub fn codex_json_limit(image_bytes: usize, fields: &[MultipartTextField]) -> (limit: usize)
    ensures
        limit == codex_json_limit_spec(image_bytes, fields@),
{
    let mut total: usize = 0;
    let mut index: usize = 0;
    while index < fields.len()
        invariant
            index <= fields@.len(),
            total == text_bytes_spec(fields@.take(index as int)),
        decreases fields@.len() - index,
    {
        assert(fields@.take(index + 1).drop_last() =~= fields@.take(index as int));
        total = saturating_add(total, fields[index].value.len());
        index += 1;
    }
    assert(fields@.take(fields@.len() as int) =~= fields@);
    let text = if total > usize::MAX / 6 {
        usize::MAX
    } else {
        total * 6
    };
    assert(text == saturating_product(total as nat, 6));
    saturating_add(saturating_add(base64_encoded_len(image_bytes), text), REBUILT_BODY_OVERHEAD_BYTES)
}

/// The most bytes a rebuilt edit form may take: the form, the new model
/// and the overhead, held at `usize::MAX`.
pub fn rebuilt_body_limit(body_bytes: usize, model_bytes: usize) -> (limit: usize)
    ensures
        limit == saturating_sum(saturating_sum(body_bytes as nat, model_bytes as nat), REBUILT_BODY_OVERHEAD_BYTES as nat),
{
    saturating_add(saturating_add(body_bytes, model_bytes), REBUILT_BODY_OVERHEAD_BYTES)
}

/// A Codex edit takes at most five images and no mask; a mask is refused
/// with the error the Codex request policy gives for it.
pub open spec fn codex_edit_admissible(image_count: usize, mask_count: usize, mask_refusal: RequestPolicyError) -> Result<
    (),
    ImageEditBodyError,
> {
    if image_count > MAX_CODEX_EDIT_IMAGES {
        Err(ImageEditBodyError::CodexTooManyImages)
    } else if mask_count > 0 {
        Err(ImageEditBodyError::RequestPolicy(mask_refusal))
    } else {
        Ok(())
    }
}

/// Whether an edit's images and masks fit a Codex edit.
pub fn check_codex_edit(image_count: usize, mask_count: usize, mask_refusal: RequestPolicyError) -> (admissible:
    Result<(), ImageEditBodyError>)
    ensures
        admissible == codex_edit_admissible(image_count, mask_count, mask_refusal),
{
    if image_count > MAX_CODEX_EDIT_IMAGES {
        return Err(ImageEditBodyError::CodexTooManyImages);
    }
    if mask_count > 0 {
        return Err(ImageEditBodyError::RequestPolicy(mask_refusal));
    }
    Ok(())
}

/// A member `,"name":value` of a JSON object.
pub open spec fn json_member(name: Seq<char>, value: Seq<u8>) -> Seq<u8> {
    encode_utf8(",\""@) + encode_utf8(name) + encode_utf8("\":"@) + value
}

/// An optional string member: nothing when absent.
pub open spec fn optional_member(name: Seq<char>, value: Option<Seq<char>>) -> Seq<u8> {
    match value {
        Some(text) => json_member(name, json_string_text(text)),
        None => Seq::empty(),
    }
}

/// The text members of a Codex edit body, in this order: `prompt`,
/// `background`, `model`, `n`, `quality`, `size`, each only when present.
pub open spec fn codex_json_fields_spec(
    prompt: Seq<char>,
    background: Option<Seq<char>>,
    model: Seq<char>,
    n: Option<u64>,
    quality: Option<Seq<char>>,
    size: Option<Seq<char>>,
) -> Seq<u8> {
    json_member("prompt"@, json_string_text(prompt)) + optional_member("background"@, background) + json_member(
        "model"@,
        json_string_text(model),
    ) + match n {
        Some(count) => json_member("n"@, encode_utf8(decimal_spec(count as nat))),
        None => Seq::empty(),
    } + optional_member("quality"@, quality) + optional_member("size"@, size)
}

fn push_member(out: &mut Vec<u8>, name: &str, value: &[u8])
    ensures
        final(out)@ == old(out)@ + json_member(name@, value@),
{
    extend_bytes(out, ",\"".as_bytes());
    extend_bytes(out, name.as_bytes());
    extend_bytes(out, "\":".as_bytes());
    extend_bytes(out, value);
    assert(final(out)@ =~= old(out)@ + json_member(name@, value@));
}

fn push_optional_member(out: &mut Vec<u8>, name: &str, value: &Option<String>)
    ensures
        final(out)@ == old(out)@ + optional_member(name@, optional_view(*value)),
{
    match value {
        Some(text) => {
            let encoded = json_string_bytes(text.as_str());
            push_member(out, name, encoded.as_slice());
        },
        None => {
            assert(old(out)@ + Seq::<u8>::empty() =~= old(out)@);
        },
    }
}

impl CodexEditFields {
    /// The text members of the Codex edit body.
    pub fn json_fields(&self) -> (bytes: Vec<u8>)
        ensures
            bytes@ == codex_json_fields_spec(
                self.prompt@,
                optional_view(self.background),
                self.model@,
                self.n,
                optional_view(self.quality),
                optional_view(self.size),
            ),
    {
        let mut out: Vec<u8> = Vec::new();
        let prompt = json_string_bytes(self.prompt.as_str());
        push_member(&mut out, "prompt", prompt.as_slice());
        push_optional_member(&mut out, "background", &self.background);
        let model = json_string_bytes(self.model.as_str());
        push_member(&mut out, "model", model.as_slice());
        let ghost before_n = out@;
        if let Some(count) = self.n {
            let digits = decimal_string(count);
            push_member(&mut out, "n", digits.as_str().as_bytes());
        }
        let ghost after_n = out@;
        assert(after_n == before_n + match self.n {
            Some(count) => json_member("n"@, encode_utf8(decimal_spec(count as nat))),
            None => Seq::<u8>::empty(),
        }) by {
            if self.n is None {
                assert(before_n + Seq::<u8>::empty() =~= before_n);
            }
        }
        push_optional_member(&mut out, "quality", &self.quality);
        push_optional_member(&mut out, "size", &self.size);
        assert(out@ =~= codex_json_fields_spec(
            self.prompt@,
            optional_view(self.background),
            self.model@,
            self.n,
            optional_view(self.quality),
            optional_view(self.size),
        ));
        out
    }
}

/// A base64 digit of the standard alphabet: `A`-`Z`, `a`-`z`, `0`-`9`,
/// `+` and `/`.
pub open spec fn base64_digit(v: int) -> char {
    if v < 26 {
        (65 + v) as char
    } else if v < 52 {
        (71 + v) as char
    } else if v < 62 {
        (v - 4) as char
    } else if v == 62 {
        '+'
    } else {
        '/'
    }
}

/// Padded base64 with the standard alphabet (RFC 4648): each group of
/// three bytes gives four digits; a last group of one or two bytes gives
/// two or three digits and `=` up to four.
pub open spec fn base64_standard_text(bytes: Seq<u8>) -> Seq<char>
    decreases bytes.len(),
{
    if bytes.len() == 0 {
        Seq::empty()
    } else if bytes.len() == 1 {
        seq![base64_digit((bytes[0] / 4) as int), base64_digit((bytes[0] % 4) * 16), '=', '=']
    } else if bytes.len() == 2 {
        seq![
            base64_digit((bytes[0] / 4) as int),
            base64_digit((bytes[0] % 4) * 16 + bytes[1] / 16),
            base64_digit((bytes[1] % 16) * 4),
            '=',
        ]
    } else {
        seq![
            base64_digit((bytes[0] / 4) as int),
            base64_digit((bytes[0] % 4) * 16 + bytes[1] / 16),
            base64_digit((bytes[1] % 16) * 4 + bytes[2] / 64),
            base64_digit((bytes[2] % 64) as int),
        ] + base64_standard_text(bytes.skip(3))
    }
}

/// The base64 of bytes split after a whole number of groups of three is
/// the base64 of the first piece followed by that of the second.
pub proof fn lemma_base64_joins_at_whole_groups(first: Seq<u8>, second: Seq<u8>)
    requires
        first.len() % 3 == 0,
    ensures
        base64_standard_text(first + second) == base64_standard_text(first) + base64_standard_text(second),
    decreases first.len(),
{
    if first.len() == 0 {
        assert(first + second =~= second);
        assert(base64_standard_text(first) + base64_standard_text(second) =~= base64_standard_text(second));
    } else {
        let joined = first + second;
        assert(joined.skip(3) =~= first.skip(3) + second);
        lemma_base64_joins_at_whole_groups(first.skip(3), second);
        assert(joined[0] == first[0] && joined[1] == first[1] && joined[2] == first[2]);
        let group = seq![
            base64_digit((first[0] / 4) as int),
            base64_digit((first[0] % 4) * 16 + first[1] / 16),
            base64_digit((first[1] % 16) * 4 + first[2] / 64),
            base64_digit((first[2] % 64) as int),
        ];
        assert(base64_standard_text(joined) == group + base64_standard_text(joined.skip(3)));
        assert(base64_standard_text(first) == group + base64_standard_text(first.skip(3)));
        assert(group + (base64_standard_text(first.skip(3)) + base64_standard_text(second)) =~= (group
            + base64_standard_text(first.skip(3))) + base64_standard_text(second));
    }
}

/// Encodes bytes with `base64::engine::general_purpose::STANDARD`, which
/// writes padded base64 with the standard alphabet.
#[verifier::external_body]
fn encode_base64_standard(bytes: &[u8]) -> (text: String)
    ensures
        text@ == base64_standard_text(bytes@),
{
    base64::engine::general_purpose::STANDARD.encode(bytes)
}

/// What the stream has read, what it has handed to the encoder, and what
/// waits for more bytes.
pub struct Base64StreamView {
    pub read: Seq<u8>,
    pub encoded: Seq<u8>,
    pub pending: Seq<u8>,
    pub emitted: Seq<char>,
    pub length: nat,
    pub max_file_bytes: nat,
}

/// An image file encoded in base64 as its chunks arrive: whole groups of
/// three bytes are encoded at once, the rest waits for the next chunk.
pub struct Base64Stream {
    pending: Vec<u8>,
    length: usize,
    max_file_bytes: usize,
    read: Ghost<Seq<u8>>,
    encoded: Ghost<Seq<u8>>,
    emitted: Ghost<Seq<char>>,
}

impl View for Base64Stream {
    type V = Base64StreamView;

    closed spec fn view(&self) -> Base64StreamView {
        Base64StreamView {
            read: self.read@,
            encoded: self.encoded@,
            pending: self.pending@,
            emitted: self.emitted@,
            length: self.length as nat,
            max_file_bytes: self.max_file_bytes as nat,
        }
    }
}

/// Every byte read has been handed to the encoder or waits, in order; the
/// encoder was handed whole groups of three, and the text handed out so far
/// is their base64; fewer than three wait; the length counts the bytes
/// read and stays within the limit.
pub open spec fn base64_stream_wf(s: Base64StreamView) -> bool {
    &&& s.read == s.encoded + s.pending
    &&& s.emitted == base64_standard_text(s.encoded)
    &&& s.encoded.len() % 3 == 0
    &&& s.pending.len() < 3
    &&& s.length <= s.max_file_bytes
    &&& s.max_file_bytes <= usize::MAX
}

impl Base64Stream {
    /// A stream that has read nothing, for a file of at most
    /// `max_file_bytes` bytes.
    pub fn new(max_file_bytes: usize) -> (stream: Self)
        ensures
            base64_stream_wf(stream@),
            stream@.read == Seq::<u8>::empty(),
            stream@.emitted == Seq::<char>::empty(),
            stream@.length == 0,
            stream@.max_file_bytes == max_file_bytes,
    {
        let stream = Base64Stream {
            pending: Vec::new(),
            length: 0,
            max_file_bytes,
            read: Ghost(Seq::empty()),
            encoded: Ghost(Seq::empty()),
            emitted: Ghost(Seq::empty()),
        };
        assert(stream@.read =~= stream@.encoded + stream@.pending);
        stream
    }

    /// Reads a chunk: the file may have no more than its limit; the bytes
    /// waiting and the chunk are encoded up to the last whole group of
    /// three. A refused chunk leaves the stream as it was.
    pub fn push(&mut self, chunk: &[u8]) -> (text: Result<String, ImageEditBodyError>)
        requires
            base64_stream_wf(old(self)@),
        ensures
            base64_stream_wf(final(self)@),
            final(self)@.max_file_bytes == old(self)@.max_file_bytes,
            ({
                let total = saturating_sum(old(self)@.length, chunk@.len());
                let input = old(self)@.pending + chunk@;
                let whole = input.len() - input.len() % 3;
                match text {
                    Ok(text) => total <= old(self)@.max_file_bytes && final(self)@.length == total
                        && final(self)@.emitted == old(self)@.emitted + text@
                        && final(self)@.read == old(self)@.read + chunk@ && final(self)@.encoded == old(
                        self,
                    )@.encoded + input.take(whole) && final(self)@.pending == input.skip(whole) && text@ == (
                    if whole > 0 {
                        base64_standard_text(input.take(whole))
                    } else {
                        Seq::empty()
                    }),
                    Err(error) => total > old(self)@.max_file_bytes && error == ImageEditBodyError::FileTooLarge
                        && final(self)@ == old(self)@,
                }
            }),
    {
        let total = saturating_add(self.length, chunk.len());
        if total > self.max_file_bytes {
            return Err(ImageEditBodyError::FileTooLarge);
        }
        let ghost old_pending = self.pending@;
        let mut input: Vec<u8> = Vec::new();
        extend_bytes(&mut input, self.pending.as_slice());
        extend_bytes(&mut input, chunk);
        let whole = input.len() - input.len() % 3;
        let text = if whole > 0 {
            encode_base64_standard(vstd::slice::slice_subrange(input.as_slice(), 0, whole))
        } else {
            String::new()
        };
        let rest = vstd::slice::slice_subrange(input.as_slice(), whole, input.len());
        let mut pending: Vec<u8> = Vec::new();
        extend_bytes(&mut pending, rest);
        proof {
            assert(input@.take(whole as int) + input@.skip(whole as int) =~= input@);
            assert(input@.subrange(0, whole as int) =~= input@.take(whole as int));
            assert(input@.subrange(whole as int, input@.len() as int) =~= input@.skip(whole as int));
            assert(Seq::<u8>::empty() + rest@ =~= rest@);
            assert(self.encoded@ + input@.take(whole as int) + input@.skip(whole as int) =~= self.encoded@
                + input@);
            assert(self.read@ + chunk@ =~= self.encoded@ + (old_pending + chunk@));
            assert((self.encoded@.len() + whole) % 3 == 0) by (nonlinear_arith)
                requires
                    self.encoded@.len() % 3 == 0,
                    whole == input@.len() - input@.len() % 3,
                    input@.len() >= 0,
            ;
        }
        proof {
            lemma_base64_joins_at_whole_groups(self.encoded@, input@.take(whole as int));
            assert(text@ =~= base64_standard_text(input@.take(whole as int)));
        }
        self.emitted = Ghost(self.emitted@ + text@);
        self.encoded = Ghost(self.encoded@ + input@.take(whole as int));
        self.read = Ghost(self.read@ + chunk@);
        self.pending = pending;
        self.length = total;
        Ok(text)
    }

    /// The encoding of the bytes still waiting, once the file has ended;
    /// with it, every byte read has been handed to the encoder.
    pub fn finish(self) -> (text: String)
        requires
            base64_stream_wf(self@),
        ensures
            text@ == (if self@.pending.len() > 0 {
                base64_standard_text(self@.pending)
            } else {
                Seq::empty()
            }),
            self@.encoded + self@.pending == self@.read,
            self@.emitted + text@ == base64_standard_text(self@.read),
    {
        proof {
            lemma_base64_joins_at_whole_groups(self@.encoded, self@.pending);
        }
        if self.pending.len() > 0 {
            encode_base64_standard(self.pending.as_slice())
        } else {
            String::new()
        }
    }
}

/// A part of an Images edit form, as the multipart reader gives it: its
/// name, its media type without parameters, its file name and its bytes.
pub struct FormPart {
    pub name: Option<String>,
    pub content_essence: Option<String>,
    pub file_name: Option<String>,
    pub data: Vec<u8>,
}

/// A `FormPart` as plain values.
pub struct FormPartView {
    pub name: Option<Seq<char>>,
    pub essence: Option<Seq<char>>,
    pub file_name: Option<Seq<char>>,
    pub data: Seq<u8>,
}

pub open spec fn text_option(value: Option<String>) -> Option<Seq<char>> {
    match value {
        Some(text) => Some(text@),
        None => None,
    }
}

pub open spec fn part_view(part: FormPart) -> FormPartView {
    FormPartView {
        name: text_option(part.name),
        essence: text_option(part.content_essence),
        file_name: text_option(part.file_name),
        data: part.data@,
    }
}

/// The part is one the request policy told the proxy to leave out.
pub open spec fn ignored_part(ignored: Seq<Seq<char>>, name: Option<Seq<char>>) -> bool {
    name matches Some(n) && ignored.contains(n)
}

/// The part carries an input image.
pub open spec fn image_part(name: Option<Seq<char>>) -> bool {
    name == Some("image"@) || name == Some("image[]"@)
}

/// The opening of a Codex edit body: `{"images":[`.
pub open spec fn images_header() -> Seq<u8> {
    seq![123u8, 34u8, 105u8, 109u8, 97u8, 103u8, 101u8, 115u8, 34u8, 58u8, 91u8]
}

/// An image of the body: a data URL with the image's media type and its
/// base64, after a comma unless it is the first.
pub open spec fn image_entry(index: nat, mime: Seq<char>, data: Seq<u8>) -> Seq<u8> {
    (if index > 0 {
        encode_utf8(","@)
    } else {
        Seq::empty()
    }) + encode_utf8("{\"image_url\":\"data:"@) + encode_utf8(mime) + encode_utf8(";base64,"@) + encode_utf8(
        base64_standard_text(data),
    ) + seq![34u8, 125u8]
}

/// What a part adds to the body: nothing for a part left out or for a
/// part that is not an image; for an image, its entry. An image needs a
/// media type and at most the file limit of bytes.
pub open spec fn part_output(index: nat, part: FormPartView, ignored: Seq<Seq<char>>, max_file_bytes: nat) -> Result<
    Seq<u8>,
    ImageEditBodyError,
> {
    if ignored_part(ignored, part.name) || !image_part(part.name) {
        Ok(Seq::empty())
    } else {
        match image_mime_spec(part.essence, part.file_name) {
            None => Err(ImageEditBodyError::CodexImageContentType),
            Some(mime) => if part.data.len() > max_file_bytes {
                Err(ImageEditBodyError::FileTooLarge)
            } else {
                Ok(image_entry(index, mime, part.data))
            },
        }
    }
}

/// The images part of the body for the parts read so far, with the number
/// of images written; the whole body may not pass the limit.
pub open spec fn parts_spec(
    parts: Seq<FormPartView>,
    ignored: Seq<Seq<char>>,
    max_file_bytes: nat,
    limit: nat,
) -> Result<(Seq<u8>, nat), ImageEditBodyError>
    decreases parts.len(),
{
    if parts.len() == 0 {
        Ok((Seq::empty(), 0))
    } else {
        match parts_spec(parts.drop_last(), ignored, max_file_bytes, limit) {
            Err(error) => Err(error),
            Ok((bytes, index)) => {
                let part = parts.last();
                match part_output(index, part, ignored, max_file_bytes) {
                    Err(error) => Err(error),
                    Ok(out) => if images_header().len() + bytes.len() + out.len() > limit {
                        Err(ImageEditBodyError::BodyTooLarge)
                    } else {
                        Ok(
                            (
                                bytes + out,
                                if ignored_part(ignored, part.name) || !image_part(part.name) {
                                    index
                                } else {
                                    index + 1
                                },
                            ),
                        )
                    },
                }
            },
        }
    }
}

/// The whole Codex edit body of a form: the images, then the text
/// members; every image the inspection counted must be written, and the
/// body may not pass the limit.
pub open spec fn codex_json_spec(
    parts: Seq<FormPartView>,
    ignored: Seq<Seq<char>>,
    max_file_bytes: nat,
    limit: nat,
    image_count: nat,
    fields_json: Seq<u8>,
) -> Result<Seq<u8>, ImageEditBodyError> {
    match parts_spec(parts, ignored, max_file_bytes, limit) {
        Err(error) => Err(error),
        Ok((bytes, index)) => if index != image_count {
            Err(ImageEditBodyError::MalformedMultipart)
        } else {
            let body = images_header() + bytes + encode_utf8("]"@) + fields_json + encode_utf8("}"@);
            if body.len() > limit {
                Err(ImageEditBodyError::BodyTooLarge)
            } else {
                Ok(body)
            }
        },
    }
}

/// Writes the JSON body of a Codex edit part by part.
pub struct CodexBodyWriter {
    ignored: Vec<String>,
    max_file_bytes: usize,
    limit: usize,
    image_count: usize,
    fields_json: Vec<u8>,
    index: usize,
    length: usize,
    seen: Ghost<Seq<FormPartView>>,
    written: Ghost<Seq<u8>>,
}

/// What the writer has read and written of the images.
pub struct CodexBodyView {
    pub ignored: Seq<Seq<char>>,
    pub max_file_bytes: nat,
    pub limit: nat,
    pub image_count: nat,
    pub fields_json: Seq<u8>,
    pub seen: Seq<FormPartView>,
    pub written: Seq<u8>,
    pub index: nat,
}

impl View for CodexBodyWriter {
    type V = CodexBodyView;

    closed spec fn view(&self) -> CodexBodyView {
        CodexBodyView {
            ignored: crate::http_rules::text_views(self.ignored@),
            max_file_bytes: self.max_file_bytes as nat,
            limit: self.limit as nat,
            image_count: self.image_count as nat,
            fields_json: self.fields_json@,
            seen: self.seen@,
            written: self.written@,
            index: self.index as nat,
        }
    }
}

impl CodexBodyWriter {
    /// The images written so far are those of the parts read so far, and
    /// the body is within its limit.
    pub closed spec fn wf(&self) -> bool {
        &&& parts_spec(self.seen@, self@.ignored, self.max_file_bytes as nat, self.limit as nat) == Ok::<
            (Seq<u8>, nat),
            ImageEditBodyError,
        >((self.written@, self.index as nat))
        &&& self.length == images_header().len() + self.written@.len()
        &&& self.length <= self.limit
        &&& self.index <= self.written@.len()
    }

    /// Starts the body of a Codex edit: the edit must fit a Codex edit and
    /// its text fields must read; the limit is that of `codex_json_limit`.
    /// The opening of the body is returned.
    pub fn start(
        image_count: usize,
        mask_count: usize,
        mask_refusal: RequestPolicyError,
        text_fields: &[MultipartTextField],
        image_bytes: usize,
        max_file_bytes: usize,
        ignored: Vec<String>,
    ) -> (started: Result<(Self, Vec<u8>), ImageEditBodyError>)
        ensures
            match started {
                Ok((writer, header)) => {
                    &&& codex_edit_admissible(image_count, mask_count, mask_refusal) is Ok
                    &&& codex_edit_spec(field_views(text_fields@)) matches Ok(t) && writer@.fields_json
                        == codex_json_fields_spec(t.0, t.1, t.2, t.3, t.4, t.5)
                    &&& writer.wf()
                    &&& writer@.seen == Seq::<FormPartView>::empty()
                    &&& writer@.written == Seq::<u8>::empty()
                    &&& writer@.index == 0
                    &&& writer@.ignored == crate::http_rules::text_views(ignored@)
                    &&& writer@.max_file_bytes == max_file_bytes
                    &&& writer@.image_count == image_count
                    &&& writer@.limit == codex_json_limit_spec(image_bytes, text_fields@)
                    &&& header@ == images_header()
                },
                Err(error) => match codex_edit_admissible(image_count, mask_count, mask_refusal) {
                    Err(refused) => error == refused,
                    Ok(()) => codex_edit_spec(field_views(text_fields@)) == Err::<
                        (
                            Seq<char>,
                            Option<Seq<char>>,
                            Seq<char>,
                            Option<u64>,
                            Option<Seq<char>>,
                            Option<Seq<char>>,
                        ),
                        ImageEditBodyError,
                    >(error),
                },
            },
    {
        check_codex_edit(image_count, mask_count, mask_refusal)?;
        let fields = CodexEditFields::parse(text_fields)?;
        let limit = codex_json_limit(image_bytes, text_fields);
        let fields_json = fields.json_fields();
        let mut opening: Vec<u8> = Vec::new();
        opening.push(123);
        opening.push(34);
        opening.push(105);
        opening.push(109);
        opening.push(97);
        opening.push(103);
        opening.push(101);
        opening.push(115);
        opening.push(34);
        opening.push(58);
        opening.push(91);
        assert(opening@ =~= images_header());
        assert(limit >= 65536);
        let writer = CodexBodyWriter {
            ignored,
            max_file_bytes,
            limit,
            image_count,
            fields_json,
            index: 0,
            length: 11,
            seen: Ghost(Seq::empty()),
            written: Ghost(Seq::empty()),
        };
        Ok((writer, opening))
    }

    /// Reads a part and returns what it adds to the body; a refused part
    /// leaves the writer as it was.
    pub fn step(&mut self, part: FormPart) -> (out: Result<Vec<u8>, ImageEditBodyError>)
        requires
            old(self).wf(),
        ensures
            final(self).wf(),
            match out {
                Ok(out) => {
                    &&& final(self)@ == (CodexBodyView {
                        seen: old(self)@.seen.push(part_view(part)),
                        written: old(self)@.written + out@,
                        index: final(self)@.index,
                        ..old(self)@
                    })
                    &&& parts_spec(
                        old(self)@.seen.push(part_view(part)),
                        old(self)@.ignored,
                        old(self)@.max_file_bytes,
                        old(self)@.limit,
                    ) == Ok::<(Seq<u8>, nat), ImageEditBodyError>((old(self)@.written + out@, final(self)@.index))
                },
                Err(error) => final(self)@ == old(self)@ && parts_spec(
                    old(self)@.seen.push(part_view(part)),
                    old(self)@.ignored,
                    old(self)@.max_file_bytes,
                    old(self)@.limit,
                ) == Err::<(Seq<u8>, nat), ImageEditBodyError>(error),
            },
    {
        let ghost view = part_view(part);
        let ghost all = self.seen@.push(view);
        proof {
            assert(all.drop_last() =~= self.seen@);
        }
        let ignored = match &part.name {
            Some(name) => crate::http_rules::contains_text(self.ignored.as_slice(), name.as_str()),
            None => false,
        };
        let image = match &part.name {
            Some(name) => crate::body_limits::is_image_field(name.as_str()),
            None => false,
        };
        let mut out: Vec<u8> = Vec::new();
        if !ignored && image {
            let essence = match &part.content_essence {
                Some(essence) => Some(essence.as_str()),
                None => None,
            };
            let file_name = match &part.file_name {
                Some(file_name) => Some(file_name.as_str()),
                None => None,
            };
            let mime = image_mime(essence, file_name)?;
            if part.data.len() > self.max_file_bytes {
                return Err(ImageEditBodyError::FileTooLarge);
            }
            if self.index > 0 {
                extend_bytes(&mut out, ",".as_bytes());
            }
            extend_bytes(&mut out, "{\"image_url\":\"data:".as_bytes());
            extend_bytes(&mut out, mime.as_str().as_bytes());
            extend_bytes(&mut out, ";base64,".as_bytes());
            let encoded = encode_base64_standard(part.data.as_slice());
            extend_bytes(&mut out, encoded.as_str().as_bytes());
            out.push(34);
            out.push(125);
            assert(out@ =~= image_entry(self.index as nat, mime@, part.data@));
        } else {
            assert(out@ =~= Seq::<u8>::empty());
        }
        if out.len() > self.limit - self.length {
            return Err(ImageEditBodyError::BodyTooLarge);
        }
        let ghost written = self.written@ + out@;
        self.length = self.length + out.len();
        if !ignored && image {
            self.index = self.index + 1;
        }
        self.seen = Ghost(all);
        self.written = Ghost(written);
        Ok(out)
    }

    /// Ends the body once every part has been read: the images the
    /// inspection counted must all have been written; the closing of the
    /// body, with the text members, is returned.
    pub fn finish(self) -> (out: Result<Vec<u8>, ImageEditBodyError>)
        requires
            self.wf(),
        ensures
            match codex_json_spec(
                self@.seen,
                self@.ignored,
                self@.max_file_bytes,
                self@.limit,
                self@.image_count,
                self@.fields_json,
            ) {
                Ok(body) => out matches Ok(tail) && body == images_header() + self@.written + tail@,
                Err(error) => out == Err::<Vec<u8>, ImageEditBodyError>(error),
            },
    {
        if self.index != self.image_count {
            return Err(ImageEditBodyError::MalformedMultipart);
        }
        let mut out: Vec<u8> = Vec::new();
        extend_bytes(&mut out, "]".as_bytes());
        extend_bytes(&mut out, self.fields_json.as_slice());
        extend_bytes(&mut out, "}".as_bytes());
        assert(images_header() + self.written@ + out@ =~= images_header() + self.written@ + encode_utf8("]"@)
            + self.fields_json@ + encode_utf8("}"@));
        if out.len() > self.limit - self.length {
            return Err(ImageEditBodyError::BodyTooLarge);
        }
        Ok(out)
    }
}

} // verus!
