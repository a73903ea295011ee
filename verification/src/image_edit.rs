//! The text fields of an Images edit form and what the proxy reads from
//! them: whether streaming was asked for, the fields a Codex edit needs,
//! the model they name, the image type of a file part, and the content
//! encodings such a body may carry.

use vstd::prelude::*;

use crate::body_limits::is_image_field;
use crate::decimal::{parse_u64, parse_u64_spec};
use crate::keyword::{check_utf8, utf8_error};
use crate::proxy_error::ImageEditBodyError;
use crate::text::{ascii_lower_text, str_eq, to_ascii_lowercase};
use crate::unicode::{chars_of, trim, trim_spec};
use vstd::utf8::decode_utf8;

verus! {

/// A text part of a multipart form.
#[derive(Clone, Debug, PartialEq, Eq)]
pub struct MultipartTextField {
    pub name: String,
    pub value: Vec<u8>,
}

/// The text of a part's value, when it is UTF-8.
pub open spec fn field_text(value: Seq<u8>) -> Option<Seq<char>> {
    if utf8_error(value) is None {
        Some(decode_utf8(value))
    } else {
        None
    }
}

fn text_of_bytes(value: &Vec<u8>) -> (text: Option<String>)
    ensures
        match text {
            Some(text) => field_text(value@) == Some(text@),
            None => field_text(value@) is None,
        },
{
    match check_utf8(value.as_slice()) {
        Ok(text) => Some(text),
        Err(_) => None,
    }
}

/// Whether a trimmed text equals a word in any ASCII case.
pub open spec fn is_word(text: Seq<char>, word: Seq<char>) -> bool {
    ascii_lower_text(trim_spec(text)) == ascii_lower_text(word)
}

fn word(text: &str, expected: &str) -> (matches: bool)
    ensures
        matches == is_word(text@, expected@),
{
    let lowered = to_ascii_lowercase(trim(text));
    let target = to_ascii_lowercase(expected);
    str_eq(lowered.as_str(), target.as_str())
}

/// A part asks for streaming: it is named `stream` and its value is
/// `true` in any ASCII case or `1`, trimmed.
pub open spec fn asks_to_stream(name: Seq<char>, value: Seq<u8>) -> bool {
    name == "stream"@ && match field_text(value) {
        Some(text) => is_word(text, "true"@) || trim_spec(text) == "1"@,
        None => false,
    }
}

pub open spec fn field_views(fields: Seq<MultipartTextField>) -> Seq<(Seq<char>, Seq<u8>)> {
    fields.map_values(|field: MultipartTextField| (field.name@, field.value@))
}

/// Whether an Images edit form asks for streaming.
pub fn stream_requested(fields: &[MultipartTextField]) -> (requested: bool)
    ensures
        requested == exists|i: int|
            0 <= i < fields@.len() && asks_to_stream(#[trigger] field_views(fields@)[i].0, field_views(fields@)[i].1),
{
    let mut index: usize = 0;
    while index < fields.len()
        invariant
            index <= fields@.len(),
            forall|i: int| 0 <= i < index ==> !asks_to_stream(#[trigger] field_views(fields@)[i].0, field_views(fields@)[i].1),
        decreases fields@.len() - index,
    {
        let field = &fields[index];
        assert(field_views(fields@)[index as int] == (field.name@, field.value@));
        if str_eq(field.name.as_str(), "stream") {
            if let Some(text) = text_of_bytes(&field.value) {
                let trimmed = trim(text.as_str());
                proof {
                    reveal_strlit("1");
                }
                if word(text.as_str(), "true") || str_eq(trimmed, "1") {
                    assert(asks_to_stream(field_views(fields@)[index as int].0, field_views(fields@)[index as int].1));
                    return true;
                }
            }
        }
        index += 1;
    }
    false
}

/// The positions of the parts named `name`.
pub open spec fn named_count(fields: Seq<(Seq<char>, Seq<u8>)>, name: Seq<char>) -> nat
    decreases fields.len(),
{
    if fields.len() == 0 {
        0
    } else {
        named_count(fields.drop_last(), name) + if fields.last().0 == name {
            1nat
        } else {
            0nat
        }
    }
}

/// The first part named `name`.
pub open spec fn first_named(fields: Seq<(Seq<char>, Seq<u8>)>, name: Seq<char>) -> Option<Seq<u8>>
    decreases fields.len(),
{
    if fields.len() == 0 {
        None
    } else {
        match first_named(fields.drop_last(), name) {
            Some(value) => Some(value),
            None => if fields.last().0 == name {
                Some(fields.last().1)
            } else {
                None
            },
        }
    }
}

/// An optional text field of a Codex edit: absent is `None`; a repeated
/// field or one that is not UTF-8 is refused.
pub open spec fn optional_field_spec(fields: Seq<(Seq<char>, Seq<u8>)>, name: Seq<char>) -> Result<
    Option<Seq<char>>,
    ImageEditBodyError,
> {
    if named_count(fields, name) == 0 {
        Ok(None)
    } else if named_count(fields, name) > 1 {
        Err(ImageEditBodyError::CodexDuplicateField)
    } else {
        match field_text(first_named(fields, name)->0) {
            Some(text) => Ok(Some(text)),
            None => Err(ImageEditBodyError::CodexInvalidField),
        }
    }
}

proof fn lemma_count_prefix(fields: Seq<(Seq<char>, Seq<u8>)>, name: Seq<char>, n: int)
    requires
        0 <= n < fields.len(),
    ensures
        named_count(fields.take(n + 1), name) == named_count(fields.take(n), name) + if fields[n].0 == name {
            1nat
        } else {
            0nat
        },
        first_named(fields.take(n + 1), name) == match first_named(fields.take(n), name) {
            Some(value) => Some(value),
            None => if fields[n].0 == name {
                Some(fields[n].1)
            } else {
                None
            },
        },
{
    assert(fields.take(n + 1).drop_last() =~= fields.take(n));
    assert(fields.take(n + 1).last() == fields[n]);
}

pub open spec fn optional_view(value: Option<String>) -> Option<Seq<char>> {
    match value {
        Some(value) => Some(value@),
        None => None,
    }
}

/// An optional text field of a Codex edit form.
pub fn optional_text_field(fields: &[MultipartTextField], name: &str) -> (field: Result<
    Option<String>,
    ImageEditBodyError,
>)
    ensures
        match field {
            Ok(value) => optional_field_spec(field_views(fields@), name@) == Ok::<
                Option<Seq<char>>,
                ImageEditBodyError,
            >(optional_view(value)),
            Err(error) => optional_field_spec(field_views(fields@), name@) == Err::<
                Option<Seq<char>>,
                ImageEditBodyError,
            >(error),
        },
{
    let ghost views = field_views(fields@);
    let mut found: Option<usize> = None;
    let mut index: usize = 0;
    assert(views.take(0) =~= Seq::<(Seq<char>, Seq<u8>)>::empty());
    while index < fields.len()
        invariant
            index <= fields@.len(),
            views == field_views(fields@),
            views.len() == fields@.len(),
            match found {
                Some(k) => k < index && named_count(views.take(index as int), name@) == 1 && first_named(
                    views.take(index as int),
                    name@,
                ) == Some(views[k as int].1) && views[k as int].1 == fields@[k as int].value@,
                None => named_count(views.take(index as int), name@) == 0 && first_named(
                    views.take(index as int),
                    name@,
                ) is None,
            },
        decreases fields@.len() - index,
    {
        proof {
            lemma_count_prefix(views, name@, index as int);
        }
        assert(views[index as int] == (fields@[index as int].name@, fields@[index as int].value@));
        if str_eq(fields[index].name.as_str(), name) {
            if found.is_some() {
                proof {
                    assert(named_count(views.take(index + 1), name@) == 2);
                    lemma_count_monotone(views, name@, index + 1);
                }
                return Err(ImageEditBodyError::CodexDuplicateField);
            }
            found = Some(index);
        }
        index += 1;
    }
    assert(views.take(fields@.len() as int) =~= views);
    match found {
        None => Ok(None),
        Some(k) => match text_of_bytes(&fields[k].value) {
            Some(text) => Ok(Some(text)),
            None => Err(ImageEditBodyError::CodexInvalidField),
        },
    }
}

proof fn lemma_count_monotone(fields: Seq<(Seq<char>, Seq<u8>)>, name: Seq<char>, n: int)
    requires
        0 <= n <= fields.len(),
    ensures
        named_count(fields, name) >= named_count(fields.take(n), name),
    decreases fields.len() - n,
{
    if n < fields.len() {
        lemma_count_prefix(fields, name, n);
        lemma_count_monotone(fields, name, n + 1);
    } else {
        assert(fields.take(n) =~= fields);
    }
}

/// A required text field of a Codex edit form.
pub fn required_text_field(fields: &[MultipartTextField], name: &str) -> (field: Result<String, ImageEditBodyError>)
    ensures
        match field {
            Ok(value) => optional_field_spec(field_views(fields@), name@) == Ok::<
                Option<Seq<char>>,
                ImageEditBodyError,
            >(Some(value@)),
            Err(error) => match optional_field_spec(field_views(fields@), name@) {
                Ok(None) => error == ImageEditBodyError::CodexMissingField,
                Ok(Some(_)) => false,
                Err(expected) => error == expected,
            },
        },
{
    match optional_text_field(fields, name) {
        Ok(Some(value)) => Ok(value),
        Ok(None) => Err(ImageEditBodyError::CodexMissingField),
        Err(error) => Err(error),
    }
}

/// The fields of an Images edit that the Codex backend accepts.
#[derive(Debug)]
pub struct CodexEditFields {
    pub prompt: String,
    pub background: Option<String>,
    pub model: String,
    pub n: Option<u64>,
    pub quality: Option<String>,
    pub size: Option<String>,
}

pub open spec fn background_allowed(value: Seq<char>) -> bool {
    value == "transparent"@ || value == "opaque"@ || value == "auto"@
}

pub open spec fn quality_allowed(value: Seq<char>) -> bool {
    value == "low"@ || value == "medium"@ || value == "high"@ || value == "auto"@
}

/// What a Codex edit reads from the form, in this order: a prompt and a
/// model, both required; a background and a quality from their fixed
/// lists; a size; a count `n` that parses as `u64` after trimming; and no
/// streaming unless `stream` is `false` (any ASCII case) or `0`.
pub open spec fn codex_edit_spec(fields: Seq<(Seq<char>, Seq<u8>)>) -> Result<
    (Seq<char>, Option<Seq<char>>, Seq<char>, Option<u64>, Option<Seq<char>>, Option<Seq<char>>),
    ImageEditBodyError,
> {
    let required = |name: Seq<char>|
        match optional_field_spec(fields, name) {
            Ok(Some(value)) => Ok(value),
            Ok(None) => Err(ImageEditBodyError::CodexMissingField),
            Err(error) => Err(error),
        };
    match required("prompt"@) {
        Err(error) => Err(error),
        Ok(prompt) => match required("model"@) {
            Err(error) => Err(error),
            Ok(model) => match optional_field_spec(fields, "background"@) {
                Err(error) => Err(error),
                Ok(background) => if background matches Some(value) && !background_allowed(value) {
                    Err(ImageEditBodyError::CodexInvalidField)
                } else {
                    match optional_field_spec(fields, "quality"@) {
                        Err(error) => Err(error),
                        Ok(quality) => if quality matches Some(value) && !quality_allowed(value) {
                            Err(ImageEditBodyError::CodexInvalidField)
                        } else {
                            match optional_field_spec(fields, "size"@) {
                                Err(error) => Err(error),
                                Ok(size) => match optional_field_spec(fields, "n"@) {
                                    Err(error) => Err(error),
                                    Ok(n) => {
                                        let count: Result<Option<u64>, ImageEditBodyError> = match n {
                                            Some(text) => match parse_u64_spec(trim_spec(text)) {
                                                Some(value) => Ok(Some(value)),
                                                None => Err(ImageEditBodyError::CodexInvalidField),
                                            },
                                            None => Ok(None),
                                        };
                                        match count {
                                            Err(error) => Err(error),
                                            Ok(count) => match optional_field_spec(fields, "stream"@) {
                                                Err(error) => Err(error),
                                                Ok(stream) => if stream matches Some(value) && !(is_word(
                                                    value,
                                                    "false"@,
                                                ) || trim_spec(value) == "0"@) {
                                                    Err(ImageEditBodyError::StreamingUnsupported)
                                                } else {
                                                    Ok((prompt, background, model, count, quality, size))
                                                },
                                            },
                                        }
                                    },
                                },
                            }
                        },
                    }
                },
            },
        },
    }
}

impl CodexEditFields {
    /// Reads the fields of a Codex edit from the form's text parts.
    pub fn parse(fields: &[MultipartTextField]) -> (parsed: Result<Self, ImageEditBodyError>)
        ensures
            match parsed {
                Ok(parsed) => codex_edit_spec(field_views(fields@)) == Ok::<
                    (Seq<char>, Option<Seq<char>>, Seq<char>, Option<u64>, Option<Seq<char>>, Option<Seq<char>>),
                    ImageEditBodyError,
                >(
                    (
                        parsed.prompt@,
                        optional_view(parsed.background),
                        parsed.model@,
                        parsed.n,
                        optional_view(parsed.quality),
                        optional_view(parsed.size),
                    ),
                ),
                Err(error) => codex_edit_spec(field_views(fields@)) == Err::<
                    (Seq<char>, Option<Seq<char>>, Seq<char>, Option<u64>, Option<Seq<char>>, Option<Seq<char>>),
                    ImageEditBodyError,
                >(error),
            },
    {
        let prompt = match required_text_field(fields, "prompt") {
            Ok(prompt) => prompt,
            Err(error) => {
                return Err(error);
            },
        };
        let model = match required_text_field(fields, "model") {
            Ok(model) => model,
            Err(error) => {
                return Err(error);
            },
        };
        let background = match optional_text_field(fields, "background") {
            Ok(background) => background,
            Err(error) => {
                return Err(error);
            },
        };
        if let Some(value) = &background {
            if !(str_eq(value.as_str(), "transparent") || str_eq(value.as_str(), "opaque") || str_eq(
                value.as_str(),
                "auto",
            )) {
                return Err(ImageEditBodyError::CodexInvalidField);
            }
        }
        let quality = match optional_text_field(fields, "quality") {
            Ok(quality) => quality,
            Err(error) => {
                return Err(error);
            },
        };
        if let Some(value) = &quality {
            if !(str_eq(value.as_str(), "low") || str_eq(value.as_str(), "medium") || str_eq(value.as_str(), "high")
                || str_eq(value.as_str(), "auto")) {
                return Err(ImageEditBodyError::CodexInvalidField);
            }
        }
        let size = match optional_text_field(fields, "size") {
            Ok(size) => size,
            Err(error) => {
                return Err(error);
            },
        };
        let n = match optional_text_field(fields, "n") {
            Ok(n) => n,
            Err(error) => {
                return Err(error);
            },
        };
        let n = match n {
            Some(text) => {
                let digits = chars_of(trim(text.as_str()));
                match parse_u64(digits.as_slice()) {
                    Some(value) => Some(value),
                    None => {
                        return Err(ImageEditBodyError::CodexInvalidField);
                    },
                }
            },
            None => None,
        };
        let stream = match optional_text_field(fields, "stream") {
            Ok(stream) => stream,
            Err(error) => {
                return Err(error);
            },
        };
        if let Some(value) = &stream {
            proof {
                reveal_strlit("0");
            }
            if !(word(value.as_str(), "false") || str_eq(trim(value.as_str()), "0")) {
                return Err(ImageEditBodyError::StreamingUnsupported);
            }
        }
        Ok(CodexEditFields { prompt, background, model, n, quality, size })
    }
}

/// The form with every `model` part given the upstream model, which must
/// not break a header line.
pub open spec fn rewritten_fields_spec(fields: Seq<(Seq<char>, Seq<u8>)>, model: Seq<char>) -> Option<
    Seq<(Seq<char>, Seq<u8>)>,
> {
    if model.contains('\r') || model.contains('\n') {
        None
    } else {
        Some(
            fields.map_values(
                |field: (Seq<char>, Seq<u8>)|
                    if field.0 == "model"@ {
                        (field.0, vstd::utf8::encode_utf8(model))
                    } else {
                        field
                    },
            ),
        )
    }
}

/// Gives every `model` part of the form the upstream model.
pub fn rewrite_model_fields(fields: Vec<MultipartTextField>, upstream_model: &str) -> (rewritten: Result<
    Vec<MultipartTextField>,
    ImageEditBodyError,
>)
    ensures
        match rewritten {
            Ok(rewritten) => rewritten_fields_spec(field_views(fields@), upstream_model@) == Some(
                field_views(rewritten@),
            ),
            Err(error) => rewritten_fields_spec(field_views(fields@), upstream_model@) is None && error
                == ImageEditBodyError::InvalidModel,
        },
{
    let chars = chars_of(upstream_model);
    let mut index: usize = 0;
    while index < chars.len()
        invariant
            index <= chars@.len(),
            chars@ == upstream_model@,
            forall|i: int| 0 <= i < index ==> chars@[i] != '\r' && chars@[i] != '\n',
        decreases chars@.len() - index,
    {
        if chars[index] == '\r' || chars[index] == '\n' {
            assert(upstream_model@.contains(chars@[index as int]));
            return Err(ImageEditBodyError::InvalidModel);
        }
        index += 1;
    }
    assert(!upstream_model@.contains('\r') && !upstream_model@.contains('\n'));
    let ghost views = field_views(fields@);
    let ghost target = rewritten_fields_spec(views, upstream_model@)->0;
    let mut rewritten: Vec<MultipartTextField> = Vec::new();
    let mut source = fields;
    let mut index: usize = 0;
    let length = source.len();
    while index < length
        invariant
            index <= length,
            length == source@.len(),
            views == field_views(source@),
            target == rewritten_fields_spec(views, upstream_model@)->0,
            target.len() == views.len(),
            !upstream_model@.contains('\r') && !upstream_model@.contains('\n'),
            field_views(rewritten@) == target.take(index as int),
        decreases length - index,
    {
        let field = &source[index];
        assert(views[index as int] == (field.name@, field.value@));
        assert(target[index as int] == (if views[index as int].0 == "model"@ {
            (views[index as int].0, vstd::utf8::encode_utf8(upstream_model@))
        } else {
            views[index as int]
        }));
        let value = if str_eq(field.name.as_str(), "model") {
            vstd::slice::slice_to_vec(upstream_model.as_bytes())
        } else {
            vstd::slice::slice_to_vec(field.value.as_slice())
        };
        let ghost before = field_views(rewritten@);
        let ghost pushed = (field.name@, value@);
        assert(pushed == target[index as int]);
        let name = field.name.clone();
        assert(name@ == field.name@);
        rewritten.push(MultipartTextField { name, value });
        assert(field_views(rewritten@) =~= before.push(pushed));
        assert(target.take(index + 1) =~= target.take(index as int).push(target[index as int]));
        index += 1;
    }
    assert(target.take(length as int) =~= target);
    Ok(rewritten)
}

/// The pieces of a text between commas (`str::split(',')`).
pub open spec fn split_commas(s: Seq<char>) -> Seq<Seq<char>>
    decreases s.len(),
{
    if s.len() == 0 {
        seq![Seq::empty()]
    } else {
        let pieces = split_commas(s.drop_last());
        if s.last() == ',' {
            pieces.push(Seq::empty())
        } else {
            pieces.update(pieces.len() - 1, pieces.last().push(s.last()))
        }
    }
}

proof fn lemma_split_commas_nonempty(s: Seq<char>)
    ensures
        split_commas(s).len() >= 1,
    decreases s.len(),
{
    if s.len() > 0 {
        lemma_split_commas_nonempty(s.drop_last());
    }
}

/// A `Content-Encoding` value the proxy accepts on an edit body: visible
/// ASCII whose comma-separated codings are all `identity` (any ASCII case,
/// trimmed).
pub open spec fn identity_encoding(value: Seq<u8>) -> bool {
    &&& forall|i: int| 0 <= i < value.len() ==> crate::header_map::visible_ascii_byte(#[trigger] value[i])
    &&& forall|i: int|
        0 <= i < split_commas(crate::codex_attempt::ascii_text(value)).len() ==> is_word(
            #[trigger] split_commas(crate::codex_attempt::ascii_text(value))[i],
            "identity"@,
        )
}

fn pieces_are_identity(text: &Vec<char>) -> (all: bool)
    ensures
        all == forall|i: int| 0 <= i < split_commas(text@).len() ==> is_word(#[trigger] split_commas(text@)[i], "identity"@),
{
    let mut current: Vec<char> = Vec::new();
    let mut index: usize = 0;
    proof {
        lemma_split_commas_prefix(text@, 0);
    }
    assert(split_commas(text@.take(0)) =~= seq![Seq::<char>::empty()]) by {
        assert(text@.take(0) =~= Seq::<char>::empty());
    }
    while index < text.len()
        invariant
            index <= text@.len(),
            split_commas(text@.take(index as int)).len() >= 1,
            split_commas(text@.take(index as int)).last() == current@,
            forall|i: int|
                0 <= i < split_commas(text@.take(index as int)).len() - 1 ==> is_word(
                    #[trigger] split_commas(text@.take(index as int))[i],
                    "identity"@,
                ),
            forall|i: int|
                0 <= i < split_commas(text@.take(index as int)).len() - 1 ==> (#[trigger] split_commas(
                    text@.take(index as int),
                )[i]) == split_commas(text@)[i],
            split_commas(text@.take(index as int)).len() <= split_commas(text@).len(),
        decreases text@.len() - index,
    {
        let ghost pieces = split_commas(text@.take(index as int));
        proof {
            assert(text@.take(index + 1).drop_last() =~= text@.take(index as int));
            assert(text@.take(index + 1).last() == text@[index as int]);
            lemma_split_commas_nonempty(text@.take(index as int));
            lemma_split_commas_prefix(text@, index + 1);
        }
        let c = text[index];
        if c == ',' {
            let piece = crate::text::string_from_chars(current.as_slice());
            let ok = word(piece.as_str(), "identity");
            let ghost next = split_commas(text@.take(index + 1));
            assert(next == pieces.push(Seq::<char>::empty()));
            if !ok {
                proof {
                    assert(next[pieces.len() - 1] == pieces.last());
                    assert(split_commas(text@)[pieces.len() - 1] == next[pieces.len() - 1]);
                }
                return false;
            }
            current = Vec::new();
        } else {
            current.push(c);
            let ghost next = split_commas(text@.take(index + 1));
            proof {
                assert(next == pieces.update(pieces.len() - 1, pieces.last().push(c)));
                assert(next.last() =~= current@);
            }
        }
        index += 1;
    }
    assert(text@.take(text@.len() as int) =~= text@);
    let piece = crate::text::string_from_chars(current.as_slice());
    let ok = word(piece.as_str(), "identity");
    proof {
        let pieces = split_commas(text@);
        if ok {
            assert forall|i: int| 0 <= i < pieces.len() implies is_word(#[trigger] pieces[i], "identity"@) by {
                if i == pieces.len() - 1 {
                    assert(pieces[i] == pieces.last());
                }
            }
        } else {
            assert(pieces[pieces.len() - 1] == pieces.last());
        }
    }
    ok
}

/// The pieces of a prefix agree with those of the whole text, but for the
/// prefix's last, unfinished piece.
proof fn lemma_split_commas_prefix(s: Seq<char>, n: int)
    requires
        0 <= n <= s.len(),
    ensures
        split_commas(s.take(n)).len() <= split_commas(s).len(),
        forall|i: int|
            0 <= i < split_commas(s.take(n)).len() - 1 ==> (#[trigger] split_commas(s.take(n))[i]) == split_commas(s)[i],
    decreases s.len() - n,
{
    if n < s.len() {
        lemma_split_commas_prefix(s, n + 1);
        assert(s.take(n + 1).drop_last() =~= s.take(n));
        lemma_split_commas_nonempty(s.take(n));
        let small = split_commas(s.take(n));
        let large = split_commas(s.take(n + 1));
        assert forall|i: int| 0 <= i < small.len() - 1 implies (#[trigger] small[i]) == split_commas(s)[i] by {
            assert(large[i] == small[i]);
        }
    } else {
        assert(s.take(n) =~= s);
    }
}

/// An edit body must carry no content encoding but `identity`.
pub fn reject_encoded_body(content_encodings: &[Vec<u8>]) -> (accepted: Result<(), ImageEditBodyError>)
    ensures
        match accepted {
            Ok(()) => forall|i: int| 0 <= i < content_encodings@.len() ==> identity_encoding(#[trigger] content_encodings@[i]@),
            Err(error) => error == ImageEditBodyError::UnsupportedContentEncoding && exists|i: int|
                0 <= i < content_encodings@.len() && !identity_encoding(#[trigger] content_encodings@[i]@),
        },
{
    let mut index: usize = 0;
    while index < content_encodings.len()
        invariant
            index <= content_encodings@.len(),
            forall|i: int| 0 <= i < index ==> identity_encoding(#[trigger] content_encodings@[i]@),
        decreases content_encodings@.len() - index,
    {
        let value = &content_encodings[index];
        let mut chars: Vec<char> = Vec::new();
        let mut k: usize = 0;
        let mut visible = true;
        while k < value.len()
            invariant
                k <= value@.len(),
                visible == forall|i: int| 0 <= i < k ==> crate::header_map::visible_ascii_byte(#[trigger] value@[i]),
                chars@ == crate::codex_attempt::ascii_text(value@.take(k as int)),
            decreases value@.len() - k,
        {
            let b = value[k];
            if !((b >= 32 && b < 127) || b == 9) {
                visible = false;
            }
            chars.push(b as char);
            assert(chars@ =~= crate::codex_attempt::ascii_text(value@.take(k + 1)));
            k += 1;
        }
        assert(value@.take(value@.len() as int) =~= value@);
        if !visible || !pieces_are_identity(&chars) {
            assert(!identity_encoding(content_encodings@[index as int]@));
            return Err(ImageEditBodyError::UnsupportedContentEncoding);
        }
        index += 1;
    }
    Ok(())
}

/// The longest image media type a Codex edit carries.
pub const MAX_CODEX_IMAGE_MIME_BYTES: usize = 128;

/// The media type of an edit's image: the part's declared type when it is
/// an `image/` type of at most 128 bytes; without one, the type its file
/// extension names (`.png`, `.jpg`/`.jpeg`, `.webp`, `.gif`, any ASCII
/// case).
pub open spec fn image_mime_spec(essence: Option<Seq<char>>, file_name: Option<Seq<char>>) -> Option<Seq<char>> {
    match essence {
        Some(mime) => if mime.len() >= 6 && mime.take(6) == "image/"@ && vstd::utf8::encode_utf8(mime).len()
            <= MAX_CODEX_IMAGE_MIME_BYTES {
            Some(mime)
        } else {
            None
        },
        None => match file_name {
            Some(name) => {
                let lower = ascii_lower_text(name);
                let ends = |suffix: Seq<char>| lower.len() >= suffix.len() && lower.skip(lower.len() - suffix.len())
                    == suffix;
                if ends(".png"@) {
                    Some("image/png"@)
                } else if ends(".jpg"@) || ends(".jpeg"@) {
                    Some("image/jpeg"@)
                } else if ends(".webp"@) {
                    Some("image/webp"@)
                } else if ends(".gif"@) {
                    Some("image/gif"@)
                } else {
                    None
                }
            },
            None => None,
        },
    }
}

fn starts_with_text(text: &str, prefix: &str) -> (starts: bool)
    ensures
        starts == (prefix@.len() <= text@.len() && text@.take(prefix@.len() as int) == prefix@),
{
    let t = chars_of(text);
    let p = chars_of(prefix);
    crate::lines::starts_with(t.as_slice(), p.as_slice())
}

fn ends_with_text(text: &Vec<char>, suffix: &str) -> (ends: bool)
    ensures
        ends == (suffix@.len() <= text@.len() && text@.skip(text@.len() - suffix@.len()) == suffix@),
{
    let p = chars_of(suffix);
    if p.len() > text.len() {
        return false;
    }
    let offset = text.len() - p.len();
    let mut index: usize = 0;
    while index < p.len()
        invariant
            index <= p@.len(),
            p@ == suffix@,
            offset + p@.len() == text@.len(),
            text@.len() <= usize::MAX,
            forall|i: int| 0 <= i < index ==> text@[offset + i] == p@[i],
        decreases p@.len() - index,
    {
        if text[offset + index] != p[index] {
            assert(text@.skip(offset as int)[index as int] != suffix@[index as int]);
            return false;
        }
        index += 1;
    }
    assert(text@.skip(offset as int) =~= suffix@);
    true
}

/// The media type of an edit's image part, from its declared type or its
/// file name.
pub fn image_mime(essence: Option<&str>, file_name: Option<&str>) -> (mime: Result<String, ImageEditBodyError>)
    ensures
        match mime {
            Ok(mime) => image_mime_spec(
                match essence {
                    Some(e) => Some(e@),
                    None => None,
                },
                match file_name {
                    Some(f) => Some(f@),
                    None => None,
                },
            ) == Some(mime@),
            Err(error) => image_mime_spec(
                match essence {
                    Some(e) => Some(e@),
                    None => None,
                },
                match file_name {
                    Some(f) => Some(f@),
                    None => None,
                },
            ) is None && error == ImageEditBodyError::CodexImageContentType,
        },
{
    if let Some(mime) = essence {
        proof {
            reveal_strlit("image/");
        }
        if starts_with_text(mime, "image/") && mime.as_bytes().len() <= MAX_CODEX_IMAGE_MIME_BYTES {
            return Ok(mime.to_owned());
        }
        return Err(ImageEditBodyError::CodexImageContentType);
    }
    let name = match file_name {
        Some(name) => name,
        None => {
            return Err(ImageEditBodyError::CodexImageContentType);
        },
    };
    let lower = chars_of(to_ascii_lowercase(name).as_str());
    let mime = if ends_with_text(&lower, ".png") {
        "image/png"
    } else if ends_with_text(&lower, ".jpg") || ends_with_text(&lower, ".jpeg") {
        "image/jpeg"
    } else if ends_with_text(&lower, ".webp") {
        "image/webp"
    } else if ends_with_text(&lower, ".gif") {
        "image/gif"
    } else {
        return Err(ImageEditBodyError::CodexImageContentType);
    };
    Ok(mime.to_owned())
}

/// The value an edit form's text part takes in the request the billing
/// rules read.
#[derive(Clone, Debug, PartialEq, Eq)]
pub enum EditFieldValue {
    Count(u64),
    Flag(bool),
    Text(String),
}

/// An `EditFieldValue` as plain values.
pub enum EditValueView {
    Count(u64),
    Flag(bool),
    Text(Seq<char>),
}

pub open spec fn edit_value_view(value: EditFieldValue) -> EditValueView {
    match value {
        EditFieldValue::Count(count) => EditValueView::Count(count),
        EditFieldValue::Flag(flag) => EditValueView::Flag(flag),
        EditFieldValue::Text(text) => EditValueView::Text(text@),
    }
}

/// A text part's value: `n` as a number when it parses as `u64` after
/// trimming, `stream` as a flag when it is `true` or `false` in any ASCII
/// case, trimmed; anything else as text.
pub open spec fn edit_value_spec(name: Seq<char>, text: Seq<char>) -> EditValueView {
    if name == "n"@ && parse_u64_spec(trim_spec(text)) is Some {
        EditValueView::Count(parse_u64_spec(trim_spec(text))->0)
    } else if name == "stream"@ && is_word(text, "true"@) {
        EditValueView::Flag(true)
    } else if name == "stream"@ && is_word(text, "false"@) {
        EditValueView::Flag(false)
    } else {
        EditValueView::Text(text)
    }
}

/// The request an edit form stands for: each UTF-8 text part under its
/// name, a later part replacing an earlier one of the same name; parts
/// that are not UTF-8 are left out.
pub open spec fn edit_request_spec(fields: Seq<(Seq<char>, Seq<u8>)>) -> Map<Seq<char>, EditValueView>
    decreases fields.len(),
{
    if fields.len() == 0 {
        Map::empty()
    } else {
        let earlier = edit_request_spec(fields.drop_last());
        let (name, value) = fields.last();
        match field_text(value) {
            Some(text) => earlier.insert(name, edit_value_spec(name, text)),
            None => earlier,
        }
    }
}

fn edit_value(name: &str, text: String) -> (value: EditFieldValue)
    ensures
        edit_value_view(value) == edit_value_spec(name@, text@),
{
    if str_eq(name, "n") {
        let digits = chars_of(trim(text.as_str()));
        if let Some(count) = parse_u64(digits.as_slice()) {
            return EditFieldValue::Count(count);
        }
    }
    if str_eq(name, "stream") {
        if word(text.as_str(), "true") {
            return EditFieldValue::Flag(true);
        }
        if word(text.as_str(), "false") {
            return EditFieldValue::Flag(false);
        }
    }
    EditFieldValue::Text(text)
}

/// The members of the request an edit form stands for, each name once.
pub fn edit_request_members(fields: &[MultipartTextField]) -> (members: Vec<(String, EditFieldValue)>)
    ensures
        forall|i: int, j: int|
            0 <= i < j < members@.len() ==> (#[trigger] members@[i]).0@ != (#[trigger] members@[j]).0@,
        forall|key: Seq<char>|
            edit_request_spec(field_views(fields@)).dom().contains(key) <==> exists|i: int|
                0 <= i < members@.len() && (#[trigger] members@[i]).0@ == key,
        forall|i: int|
            0 <= i < members@.len() ==> edit_request_spec(field_views(fields@))[(#[trigger] members@[i]).0@]
                == edit_value_view(members@[i].1),
{
    let ghost views = field_views(fields@);
    let mut members: Vec<(String, EditFieldValue)> = Vec::new();
    let mut index: usize = 0;
    while index < fields.len()
        invariant
            index <= fields@.len(),
            views == field_views(fields@),
            forall|i: int, j: int|
                0 <= i < j < members@.len() ==> (#[trigger] members@[i]).0@ != (#[trigger] members@[j]).0@,
            forall|key: Seq<char>|
                edit_request_spec(views.take(index as int)).dom().contains(key) <==> exists|i: int|
                    0 <= i < members@.len() && (#[trigger] members@[i]).0@ == key,
            forall|i: int|
                0 <= i < members@.len() ==> edit_request_spec(views.take(index as int))[(#[trigger] members@[i]).0@]
                    == edit_value_view(members@[i].1),
        decreases fields@.len() - index,
    {
        let ghost before = edit_request_spec(views.take(index as int));
        assert(views.take(index + 1).drop_last() =~= views.take(index as int));
        assert(views.take(index + 1).last() == views[index as int]);
        assert(views[index as int] == (fields@[index as int].name@, fields@[index as int].value@));
        let field = &fields[index];
        if let Some(text) = text_of_bytes(&field.value) {
            let ghost name = field.name@;
            let value = edit_value(field.name.as_str(), text);
            let ghost after = before.insert(name, edit_value_view(value));
            assert(edit_request_spec(views.take(index + 1)) == after);
            let mut position: usize = 0;
            while position < members.len()
                invariant_except_break
                    position <= members@.len(),
                    name == field.name@,
                    forall|i: int| 0 <= i < position ==> (#[trigger] members@[i]).0@ != name,
                ensures
                    position <= members@.len(),
                    position < members@.len() ==> members@[position as int].0@ == name,
                    forall|i: int| 0 <= i < position ==> (#[trigger] members@[i]).0@ != name,
                decreases members@.len() - position,
            {
                if str_eq(members[position].0.as_str(), field.name.as_str()) {
                    break;
                }
                position += 1;
            }
            let ghost old_members = members@;
            if position < members.len() {
                members.set(position, (field.name.clone(), value));
                assert forall|key: Seq<char>| after.dom().contains(key) implies exists|i: int|
                    0 <= i < members@.len() && (#[trigger] members@[i]).0@ == key by {
                    if key != name {
                        let i = choose|i: int| 0 <= i < old_members.len() && (#[trigger] old_members[i]).0@ == key;
                        assert(members@[i] == old_members[i]);
                    } else {
                        assert(members@[position as int].0@ == key);
                    }
                }
                assert forall|i: int| 0 <= i < members@.len() implies after[(#[trigger] members@[i]).0@]
                    == edit_value_view(members@[i].1) by {
                    if i != position {
                        assert(members@[i] == old_members[i]);
                    }
                }
            } else {
                members.push((field.name.clone(), value));
                assert forall|key: Seq<char>| after.dom().contains(key) implies exists|i: int|
                    0 <= i < members@.len() && (#[trigger] members@[i]).0@ == key by {
                    if key != name {
                        let i = choose|i: int| 0 <= i < old_members.len() && (#[trigger] old_members[i]).0@ == key;
                        assert(members@[i] == old_members[i]);
                    } else {
                        assert(members@[position as int].0@ == key);
                    }
                }
                assert forall|i: int| 0 <= i < members@.len() implies after[(#[trigger] members@[i]).0@]
                    == edit_value_view(members@[i].1) by {
                    if i < position {
                        assert(members@[i] == old_members[i]);
                    }
                }
            }
        } else {
            assert(edit_request_spec(views.take(index + 1)) == before);
        }
        index += 1;
    }
    assert(views.take(fields@.len() as int) =~= views);
    members
}

/// Rewriting the model touches nothing but the values of the `model`
/// parts: every part keeps its name and place, and every other part its
/// value.
pub proof fn lemma_rewrite_touches_only_model_values(fields: Seq<(Seq<char>, Seq<u8>)>, model: Seq<char>)
    requires
        rewritten_fields_spec(fields, model) is Some,
    ensures
        rewritten_fields_spec(fields, model)->0.len() == fields.len(),
        forall|i: int|
            0 <= i < fields.len() ==> (#[trigger] rewritten_fields_spec(fields, model)->0[i]).0 == fields[i].0,
        forall|i: int|
            0 <= i < fields.len() && fields[i].0 != "model"@ ==> #[trigger] rewritten_fields_spec(fields, model)->0[i]
                == fields[i],
        forall|i: int|
            0 <= i < fields.len() && fields[i].0 == "model"@ ==> (#[trigger] rewritten_fields_spec(
                fields,
                model,
            )->0[i]).1 == vstd::utf8::encode_utf8(model),
{
}

/// The value a name takes in the request is that of the last UTF-8 part
/// of that name.
pub proof fn lemma_last_part_of_a_name_wins(fields: Seq<(Seq<char>, Seq<u8>)>, i: int)
    requires
        0 <= i < fields.len(),
        field_text(fields[i].1) is Some,
        forall|j: int| i < j < fields.len() && (#[trigger] fields[j]).0 == fields[i].0 ==> field_text(fields[j].1) is None,
    ensures
        edit_request_spec(fields).dom().contains(fields[i].0),
        edit_request_spec(fields)[fields[i].0] == edit_value_spec(fields[i].0, field_text(fields[i].1)->0),
    decreases fields.len(),
{
    if i < fields.len() - 1 {
        let shorter = fields.drop_last();
        assert forall|j: int| i < j < shorter.len() && (#[trigger] shorter[j]).0 == shorter[i].0 implies field_text(
            shorter[j].1,
        ) is None by {
            assert(shorter[j] == fields[j]);
        }
        lemma_last_part_of_a_name_wins(shorter, i);
        let last = fields.last();
        assert(last == fields[fields.len() - 1]);
    }
}

} // verus!
