//! The Codex token and models endpoints: the requests the token endpoint
//! is sent, the tokens of an authorization-code exchange or a refresh, and
//! the models an account can use through the API.

use vstd::prelude::*;

use crate::codex::{CodexConnectorError, CODEX_OAUTH_CLIENT_ID, CODEX_OAUTH_REDIRECT_URI};
use crate::json::{json_string_bytes, json_string_text};
use crate::sse::extend_bytes;
use vstd::string::{StringExecFns, StringSliceAdditionalSpecFns};
use vstd::utf8::encode_utf8;
use crate::json::{
    get_spec, json_get, opt_ref, optional_bool_field, optional_text_field, parse_json, parsed_json,
    read_optional_bool, read_optional_text, Json,
};
use crate::jwt::{token_endpoint_error, token_endpoint_error_spec};
use crate::unicode::{chars_of, trim, trim_spec};

verus! {

/// The tokens of an authorization-code exchange.
pub struct ExchangedTokens {
    pub id_token: String,
    pub access_token: String,
    pub refresh_token: String,
}

/// A required, non-empty string field of a token answer.
pub open spec fn required_token(value: Json, key: Seq<char>) -> Option<Seq<char>> {
    match get_spec(value, key) {
        Some(Json::Str(text)) => if text@.len() > 0 {
            Some(text@)
        } else {
            None
        },
        _ => None,
    }
}

/// What an exchange yields: a refused exchange is classified by
/// `token_endpoint_error`; a successful answer must be an object carrying
/// the three tokens as strings, none empty.
pub open spec fn exchange_spec(status: u16, body: Seq<u8>) -> Result<(Seq<char>, Seq<char>, Seq<char>), CodexConnectorError> {
    if !(200 <= status <= 299) {
        Err(token_endpoint_error_spec(status, body, false))
    } else {
        match parsed_json(body) {
            Some(value) => if !(value is Object) || !(get_spec(value, "id_token"@) matches Some(Json::Str(_)))
                || !(get_spec(value, "access_token"@) matches Some(Json::Str(_))) || !(get_spec(
                value,
                "refresh_token"@,
            ) matches Some(Json::Str(_))) {
                Err(CodexConnectorError::InvalidTokenResponse)
            } else {
                match (
                    required_token(value, "id_token"@),
                    required_token(value, "access_token"@),
                    required_token(value, "refresh_token"@),
                ) {
                    (Some(id), Some(access), Some(refresh)) => Ok((id, access, refresh)),
                    _ => Err(CodexConnectorError::InvalidTokenResponse),
                }
            },
            None => Err(CodexConnectorError::InvalidTokenResponse),
        }
    }
}

fn string_member(value: &Json, key: &str) -> (text: Option<String>)
    ensures
        match text {
            Some(text) => get_spec(*value, key@) matches Some(Json::Str(t)) && t@ == text@,
            None => !(get_spec(*value, key@) matches Some(Json::Str(_))),
        },
{
    match json_get(value, key) {
        Some(Json::Str(text)) => Some(text.clone()),
        _ => None,
    }
}

/// The tokens of the answer to an authorization-code exchange.
pub fn exchange_response(status: u16, body: &[u8]) -> (tokens: Result<ExchangedTokens, CodexConnectorError>)
    ensures
        match tokens {
            Ok(tokens) => exchange_spec(status, body@) == Ok::<(Seq<char>, Seq<char>, Seq<char>), CodexConnectorError>(
                (tokens.id_token@, tokens.access_token@, tokens.refresh_token@),
            ),
            Err(error) => exchange_spec(status, body@) == Err::<(Seq<char>, Seq<char>, Seq<char>), CodexConnectorError>(
                error,
            ),
        },
{
    if !(200 <= status && status <= 299) {
        return Err(token_endpoint_error(status, body, false));
    }
    let value = match parse_json(body) {
        Some(value) => value,
        None => {
            return Err(CodexConnectorError::InvalidTokenResponse);
        },
    };
    if !matches!(value, Json::Object(_)) {
        return Err(CodexConnectorError::InvalidTokenResponse);
    }
    let (id_token, access_token, refresh_token) = match (
        string_member(&value, "id_token"),
        string_member(&value, "access_token"),
        string_member(&value, "refresh_token"),
    ) {
        (Some(id), Some(access), Some(refresh)) => (id, access, refresh),
        _ => {
            return Err(CodexConnectorError::InvalidTokenResponse);
        },
    };
    if id_token.as_str().is_empty() || access_token.as_str().is_empty() || refresh_token.as_str().is_empty() {
        return Err(CodexConnectorError::InvalidTokenResponse);
    }
    Ok(ExchangedTokens { id_token, access_token, refresh_token })
}

/// An optional token of a refresh answer; an empty one counts as absent.
pub open spec fn refreshed_token(value: Json, key: Seq<char>) -> Option<Seq<char>> {
    match optional_text_field(get_spec(value, key)) {
        Ok(Some(text)) => if text.len() > 0 {
            Some(text)
        } else {
            None
        },
        _ => None,
    }
}

/// What a refresh yields: a refused refresh is classified by
/// `token_endpoint_error`; a successful answer must be an object whose
/// tokens are strings or `null`, at least one of them present; empty
/// tokens count as absent.
pub open spec fn refresh_spec(status: u16, body: Seq<u8>) -> Result<
    (Option<Seq<char>>, Option<Seq<char>>, Option<Seq<char>>),
    CodexConnectorError,
> {
    if !(200 <= status <= 299) {
        Err(token_endpoint_error_spec(status, body, true))
    } else {
        match parsed_json(body) {
            Some(value) => if !(value is Object) || optional_text_field(get_spec(value, "id_token"@)) is Err
                || optional_text_field(get_spec(value, "access_token"@)) is Err || optional_text_field(
                get_spec(value, "refresh_token"@),
            ) is Err {
                Err(CodexConnectorError::InvalidTokenResponse)
            } else if optional_text_field(get_spec(value, "id_token"@)) == Ok::<Option<Seq<char>>, ()>(None)
                && optional_text_field(get_spec(value, "access_token"@)) == Ok::<Option<Seq<char>>, ()>(None)
                && optional_text_field(get_spec(value, "refresh_token"@)) == Ok::<Option<Seq<char>>, ()>(None) {
                Err(CodexConnectorError::InvalidTokenResponse)
            } else {
                Ok(
                    (
                        refreshed_token(value, "id_token"@),
                        refreshed_token(value, "access_token"@),
                        refreshed_token(value, "refresh_token"@),
                    ),
                )
            },
            None => Err(CodexConnectorError::InvalidTokenResponse),
        }
    }
}

pub open spec fn text_of(value: Option<String>) -> Option<Seq<char>> {
    match value {
        Some(value) => Some(value@),
        None => None,
    }
}

fn non_empty(value: Option<String>) -> (kept: Option<String>)
    ensures
        text_of(kept) == match text_of(value) {
            Some(text) => if text.len() > 0 {
                Some(text)
            } else {
                None
            },
            None => None,
        },
{
    match value {
        Some(text) => if text.as_str().is_empty() {
            None
        } else {
            Some(text)
        },
        None => None,
    }
}

/// The tokens of the answer to a token refresh.
pub fn refresh_response(status: u16, body: &[u8]) -> (tokens: Result<
    crate::codex_maintenance::RefreshedTokens,
    CodexConnectorError,
>)
    ensures
        match tokens {
            Ok(tokens) => refresh_spec(status, body@) == Ok::<
                (Option<Seq<char>>, Option<Seq<char>>, Option<Seq<char>>),
                CodexConnectorError,
            >((text_of(tokens.id_token), text_of(tokens.access_token), text_of(tokens.refresh_token))),
            Err(error) => refresh_spec(status, body@) == Err::<
                (Option<Seq<char>>, Option<Seq<char>>, Option<Seq<char>>),
                CodexConnectorError,
            >(error),
        },
{
    if !(200 <= status && status <= 299) {
        return Err(token_endpoint_error(status, body, true));
    }
    let value = match parse_json(body) {
        Some(value) => value,
        None => {
            return Err(CodexConnectorError::InvalidTokenResponse);
        },
    };
    let id_token = read_optional_text(json_get(&value, "id_token"));
    let access_token = read_optional_text(json_get(&value, "access_token"));
    let refresh_token = read_optional_text(json_get(&value, "refresh_token"));
    let (id_token, access_token, refresh_token) = match (id_token, access_token, refresh_token) {
        (Ok(id), Ok(access), Ok(refresh)) => if matches!(value, Json::Object(_)) {
            (id, access, refresh)
        } else {
            return Err(CodexConnectorError::InvalidTokenResponse);
        },
        _ => {
            return Err(CodexConnectorError::InvalidTokenResponse);
        },
    };
    if id_token.is_none() && access_token.is_none() && refresh_token.is_none() {
        return Err(CodexConnectorError::InvalidTokenResponse);
    }
    Ok(
        crate::codex_maintenance::RefreshedTokens {
            id_token: non_empty(id_token),
            access_token: non_empty(access_token),
            refresh_token: non_empty(refresh_token),
        },
    )
}

/// `a` before `b` in the order of `str`: lexicographic by code point,
/// which is the order of their UTF-8 bytes.
pub open spec fn text_less(a: Seq<char>, b: Seq<char>) -> bool
    decreases a.len(),
{
    if b.len() == 0 {
        false
    } else if a.len() == 0 {
        true
    } else if a[0] != b[0] {
        a[0] < b[0]
    } else {
        text_less(a.drop_first(), b.drop_first())
    }
}

proof fn lemma_text_less_irreflexive(a: Seq<char>)
    ensures
        !text_less(a, a),
    decreases a.len(),
{
    if a.len() > 0 {
        lemma_text_less_irreflexive(a.drop_first());
    }
}

proof fn lemma_text_less_transitive(a: Seq<char>, b: Seq<char>, c: Seq<char>)
    requires
        text_less(a, b),
        text_less(b, c),
    ensures
        text_less(a, c),
    decreases a.len(),
{
    if a.len() > 0 && b.len() > 0 && c.len() > 0 && a[0] == b[0] && b[0] == c[0] {
        lemma_text_less_transitive(a.drop_first(), b.drop_first(), c.drop_first());
    }
}

proof fn lemma_text_less_total(a: Seq<char>, b: Seq<char>)
    ensures
        a == b || text_less(a, b) || text_less(b, a),
    decreases a.len(),
{
    if a.len() > 0 && b.len() > 0 && a[0] == b[0] {
        lemma_text_less_total(a.drop_first(), b.drop_first());
        if a.drop_first() == b.drop_first() {
            assert(a =~= seq![a[0]] + a.drop_first());
            assert(b =~= seq![b[0]] + b.drop_first());
        }
    } else if a.len() == 0 && b.len() == 0 {
        assert(a =~= b);
    } else if a.len() > 0 && b.len() > 0 {
        assert(a[0] != b[0]);
    }
}

fn less_than(a: &str, b: &str) -> (less: bool)
    ensures
        less == text_less(a@, b@),
{
    let x = chars_of(a);
    let y = chars_of(b);
    let mut i: usize = 0;
    assert(x@.skip(0) =~= x@);
    assert(y@.skip(0) =~= y@);
    while i < x.len() && i < y.len()
        invariant
            i <= x@.len(),
            i <= y@.len(),
            x@ == a@,
            y@ == b@,
            text_less(a@, b@) == text_less(x@.skip(i as int), y@.skip(i as int)),
        decreases x@.len() - i,
    {
        assert(x@.skip(i as int)[0] == x@[i as int]);
        assert(y@.skip(i as int)[0] == y@[i as int]);
        if x[i] != y[i] {
            return x[i] < y[i];
        }
        assert(x@.skip(i as int).drop_first() =~= x@.skip(i + 1));
        assert(y@.skip(i as int).drop_first() =~= y@.skip(i + 1));
        i += 1;
    }
    i == x.len() && i < y.len()
}

/// Strictly increasing in the order of `str`.
pub open spec fn sorted_unique(items: Seq<Seq<char>>) -> bool {
    forall|i: int, j: int| 0 <= i < j < items.len() ==> text_less(#[trigger] items[i], #[trigger] items[j])
}

pub open spec fn string_views(items: Seq<String>) -> Seq<Seq<char>> {
    items.map_values(|item: String| item@)
}

/// Inserts a name into a strictly increasing list, unless it is there.
pub(crate) fn insert_sorted(items: &mut Vec<String>, name: String)
    requires
        sorted_unique(string_views(old(items)@)),
    ensures
        sorted_unique(string_views(final(items)@)),
        forall|x: Seq<char>| string_views(final(items)@).contains(x) <==> (string_views(old(items)@).contains(x)
            || x == name@),
{
    let ghost before = string_views(items@);
    let mut position: usize = 0;
    while position < items.len() && less_than(items[position].as_str(), name.as_str())
        invariant
            position <= items@.len(),
            before == string_views(items@),
            sorted_unique(before),
            forall|i: int| 0 <= i < position ==> text_less(#[trigger] before[i], name@),
        decreases items@.len() - position,
    {
        assert(before[position as int] == items@[position as int]@);
        position += 1;
    }
    if position < items.len() {
        assert(before[position as int] == items@[position as int]@);
        assert(!text_less(before[position as int], name@));
        if less_than(name.as_str(), items[position].as_str()) {
            // Not present: everything after `position` is larger still.
        } else {
            proof {
                lemma_text_less_total(before[position as int], name@);
            }
            assert(before[position as int] == name@);
            return;
        }
    }
    items.insert(position, name);
    proof {
        let after = string_views(items@);
        assert(after =~= before.insert(position as int, name@));
        assert forall|i: int, j: int| 0 <= i < j < after.len() implies text_less(
            #[trigger] after[i],
            #[trigger] after[j],
        ) by {
            if j < position {
                assert(after[i] == before[i] && after[j] == before[j]);
            } else if j == position {
                assert(after[i] == before[i]);
            } else if i < position {
                assert(after[i] == before[i] && after[j] == before[j - 1]);
                assert(text_less(before[i], name@));
                assert(text_less(name@, before[position as int]));
                if j - 1 > position {
                    lemma_text_less_transitive(name@, before[position as int], before[j - 1]);
                }
                lemma_text_less_transitive(before[i], name@, before[j - 1]);
            } else if i == position {
                assert(after[j] == before[j - 1]);
                assert(text_less(name@, before[position as int]));
                if j - 1 > position {
                    lemma_text_less_transitive(name@, before[position as int], before[j - 1]);
                }
            } else {
                assert(after[i] == before[i - 1] && after[j] == before[j - 1]);
            }
        }
        assert forall|x: Seq<char>| after.contains(x) <==> (before.contains(x) || x == name@) by {
            if after.contains(x) {
                let k = choose|k: int| 0 <= k < after.len() && after[k] == x;
                if k < position {
                    assert(before[k] == x);
                } else if k > position {
                    assert(before[k - 1] == x);
                }
            }
            if before.contains(x) {
                let k = choose|k: int| 0 <= k < before.len() && before[k] == x;
                if k < position {
                    assert(after[k] == x);
                } else {
                    assert(after[k + 1] == x);
                }
            }
            if x == name@ {
                assert(after[position as int] == x);
            }
        }
    }
}

/// A usable model slug: trimmed, non-blank, at most 300 bytes.
pub open spec fn usable_slug(slug: Seq<char>) -> bool {
    trim_spec(slug).len() > 0 && vstd::utf8::encode_utf8(trim_spec(slug)).len() <= 300
}

/// Whether a models answer has the expected shape: an object whose
/// `models` is an array of objects, each with a string `slug` and an
/// optional boolean `supported_in_api`.
pub open spec fn models_well_typed(value: Json) -> bool {
    &&& value is Object
    &&& get_spec(value, "models"@) matches Some(Json::Array(models)) && forall|i: int|
        0 <= i < models@.len() ==> {
            &&& (#[trigger] models@[i]) is Object
            &&& get_spec(models@[i], "slug"@) matches Some(Json::Str(_))
            &&& optional_bool_field(get_spec(models@[i], "supported_in_api"@)) is Ok
        }
}

/// Whether a model entry offers a usable slug: it is not marked as
/// unsupported in the API, and its trimmed slug is usable.
pub open spec fn offered_slug(model: Json) -> Option<Seq<char>> {
    match (get_spec(model, "slug"@), optional_bool_field(get_spec(model, "supported_in_api"@))) {
        (Some(Json::Str(slug)), Ok(supported)) => if supported != Some(false) && usable_slug(slug@) {
            Some(trim_spec(slug@))
        } else {
            None
        },
        _ => None,
    }
}

/// The models of an answer: the offered slugs, sorted and each once.
pub open spec fn models_match(models: Seq<Seq<char>>, entries: Seq<Json>) -> bool {
    &&& sorted_unique(models)
    &&& forall|x: Seq<char>|
        #![trigger models.contains(x)]
        models.contains(x) <==> exists|i: int| 0 <= i < entries.len() && offered_slug(#[trigger] entries[i]) == Some(x)
}

/// The models an account can use through the API, from the answer of the
/// models endpoint: a non-success status is reported as such; a malformed
/// answer is invalid; an answer without a usable model has no models.
pub fn models_from_response(status: u16, body: &[u8]) -> (models: Result<Vec<String>, CodexConnectorError>)
    ensures
        !(200 <= status <= 299) ==> models == Err::<Vec<String>, CodexConnectorError>(
            CodexConnectorError::CodexBackendStatus(status),
        ),
        (200 <= status <= 299) ==> match parsed_json(body@) {
            Some(value) => if !models_well_typed(value) {
                models == Err::<Vec<String>, CodexConnectorError>(CodexConnectorError::InvalidModelsResponse)
            } else {
                let entries = match get_spec(value, "models"@) {
                    Some(Json::Array(entries)) => entries@,
                    _ => Seq::empty(),
                };
                match models {
                    Ok(models) => models@.len() > 0 && models_match(string_views(models@), entries),
                    Err(error) => error == CodexConnectorError::NoModels && forall|i: int|
                        0 <= i < entries.len() ==> offered_slug(#[trigger] entries[i]) is None,
                }
            },
            None => models == Err::<Vec<String>, CodexConnectorError>(CodexConnectorError::InvalidModelsResponse),
        },
{
    if !(200 <= status && status <= 299) {
        return Err(CodexConnectorError::CodexBackendStatus(status));
    }
    let value = match parse_json(body) {
        Some(value) => value,
        None => {
            return Err(CodexConnectorError::InvalidModelsResponse);
        },
    };
    if !matches!(value, Json::Object(_)) {
        return Err(CodexConnectorError::InvalidModelsResponse);
    }
    let entries = match json_get(&value, "models") {
        Some(Json::Array(entries)) => entries,
        _ => {
            return Err(CodexConnectorError::InvalidModelsResponse);
        },
    };
    let mut index: usize = 0;
    while index < entries.len()
        invariant
            index <= entries@.len(),
            200 <= status <= 299,
            parsed_json(body@) == Some(value),
            value is Object,
            get_spec(value, "models"@) == Some(Json::Array(*entries)),
            forall|i: int|
                0 <= i < index ==> {
                    &&& (#[trigger] entries@[i]) is Object
                    &&& get_spec(entries@[i], "slug"@) matches Some(Json::Str(_))
                    &&& optional_bool_field(get_spec(entries@[i], "supported_in_api"@)) is Ok
                },
        decreases entries@.len() - index,
    {
        let entry = &entries[index];
        let slug_ok = matches!(json_get(entry, "slug"), Some(Json::Str(_)));
        let supported_ok = read_optional_bool(json_get(entry, "supported_in_api")).is_ok();
        if !matches!(entry, Json::Object(_)) || !slug_ok || !supported_ok {
            return Err(CodexConnectorError::InvalidModelsResponse);
        }
        index += 1;
    }
    let mut models: Vec<String> = Vec::new();
    let mut index: usize = 0;
    while index < entries.len()
        invariant
            index <= entries@.len(),
            sorted_unique(string_views(models@)),
            forall|x: Seq<char>|
                #![trigger string_views(models@).contains(x)]
                string_views(models@).contains(x) <==> exists|i: int|
                    0 <= i < index && offered_slug(#[trigger] entries@[i]) == Some(x),
        decreases entries@.len() - index,
    {
        let entry = &entries[index];
        let supported = read_optional_bool(json_get(entry, "supported_in_api"));
        let slug = json_get(entry, "slug");
        let ghost before = string_views(models@);
        let offered: Option<String> = match (slug, supported) {
            (Some(Json::Str(slug)), Ok(supported)) => {
                let trimmed = trim(slug.as_str());
                let refused = match supported {
                    Some(flag) => !flag,
                    None => false,
                };
                if !refused && !trimmed.is_empty() && trimmed.as_bytes().len() <= 300 {
                    Some(trimmed.to_owned())
                } else {
                    None
                }
            },
            _ => None,
        };
        assert(match offered {
            Some(name) => offered_slug(entries@[index as int]) == Some(name@),
            None => offered_slug(entries@[index as int]) is None,
        });
        match offered {
            Some(name) => {
                insert_sorted(&mut models, name);
            },
            None => {},
        }
        assert forall|x: Seq<char>|
            #![trigger string_views(models@).contains(x)]
            string_views(models@).contains(x) <==> exists|i: int|
                0 <= i < index + 1 && offered_slug(#[trigger] entries@[i]) == Some(x) by {
            if exists|i: int| 0 <= i < index + 1 && offered_slug(#[trigger] entries@[i]) == Some(x) {
                let i = choose|i: int| 0 <= i < index + 1 && offered_slug(#[trigger] entries@[i]) == Some(x);
                if i < index {
                    assert(before.contains(x));
                }
            }
        }
        index += 1;
    }
    if models.len() == 0 {
        assert forall|i: int| 0 <= i < entries@.len() implies offered_slug(#[trigger] entries@[i]) is None by {
            if let Some(x) = offered_slug(entries@[i]) {
                assert(string_views(models@).contains(x));
            }
        }
        return Err(CodexConnectorError::NoModels);
    }
    Ok(models)
}

/// A byte that URL encoding leaves as it is: an ASCII letter or digit, or
/// one of `-`, `_`, `.`, `~`.
pub open spec fn unreserved_byte(b: u8) -> bool {
    (48 <= b <= 57) || (65 <= b <= 90) || (97 <= b <= 122) || b == 45 || b == 95 || b == 46 || b == 126
}

/// An uppercase hexadecimal digit.
pub open spec fn upper_hex_digit(n: u8) -> char {
    if n < 10 {
        ((48 + n) as u8) as char
    } else {
        ((55 + n) as u8) as char
    }
}

/// The URL encoding of bytes (what `urlencoding::encode` writes for a
/// text's UTF-8 bytes): unreserved bytes as they are, every other byte as
/// `%` and two uppercase hexadecimal digits.
pub open spec fn percent_encoded(bytes: Seq<u8>) -> Seq<char>
    decreases bytes.len(),
{
    if bytes.len() == 0 {
        Seq::empty()
    } else {
        let b = bytes.last();
        percent_encoded(bytes.drop_last()) + if unreserved_byte(b) {
            seq![b as char]
        } else {
            seq!['%', upper_hex_digit(b / 16), upper_hex_digit(b % 16)]
        }
    }
}

fn upper_hex_char(n: u8) -> (c: char)
    requires
        n < 16,
    ensures
        c == upper_hex_digit(n),
{
    if n < 10 {
        (48 + n) as char
    } else {
        (55 + n) as char
    }
}

/// URL-encodes a text.
pub fn percent_encode(text: &str) -> (encoded: String)
    ensures
        encoded@ == percent_encoded(text.spec_bytes()),
{
    let bytes = text.as_bytes();
    let mut chars: Vec<char> = Vec::new();
    let mut index: usize = 0;
    assert(bytes@.take(0) =~= Seq::<u8>::empty());
    while index < bytes.len()
        invariant
            index <= bytes@.len(),
            chars@ == percent_encoded(bytes@.take(index as int)),
        decreases bytes@.len() - index,
    {
        let b = bytes[index];
        assert(bytes@.take(index + 1).drop_last() =~= bytes@.take(index as int));
        if (b >= 48 && b <= 57) || (b >= 65 && b <= 90) || (b >= 97 && b <= 122) || b == 45 || b == 95 || b == 46
            || b == 126 {
            chars.push(b as char);
        } else {
            chars.push('%');
            chars.push(upper_hex_char(b / 16));
            chars.push(upper_hex_char(b % 16));
        }
        assert(chars@ =~= percent_encoded(bytes@.take(index + 1)));
        index += 1;
    }
    assert(bytes@.take(bytes@.len() as int) =~= bytes@);
    crate::text::string_from_chars(chars.as_slice())
}

/// The form an authorization code is exchanged with: the code grant, the
/// code, the loopback redirect, the public client and the PKCE verifier,
/// each URL-encoded.
pub open spec fn authorization_code_body_spec(code: Seq<char>, verifier: Seq<char>) -> Seq<char> {
    "grant_type=authorization_code&code="@ + percent_encoded(encode_utf8(code)) + "&redirect_uri="@
        + percent_encoded(encode_utf8(CODEX_OAUTH_REDIRECT_URI@)) + "&client_id="@ + percent_encoded(
        encode_utf8(CODEX_OAUTH_CLIENT_ID@),
    ) + "&code_verifier="@ + percent_encoded(encode_utf8(verifier))
}

/// The form body of an authorization-code exchange.
pub fn authorization_code_body(code: &str, verifier: &str) -> (body: String)
    ensures
        body@ == authorization_code_body_spec(code@, verifier@),
{
    let mut body = String::from_str("grant_type=authorization_code&code=");
    body.append(percent_encode(code).as_str());
    body.append("&redirect_uri=");
    body.append(percent_encode(CODEX_OAUTH_REDIRECT_URI).as_str());
    body.append("&client_id=");
    body.append(percent_encode(CODEX_OAUTH_CLIENT_ID).as_str());
    body.append("&code_verifier=");
    body.append(percent_encode(verifier).as_str());
    body
}

/// The JSON body of a refresh: the public client, the refresh grant and
/// the refresh token, in this order.
pub open spec fn refresh_request_body_spec(refresh_token: Seq<char>) -> Seq<u8> {
    encode_utf8("{\"client_id\":"@) + json_string_text(CODEX_OAUTH_CLIENT_ID@) + encode_utf8(
        ",\"grant_type\":"@,
    ) + json_string_text("refresh_token"@) + encode_utf8(",\"refresh_token\":"@) + json_string_text(
        refresh_token,
    ) + encode_utf8("}"@)
}

/// The JSON body of a token refresh.
pub fn refresh_request_body(refresh_token: &str) -> (body: Vec<u8>)
    ensures
        body@ == refresh_request_body_spec(refresh_token@),
{
    let mut body: Vec<u8> = Vec::new();
    extend_bytes(&mut body, "{\"client_id\":".as_bytes());
    extend_bytes(&mut body, json_string_bytes(CODEX_OAUTH_CLIENT_ID).as_slice());
    extend_bytes(&mut body, ",\"grant_type\":".as_bytes());
    extend_bytes(&mut body, json_string_bytes("refresh_token").as_slice());
    extend_bytes(&mut body, ",\"refresh_token\":".as_bytes());
    extend_bytes(&mut body, json_string_bytes(refresh_token).as_slice());
    extend_bytes(&mut body, "}".as_bytes());
    assert(body@ =~= refresh_request_body_spec(refresh_token@));
    body
}

/// URL encoding leaves a text of unreserved bytes as it is.
pub proof fn lemma_unreserved_bytes_are_kept(bytes: Seq<u8>)
    requires
        forall|i: int| 0 <= i < bytes.len() ==> unreserved_byte(#[trigger] bytes[i]),
    ensures
        percent_encoded(bytes) == bytes.map_values(|b: u8| b as char),
    decreases bytes.len(),
{
    if bytes.len() > 0 {
        let shorter = bytes.drop_last();
        assert forall|i: int| 0 <= i < shorter.len() implies unreserved_byte(#[trigger] shorter[i]) by {
            assert(shorter[i] == bytes[i]);
        }
        lemma_unreserved_bytes_are_kept(shorter);
        assert(unreserved_byte(bytes[bytes.len() - 1]));
        assert(percent_encoded(bytes) =~= bytes.map_values(|b: u8| b as char));
    }
}

} // verus!
