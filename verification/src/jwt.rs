//! Codex OAuth token handling that needs no network: the payload of an ID
//! token, the identity its claims describe, and the classification of
//! token-endpoint failures.

use base64::Engine;
use vstd::prelude::*;
use vstd::string::{StringExecFns, StringSliceAdditionalSpecFns};

use crate::codex::{normalize_claim, normalized_claim, claim_view, optional_string_view, CodexConnectorError};
use crate::json::{
    defaulted_bool_field, get_opt, optional_integer_field, read_optional_integer, get_spec, json_get, json_get_opt, json_str, opt_ref, optional_text_field,
    parse_json, parsed_json, read_defaulted_bool, read_optional_text, str_of, Json,
};
use crate::oauth::base64_url_text;
use crate::text::{ascii_lower_text, str_eq, to_ascii_lowercase};
use crate::unicode::chars_of;
use crate::usage::or_else;

verus! {

/// What `base64`'s URL-safe engine decodes from a text: the unpadded
/// engine when `padded` is false, the padded one otherwise; nothing when
/// the text is not valid for that engine.
pub uninterp spec fn base64_url_decoded(text: Seq<u8>, padded: bool) -> Option<Seq<u8>>;

/// The ASCII bytes of the URL-safe base64 of `bytes`, with `=` up to a
/// multiple of four characters when `padded`.
pub open spec fn base64_url_bytes(bytes: Seq<u8>, padded: bool) -> Seq<u8> {
    let padding = if padded && bytes.len() % 3 == 1 {
        seq!['=', '=']
    } else if padded && bytes.len() % 3 == 2 {
        seq!['=']
    } else {
        Seq::<char>::empty()
    };
    (base64_url_text(bytes) + padding).map_values(|c: char| c as u8)
}

/// Decodes with `base64::engine::general_purpose::URL_SAFE_NO_PAD` or
/// `URL_SAFE` (`Engine::decode`). Both engines reject trailing bits, and
/// require no padding or canonical padding, so a text decodes exactly when
/// it is the encoding of some bytes, and then to those bytes; the contract
/// names the result and states that.
#[verifier::external_body]
fn decode_base64_url(text: &[u8], padded: bool) -> (decoded: Option<Vec<u8>>)
    ensures
        match decoded {
            Some(bytes) => base64_url_decoded(text@, padded) == Some(bytes@) && base64_url_bytes(bytes@, padded)
                == text@,
            None => base64_url_decoded(text@, padded) is None && forall|bytes: Seq<u8>|
                #[trigger] base64_url_bytes(bytes, padded) != text@,
        },
{
    let engine = if padded {
        base64::engine::general_purpose::URL_SAFE
    } else {
        base64::engine::general_purpose::URL_SAFE_NO_PAD
    };
    engine.decode(text).ok()
}

/// The pieces of `s` between dots (`str::split('.')`), empty ones included.
pub open spec fn split_dots(s: Seq<char>) -> Seq<Seq<char>>
    decreases s.len(),
{
    if s.len() == 0 {
        seq![Seq::empty()]
    } else {
        let pieces = split_dots(s.drop_last());
        if s.last() == '.' {
            pieces.push(Seq::empty())
        } else {
            pieces.update(pieces.len() - 1, pieces.last().push(s.last()))
        }
    }
}

proof fn lemma_split_dots_nonempty(s: Seq<char>)
    ensures
        split_dots(s).len() >= 1,
    decreases s.len(),
{
    if s.len() > 0 {
        lemma_split_dots_nonempty(s.drop_last());
    }
}

/// The payload segment of a compact JWT: there must be exactly three
/// non-empty dot-separated segments.
pub open spec fn jwt_payload_text(jwt: Seq<char>) -> Option<Seq<char>> {
    let pieces = split_dots(jwt);
    if pieces.len() == 3 && pieces[0].len() > 0 && pieces[1].len() > 0 && pieces[2].len() > 0 {
        Some(pieces[1])
    } else {
        None
    }
}

/// The decoded payload of a JWT: its payload segment, base64url-decoded
/// without padding or else with padding.
pub open spec fn jwt_payload_spec(jwt: Seq<char>) -> Option<Seq<u8>> {
    match jwt_payload_text(jwt) {
        Some(text) => {
            let bytes = vstd::utf8::encode_utf8(text);
            or_else(base64_url_decoded(bytes, false), base64_url_decoded(bytes, true))
        },
        None => None,
    }
}

fn split_on_dots(chars: &Vec<char>) -> (pieces: Vec<Vec<char>>)
    ensures
        crate::lines::views(pieces@) == split_dots(chars@),
{
    let mut pieces: Vec<Vec<char>> = Vec::new();
    let mut current: Vec<char> = Vec::new();
    let mut index: usize = 0;
    assert(split_dots(chars@.take(0)) =~= seq![Seq::<char>::empty()]) by {
        assert(chars@.take(0) =~= Seq::<char>::empty());
    }
    while index < chars.len()
        invariant
            index <= chars@.len(),
            crate::lines::views(pieces@).push(current@) == split_dots(chars@.take(index as int)),
        decreases chars@.len() - index,
    {
        let c = chars[index];
        proof {
            assert(chars@.take(index + 1).drop_last() =~= chars@.take(index as int));
            lemma_split_dots_nonempty(chars@.take(index as int));
        }
        let ghost before = crate::lines::views(pieces@);
        let ghost current_before = current@;
        if c == '.' {
            let mut finished: Vec<char> = Vec::new();
            std::mem::swap(&mut finished, &mut current);
            pieces.push(finished);
            assert(crate::lines::views(pieces@) =~= before.push(current_before));
            assert(crate::lines::views(pieces@).push(current@) =~= before.push(current_before).push(
                Seq::<char>::empty(),
            ));
        } else {
            current.push(c);
            assert(crate::lines::views(pieces@).push(current@) =~= before.push(current_before).update(
                before.len() as int,
                current_before.push(c),
            ));
        }
        index += 1;
    }
    assert(chars@.take(chars@.len() as int) =~= chars@);
    let ghost before = crate::lines::views(pieces@);
    pieces.push(current);
    assert(crate::lines::views(pieces@) =~= before.push(current@));
    pieces
}

/// The decoded payload of a JWT; an ill-formed token is an invalid JWT.
pub fn jwt_payload(jwt: &str) -> (payload: Result<Vec<u8>, CodexConnectorError>)
    ensures
        match payload {
            Ok(bytes) => jwt_payload_spec(jwt@) == Some(bytes@),
            Err(error) => jwt_payload_spec(jwt@) is None && error == CodexConnectorError::InvalidJwt,
        },
{
    let chars = chars_of(jwt);
    let pieces = split_on_dots(&chars);
    if pieces.len() != 3 || pieces[0].len() == 0 || pieces[1].len() == 0 || pieces[2].len() == 0 {
        proof {
            let views = crate::lines::views(pieces@);
            if views.len() == 3 {
                assert(views[0] == pieces@[0]@ && views[1] == pieces@[1]@ && views[2] == pieces@[2]@);
            }
        }
        return Err(CodexConnectorError::InvalidJwt);
    }
    assert(crate::lines::views(pieces@)[1] == pieces@[1]@);
    let text = crate::text::string_from_chars(pieces[1].as_slice());
    let bytes = text.as_str().as_bytes();
    match decode_base64_url(bytes, false) {
        Some(decoded) => Ok(decoded),
        None => match decode_base64_url(bytes, true) {
            Some(decoded) => Ok(decoded),
            None => Err(CodexConnectorError::InvalidJwt),
        },
    }
}

/// The profile claim of an ID token.
pub struct ProfileClaims {
    pub email: Option<String>,
}

/// The `chatgpt_plan_type` claim, which tokens carry as a string but may
/// carry as another JSON value.
pub enum PlanTypeClaim {
    Absent,
    Null,
    Text(String),
    Other,
}

/// The OpenAI auth claim of an ID token.
pub struct AuthClaims {
    pub chatgpt_plan_type: PlanTypeClaim,
    pub chatgpt_account_id: Option<String>,
    pub chatgpt_user_id: Option<String>,
    pub user_id: Option<String>,
    pub chatgpt_account_is_fedramp: bool,
}

/// The claims of an ID token that describe the account.
pub struct IdentityClaims {
    pub email: Option<String>,
    pub profile: Option<ProfileClaims>,
    pub auth: Option<AuthClaims>,
}

/// The account an ID token belongs to.
pub struct CodexIdentity {
    pub email: Option<String>,
    pub account_id: Option<String>,
    pub user_id: Option<String>,
    pub plan_type: Option<String>,
    pub is_fedramp: bool,
}

pub open spec fn claim_email(claims: IdentityClaims) -> Option<Seq<char>> {
    match claims.email {
        Some(email) => Some(email@),
        None => match claims.profile {
            Some(profile) => optional_string_view(profile.email),
            None => None,
        },
    }
}

pub open spec fn claim_user_id(auth: AuthClaims) -> Option<Seq<char>> {
    match auth.chatgpt_user_id {
        Some(id) => Some(id@),
        None => optional_string_view(auth.user_id),
    }
}

/// The plan-type claim as a view: absent or `null` is `Ok(None)`, a
/// string is its text, any other JSON value is `Err(())`.
pub open spec fn plan_claim_view(plan: PlanTypeClaim) -> Result<Option<Seq<char>>, ()> {
    match plan {
        PlanTypeClaim::Text(text) => Ok(Some(text@)),
        PlanTypeClaim::Other => Err(()),
        _ => Ok(None),
    }
}

/// The identity described by claim values: the email at most 320 bytes,
/// account and user ids at most 300 bytes, and a plan type, which must be
/// a string of at most 100 bytes when present and not null. Blank values
/// are absent; an oversized value or a non-string plan type is an invalid
/// JWT.
pub open spec fn identity_from_views(
    email: Option<Seq<char>>,
    account: Option<Seq<char>>,
    user: Option<Seq<char>>,
    plan: Result<Option<Seq<char>>, ()>,
    fedramp: bool,
) -> Result<(Option<Seq<char>>, Option<Seq<char>>, Option<Seq<char>>, Option<Seq<char>>, bool), CodexConnectorError> {
    let email = normalized_claim(email, 320);
    let account = normalized_claim(account, 300);
    let user = normalized_claim(user, 300);
    let plan: Result<Option<Seq<char>>, CodexConnectorError> = match plan {
        Ok(Some(text)) => normalized_claim(Some(text), 100),
        Ok(None) => Ok(None),
        Err(()) => Err(CodexConnectorError::InvalidJwt),
    };
    match (email, account, user, plan) {
        (Ok(email), Ok(account), Ok(user), Ok(plan)) => Ok((email, account, user, plan, fedramp)),
        (Err(error), _, _, _) => Err(error),
        (_, Err(error), _, _) => Err(error),
        (_, _, Err(error), _) => Err(error),
        (_, _, _, Err(error)) => Err(error),
    }
}

/// The identity described by the claims: the top-level email, else the
/// profile's; the account id; the ChatGPT user id, else the plain one; the
/// plan type; and the FedRAMP flag, false without an auth claim.
pub open spec fn identity_spec(claims: IdentityClaims) -> Result<
    (Option<Seq<char>>, Option<Seq<char>>, Option<Seq<char>>, Option<Seq<char>>, bool),
    CodexConnectorError,
> {
    match claims.auth {
        Some(auth) => identity_from_views(
            claim_email(claims),
            optional_string_view(auth.chatgpt_account_id),
            claim_user_id(auth),
            plan_claim_view(auth.chatgpt_plan_type),
            auth.chatgpt_account_is_fedramp,
        ),
        None => identity_from_views(claim_email(claims), None, None, Ok(None), false),
    }
}

pub open spec fn identity_view(identity: CodexIdentity) -> (
    Option<Seq<char>>,
    Option<Seq<char>>,
    Option<Seq<char>>,
    Option<Seq<char>>,
    bool,
) {
    (
        optional_string_view(identity.email),
        optional_string_view(identity.account_id),
        optional_string_view(identity.user_id),
        optional_string_view(identity.plan_type),
        identity.is_fedramp,
    )
}

/// The identity an ID token's claims describe.
pub fn identity_from_claims(claims: IdentityClaims) -> (identity: Result<CodexIdentity, CodexConnectorError>)
    ensures
        match (identity, identity_spec(claims)) {
            (Ok(identity), Ok(expected)) => identity_view(identity) == expected,
            (Err(a), Err(b)) => a == b,
            _ => false,
        },
{
    let ghost original = claims;
    let email_claim = match claims.email {
        Some(email) => Some(email),
        None => match claims.profile {
            Some(profile) => profile.email,
            None => None,
        },
    };
    let email = match normalize_claim(email_claim, 320) {
        Ok(email) => email,
        Err(error) => {
            return Err(error);
        },
    };
    let (account_claim, user_claim, plan_claim, is_fedramp) = match claims.auth {
        Some(auth) => (
            auth.chatgpt_account_id,
            match auth.chatgpt_user_id {
                Some(id) => Some(id),
                None => auth.user_id,
            },
            auth.chatgpt_plan_type,
            auth.chatgpt_account_is_fedramp,
        ),
        None => (None, None, PlanTypeClaim::Absent, false),
    };
    let account_id = match normalize_claim(account_claim, 300) {
        Ok(account) => account,
        Err(error) => {
            return Err(error);
        },
    };
    let user_id = match normalize_claim(user_claim, 300) {
        Ok(user) => user,
        Err(error) => {
            return Err(error);
        },
    };
    let plan_type = match plan_claim {
        PlanTypeClaim::Text(text) => match normalize_claim(Some(text), 100) {
            Ok(plan) => plan,
            Err(error) => {
                return Err(error);
            },
        },
        PlanTypeClaim::Other => {
            return Err(CodexConnectorError::InvalidJwt);
        },
        _ => None,
    };
    Ok(CodexIdentity { email, account_id, user_id, plan_type, is_fedramp })
}

/// The claim that holds the OpenAI profile.
pub const PROFILE_CLAIM: &'static str = "https://api.openai.com/profile";

/// The claim that holds the OpenAI account details.
pub const AUTH_CLAIM: &'static str = "https://api.openai.com/auth";

/// The text of an optional string field that is known to be well typed.
pub open spec fn field_text(value: Option<Json>) -> Option<Seq<char>> {
    match optional_text_field(value) {
        Ok(text) => text,
        Err(()) => None,
    }
}

/// A nested claim object: missing or `null` is absent.
pub open spec fn nested_claim(value: Option<Json>) -> Option<Json> {
    match value {
        Some(Json::Null) => None,
        other => other,
    }
}

/// Whether a JSON value reads as a profile claim, as `serde` would read it.
pub open spec fn profile_well_typed(value: Option<Json>) -> bool {
    match nested_claim(value) {
        None => true,
        Some(profile) => profile is Object && optional_text_field(get_spec(profile, "email"@)) is Ok,
    }
}

/// Whether a JSON value reads as an auth claim, as `serde` would read it:
/// its plan type may be any JSON value.
pub open spec fn auth_well_typed(value: Option<Json>) -> bool {
    match nested_claim(value) {
        None => true,
        Some(auth) => {
            &&& auth is Object
            &&& optional_text_field(get_spec(auth, "chatgpt_account_id"@)) is Ok
            &&& optional_text_field(get_spec(auth, "chatgpt_user_id"@)) is Ok
            &&& optional_text_field(get_spec(auth, "user_id"@)) is Ok
            &&& defaulted_bool_field(get_spec(auth, "chatgpt_account_is_fedramp"@)) is Ok
        },
    }
}

/// Whether a JSON document reads as ID-token claims: an object whose
/// `email`, profile and auth claims have the expected types.
pub open spec fn claims_well_typed(value: Json) -> bool {
    &&& value is Object
    &&& optional_text_field(get_spec(value, "email"@)) is Ok
    &&& profile_well_typed(get_spec(value, PROFILE_CLAIM@))
    &&& auth_well_typed(get_spec(value, AUTH_CLAIM@))
}

/// The email claim of a claims document: the top-level one, else the
/// profile's.
pub open spec fn json_claim_email(value: Json) -> Option<Seq<char>> {
    match field_text(get_spec(value, "email"@)) {
        Some(email) => Some(email),
        None => match nested_claim(get_spec(value, PROFILE_CLAIM@)) {
            Some(profile) => field_text(get_spec(profile, "email"@)),
            None => None,
        },
    }
}

/// The plan type of an auth claim object.
pub open spec fn json_plan_claim(auth: Json) -> Result<Option<Seq<char>>, ()> {
    match get_spec(auth, "chatgpt_plan_type"@) {
        None => Ok(None),
        Some(Json::Null) => Ok(None),
        Some(Json::Str(text)) => Ok(Some(text@)),
        Some(_) => Err(()),
    }
}

/// The identity a well-typed claims document describes.
pub open spec fn json_identity_spec(value: Json) -> Result<
    (Option<Seq<char>>, Option<Seq<char>>, Option<Seq<char>>, Option<Seq<char>>, bool),
    CodexConnectorError,
> {
    match nested_claim(get_spec(value, AUTH_CLAIM@)) {
        Some(auth) => identity_from_views(
            json_claim_email(value),
            field_text(get_spec(auth, "chatgpt_account_id"@)),
            match field_text(get_spec(auth, "chatgpt_user_id"@)) {
                Some(id) => Some(id),
                None => field_text(get_spec(auth, "user_id"@)),
            },
            json_plan_claim(auth),
            defaulted_bool_field(get_spec(auth, "chatgpt_account_is_fedramp"@)) == Ok::<bool, ()>(true),
        ),
        None => identity_from_views(json_claim_email(value), None, None, Ok(None), false),
    }
}

fn read_claim_text(value: Option<&Json>) -> (text: Result<Option<String>, CodexConnectorError>)
    ensures
        match text {
            Ok(text) => optional_text_field(opt_ref(value)) == Ok::<Option<Seq<char>>, ()>(
                optional_string_view(text),
            ),
            Err(error) => optional_text_field(opt_ref(value)) is Err && error == CodexConnectorError::InvalidJwt,
        },
{
    match read_optional_text(value) {
        Ok(text) => Ok(text),
        Err(()) => Err(CodexConnectorError::InvalidJwt),
    }
}

fn nested_claim_of<'a>(value: Option<&'a Json>) -> (nested: Option<&'a Json>)
    ensures
        opt_ref(nested) == nested_claim(opt_ref(value)),
{
    match value {
        Some(Json::Null) => None,
        other => other,
    }
}

/// Reads the claims of an ID token from its JSON payload, with the field
/// types that `serde` would demand.
pub fn identity_claims_from_json(value: &Json) -> (claims: Result<IdentityClaims, CodexConnectorError>)
    ensures
        match claims {
            Ok(claims) => claims_well_typed(*value) && identity_spec(claims) == json_identity_spec(*value),
            Err(error) => !claims_well_typed(*value) && error == CodexConnectorError::InvalidJwt,
        },
{
    if !matches!(value, Json::Object(_)) {
        return Err(CodexConnectorError::InvalidJwt);
    }
    let email = match read_claim_text(json_get(value, "email")) {
        Ok(email) => email,
        Err(error) => {
            return Err(error);
        },
    };
    let profile = match nested_claim_of(json_get(value, PROFILE_CLAIM)) {
        None => None,
        Some(profile) => {
            if !matches!(profile, Json::Object(_)) {
                return Err(CodexConnectorError::InvalidJwt);
            }
            match read_claim_text(json_get(profile, "email")) {
                Ok(email) => Some(ProfileClaims { email }),
                Err(error) => {
                    return Err(error);
                },
            }
        },
    };
    let auth = match nested_claim_of(json_get(value, AUTH_CLAIM)) {
        None => None,
        Some(auth) => {
            if !matches!(auth, Json::Object(_)) {
                return Err(CodexConnectorError::InvalidJwt);
            }
            let account_id = match read_claim_text(json_get(auth, "chatgpt_account_id")) {
                Ok(id) => id,
                Err(error) => {
                    return Err(error);
                },
            };
            let chatgpt_user_id = match read_claim_text(json_get(auth, "chatgpt_user_id")) {
                Ok(id) => id,
                Err(error) => {
                    return Err(error);
                },
            };
            let user_id = match read_claim_text(json_get(auth, "user_id")) {
                Ok(id) => id,
                Err(error) => {
                    return Err(error);
                },
            };
            let fedramp = match read_defaulted_bool(json_get(auth, "chatgpt_account_is_fedramp")) {
                Ok(flag) => flag,
                Err(()) => {
                    return Err(CodexConnectorError::InvalidJwt);
                },
            };
            let plan = match json_get(auth, "chatgpt_plan_type") {
                None => PlanTypeClaim::Absent,
                Some(Json::Null) => PlanTypeClaim::Null,
                Some(Json::Str(text)) => PlanTypeClaim::Text(text.clone()),
                Some(_) => PlanTypeClaim::Other,
            };
            Some(
                AuthClaims {
                    chatgpt_plan_type: plan,
                    chatgpt_account_id: account_id,
                    chatgpt_user_id,
                    user_id,
                    chatgpt_account_is_fedramp: fedramp,
                },
            )
        },
    };
    Ok(IdentityClaims { email, profile, auth })
}

/// What `parse_identity` gives for a token: the identity its payload's
/// claims describe; a token that is ill formed, whose payload is not JSON
/// or whose claims have the wrong types is an invalid JWT.
pub open spec fn parse_identity_spec(jwt: Seq<char>) -> Result<
    (Option<Seq<char>>, Option<Seq<char>>, Option<Seq<char>>, Option<Seq<char>>, bool),
    CodexConnectorError,
> {
    match jwt_payload_spec(jwt) {
        None => Err(CodexConnectorError::InvalidJwt),
        Some(bytes) => match parsed_json(bytes) {
            None => Err(CodexConnectorError::InvalidJwt),
            Some(value) => if claims_well_typed(value) {
                json_identity_spec(value)
            } else {
                Err(CodexConnectorError::InvalidJwt)
            },
        },
    }
}

/// The account an ID token belongs to, read from its (unverified) payload.
pub fn parse_identity(jwt: &str) -> (identity: Result<CodexIdentity, CodexConnectorError>)
    ensures
        match (identity, parse_identity_spec(jwt@)) {
            (Ok(identity), Ok(expected)) => identity_view(identity) == expected,
            (Err(a), Err(b)) => a == b,
            _ => false,
        },
{
    let payload = match jwt_payload(jwt) {
        Ok(payload) => payload,
        Err(error) => {
            return Err(error);
        },
    };
    let value = match parse_json(payload.as_slice()) {
        Some(value) => value,
        None => {
            return Err(CodexConnectorError::InvalidJwt);
        },
    };
    let claims = match identity_claims_from_json(&value) {
        Ok(claims) => claims,
        Err(error) => {
            return Err(error);
        },
    };
    identity_from_claims(claims)
}

/// Whether `chrono::DateTime::<Utc>::from_timestamp(seconds, 0)` gives a
/// time: chrono's dates run from January 1 of the year -262143 to
/// December 31 of the year 262142, so the second must lie from
/// -8334601228800 (that first midnight) to 8210266876799 (the last second
/// of that last day).
pub open spec fn utc_timestamp_representable(seconds: i64) -> bool {
    -8_334_601_228_800 <= seconds <= 8_210_266_876_799
}

/// Calls `chrono::DateTime::<Utc>::from_timestamp(seconds, 0)` and reports
/// whether it gave a time: it divides the second into days from the epoch
/// and a time of day, and the day must fall in chrono's date range.
#[verifier::external_body]
pub(crate) fn timestamp_is_representable(seconds: i64) -> (representable: bool)
    ensures
        representable == utc_timestamp_representable(seconds),
{
    chrono::DateTime::<chrono::Utc>::from_timestamp(seconds, 0).is_some()
}

/// The expiry of a token as `parse_jwt_expiration` reads it: the `exp`
/// claim in Unix seconds when it is present and not null; a token that is
/// ill formed, whose payload is not a JSON object, whose `exp` is not an
/// `i64`, or whose `exp` lies outside chrono's range, is an invalid JWT.
pub open spec fn jwt_expiration_spec(jwt: Seq<char>) -> Result<Option<i64>, CodexConnectorError> {
    match jwt_payload_spec(jwt) {
        None => Err(CodexConnectorError::InvalidJwt),
        Some(bytes) => match parsed_json(bytes) {
            Some(value) => if !(value is Object) {
                Err(CodexConnectorError::InvalidJwt)
            } else {
                match optional_integer_field(get_spec(value, "exp"@), i64::MIN as int, i64::MAX as int) {
                    Ok(None) => Ok(None),
                    Ok(Some(seconds)) => if utc_timestamp_representable(seconds) {
                        Ok(Some(seconds))
                    } else {
                        Err(CodexConnectorError::InvalidJwt)
                    },
                    Err(()) => Err(CodexConnectorError::InvalidJwt),
                }
            },
            None => Err(CodexConnectorError::InvalidJwt),
        },
    }
}

/// The expiry of an access token, in Unix seconds, from its (unverified)
/// payload.
pub fn parse_jwt_expiration(jwt: &str) -> (expires_at: Result<Option<i64>, CodexConnectorError>)
    ensures
        expires_at == jwt_expiration_spec(jwt@),
{
    let payload = match jwt_payload(jwt) {
        Ok(payload) => payload,
        Err(error) => {
            return Err(error);
        },
    };
    let value = match parse_json(payload.as_slice()) {
        Some(value) => value,
        None => {
            return Err(CodexConnectorError::InvalidJwt);
        },
    };
    if !matches!(value, Json::Object(_)) {
        return Err(CodexConnectorError::InvalidJwt);
    }
    match read_optional_integer(json_get(&value, "exp"), i64::MIN, i64::MAX) {
        Ok(None) => Ok(None),
        Ok(Some(seconds)) => if timestamp_is_representable(seconds) {
            Ok(Some(seconds))
        } else {
            Err(CodexConnectorError::InvalidJwt)
        },
        Err(()) => Err(CodexConnectorError::InvalidJwt),
    }
}

/// The error code of a token-endpoint failure body: `error.code`, a string
/// `error`, or a top-level `code`, in ASCII lowercase.
pub open spec fn token_error_code(body: Seq<u8>) -> Option<Seq<char>> {
    match parsed_json(body) {
        Some(value) => match or_else(
            match get_spec(value, "error"@) {
                Some(error) => or_else(str_of(get_spec(error, "code"@)), str_of(Some(error))),
                None => None,
            },
            str_of(get_spec(value, "code"@)),
        ) {
            Some(code) => Some(ascii_lower_text(code)),
            None => None,
        },
        None => None,
    }
}

/// A refresh that the token endpoint refuses with 401, or with an
/// expired, reused or invalidated refresh token, needs a new login; any
/// other failure keeps its HTTP status.
pub open spec fn token_endpoint_error_spec(status: u16, body: Seq<u8>, refreshing: bool) -> CodexConnectorError {
    let code = token_error_code(body);
    if refreshing && (status == 401 || code == Some("refresh_token_expired"@) || code == Some(
        "refresh_token_reused"@,
    ) || code == Some("refresh_token_invalidated"@)) {
        CodexConnectorError::RefreshTokenInvalid
    } else {
        CodexConnectorError::TokenEndpointStatus(status)
    }
}

pub fn token_endpoint_error(status: u16, body: &[u8], refreshing: bool) -> (error: CodexConnectorError)
    ensures
        error == token_endpoint_error_spec(status, body@, refreshing),
{
    let parsed = parse_json(body);
    let code: Option<String> = match &parsed {
        Some(value) => {
            let nested = match json_get(value, "error") {
                Some(error) => match json_str(json_get(error, "code")) {
                    Some(code) => Some(code),
                    None => json_str(Some(error)),
                },
                None => None,
            };
            let raw = match nested {
                Some(code) => Some(code),
                None => json_str(json_get(value, "code")),
            };
            match raw {
                Some(code) => Some(to_ascii_lowercase(code)),
                None => None,
            }
        },
        None => None,
    };
    let revoked = match &code {
        Some(code) => str_eq(code.as_str(), "refresh_token_expired") || str_eq(code.as_str(), "refresh_token_reused")
            || str_eq(code.as_str(), "refresh_token_invalidated"),
        None => false,
    };
    if refreshing && (status == 401 || revoked) {
        CodexConnectorError::RefreshTokenInvalid
    } else {
        CodexConnectorError::TokenEndpointStatus(status)
    }
}

} // verus!
