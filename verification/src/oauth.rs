//! The Codex OAuth endpoints: URLs of the token, models and quota
//! services, the authorization URL of a login, and the loopback callback
//! that ends it. URL parsing and serialization are `reqwest`'s (`url`).

use base64::Engine;
use rand::RngCore;
use vstd::prelude::*;
use vstd::string::StringExecFns;

use crate::codex_edit_body::base64_digit;
use crate::codex::{
    codex_user_agent, codex_user_agent_spec, sha256, sha256_digest, CodexConnectorError, CODEX_CLIENT_VERSION, CODEX_OAUTH_CLIENT_ID, CODEX_OAUTH_REDIRECT_URI,
    CODEX_OAUTH_SCOPE, CODEX_ORIGINATOR,
};
use crate::header_map::{header_inserted, header_value_from_text, header_value_text_valid, insert_header, HeaderSeq};
use crate::http_rules::{header_views, Header};
use crate::text::{str_eq, string_from_chars};
use crate::unicode::{chars_of, trim, trim_spec};

verus! {

#[verifier::external_type_specification]
#[verifier::external_body]
pub struct ExUrl(reqwest::Url);

/// A parsed URL as plain values: its serialization, its components, and
/// its query decoded into name/value pairs in order.
#[derive(Debug)]
pub struct UrlParts {
    pub serialized: String,
    pub scheme: String,
    pub username: String,
    pub password: Option<String>,
    pub host: Option<String>,
    pub port: Option<u16>,
    pub path: String,
    pub fragment: Option<String>,
    pub query_pairs: Vec<(String, String)>,
}

/// The view of a parsed URL.
pub struct UrlView {
    pub serialized: Seq<char>,
    pub scheme: Seq<char>,
    pub username: Seq<char>,
    pub password: Option<Seq<char>>,
    pub host: Option<Seq<char>>,
    pub port: Option<u16>,
    pub path: Seq<char>,
    pub fragment: Option<Seq<char>>,
    pub query_pairs: Seq<(Seq<char>, Seq<char>)>,
}

impl View for UrlParts {
    type V = UrlView;

    open spec fn view(&self) -> UrlView {
        UrlView {
            serialized: self.serialized@,
            scheme: self.scheme@,
            username: self.username@,
            password: match self.password {
                Some(password) => Some(password@),
                None => None,
            },
            host: match self.host {
                Some(host) => Some(host@),
                None => None,
            },
            port: self.port,
            path: self.path@,
            fragment: match self.fragment {
                Some(fragment) => Some(fragment@),
                None => None,
            },
            query_pairs: self.query_pairs.deep_view(),
        }
    }
}

/// What `reqwest::Url` makes of a text: `Url::parse(text)`, then
/// `query_pairs_mut().append_pair` for each query pair in order; nothing
/// when parsing fails. The components are those of `as_str`, `scheme`,
/// `username`, `password`, `host_str`, `port_or_known_default`, `path`,
/// `fragment` and `query_pairs`.
pub uninterp spec fn url_with_query(text: Seq<char>, pairs: Seq<(Seq<char>, Seq<char>)>) -> Option<UrlView>;

/// The same after `Url::join(path)` on the parsed base, before the pairs
/// are appended; nothing when parsing or joining fails.
pub uninterp spec fn joined_url_with_query(
    base: Seq<char>,
    path: Seq<char>,
    pairs: Seq<(Seq<char>, Seq<char>)>,
) -> Option<UrlView>;

/// Converts a `reqwest::Url` into its parts, accessor by accessor.
#[verifier::external_body]
pub(crate) fn url_parts(url: &reqwest::Url) -> UrlParts {
    UrlParts {
        serialized: url.as_str().to_owned(),
        scheme: url.scheme().to_owned(),
        username: url.username().to_owned(),
        password: url.password().map(str::to_owned),
        host: url.host_str().map(str::to_owned),
        port: url.port_or_known_default(),
        path: url.path().to_owned(),
        fragment: url.fragment().map(str::to_owned),
        query_pairs: url.query_pairs().map(|(name, value)| (name.into_owned(), value.into_owned())).collect(),
    }
}

/// Parses a URL with `reqwest::Url::parse` and appends query pairs with
/// `query_pairs_mut().append_pair`; the contract only names the result.
#[verifier::external_body]
fn parse_url_with_query(text: &str, pairs: &[(String, String)]) -> (url: Option<UrlParts>)
    ensures
        match url {
            Some(url) => url_with_query(text@, pairs.deep_view()) == Some(url@),
            None => url_with_query(text@, pairs.deep_view()) is None,
        },
{
    let mut url = reqwest::Url::parse(text).ok()?;
    for (name, value) in pairs {
        url.query_pairs_mut().append_pair(name, value);
    }
    Some(url_parts(&url))
}

/// Parses a base URL with `reqwest::Url::parse`, joins a path onto it with
/// `Url::join`, and appends query pairs; the contract only names the
/// result.
#[verifier::external_body]
fn join_url_with_query(base: &str, path: &str, pairs: &[(String, String)]) -> (url: Option<UrlParts>)
    ensures
        match url {
            Some(url) => joined_url_with_query(base@, path@, pairs.deep_view()) == Some(url@),
            None => joined_url_with_query(base@, path@, pairs.deep_view()) is None,
        },
{
    let mut url = reqwest::Url::parse(base).ok()?.join(path).ok()?;
    for (name, value) in pairs {
        url.query_pairs_mut().append_pair(name, value);
    }
    Some(url_parts(&url))
}

/// What `reqwest::Url::parse` makes of a text.
pub open spec fn parsed_url(text: Seq<char>) -> Option<UrlView> {
    url_with_query(text, Seq::empty())
}

/// Parses a URL into its parts.
pub fn parse_url(text: &str) -> (url: Option<UrlParts>)
    ensures
        match url {
            Some(url) => parsed_url(text@) == Some(url@),
            None => parsed_url(text@) is None,
        },
{
    let pairs: Vec<(String, String)> = Vec::new();
    assert(pairs.deep_view() =~= Seq::<(Seq<char>, Seq<char>)>::empty());
    parse_url_with_query(text, pairs.as_slice())
}

/// `s` without its trailing slashes (`trim_end_matches('/')`).
pub open spec fn trim_trailing_slashes(s: Seq<char>) -> Seq<char>
    decreases s.len(),
{
    if s.len() > 0 && s.last() == '/' {
        trim_trailing_slashes(s.drop_last())
    } else {
        s
    }
}

proof fn lemma_trim_trailing_slashes_prefix(s: Seq<char>)
    ensures
        trim_trailing_slashes(s).len() <= s.len(),
        trim_trailing_slashes(s) == s.take(trim_trailing_slashes(s).len() as int),
    decreases s.len(),
{
    if s.len() > 0 && s.last() == '/' {
        lemma_trim_trailing_slashes_prefix(s.drop_last());
        assert(s.drop_last().take(trim_trailing_slashes(s).len() as int) =~= s.take(
            trim_trailing_slashes(s).len() as int,
        ));
    } else {
        assert(s.take(s.len() as int) =~= s);
    }
}

fn trailing_slashes_end(chars: &Vec<char>) -> (end: usize)
    ensures
        end <= chars@.len(),
        chars@.take(end as int) == trim_trailing_slashes(chars@),
{
    let mut end = chars.len();
    assert(chars@.take(end as int) =~= chars@);
    while end > 0 && chars[end - 1] == '/'
        invariant
            end <= chars@.len(),
            trim_trailing_slashes(chars@.take(end as int)) == trim_trailing_slashes(chars@),
        decreases end,
    {
        assert(chars@.take(end as int).drop_last() =~= chars@.take(end - 1));
        end -= 1;
    }
    end
}

/// A text without its trailing slashes.
pub fn without_trailing_slashes(text: &str) -> (trimmed: String)
    ensures
        trimmed@ == trim_trailing_slashes(text@),
{
    let chars = chars_of(text);
    let end = trailing_slashes_end(&chars);
    proof {
        lemma_trim_trailing_slashes_prefix(chars@);
    }
    string_from_chars(vstd::slice::slice_subrange(chars.as_slice(), 0, end))
}

/// `prefix` followed by `suffix`, as a string.
fn concat_text(prefix: &[char], suffix: &str) -> (text: String)
    ensures
        text@ == prefix@ + suffix@,
{
    let tail = chars_of(suffix);
    let mut chars: Vec<char> = Vec::new();
    let mut index: usize = 0;
    while index < prefix.len()
        invariant
            index <= prefix@.len(),
            chars@ == prefix@.take(index as int),
        decreases prefix@.len() - index,
    {
        chars.push(prefix[index]);
        assert(chars@ =~= prefix@.take(index + 1));
        index += 1;
    }
    assert(prefix@.take(prefix@.len() as int) =~= prefix@);
    let mut index: usize = 0;
    while index < tail.len()
        invariant
            index <= tail@.len(),
            tail@ == suffix@,
            chars@ == prefix@ + tail@.take(index as int),
        decreases tail@.len() - index,
    {
        chars.push(tail[index]);
        assert(chars@ =~= prefix@ + tail@.take(index + 1));
        index += 1;
    }
    assert(tail@.take(tail@.len() as int) =~= tail@);
    string_from_chars(chars.as_slice())
}

/// The Codex service roots: the OAuth issuer and the base of the Responses
/// API, each as a URL serialization.
pub struct CodexEndpoints {
    pub issuer: String,
    pub responses_base_url: String,
}

impl Default for CodexEndpoints {
    fn default() -> (endpoints: Self)
        ensures
            endpoints.issuer@ == "https://auth.openai.com/"@,
            endpoints.responses_base_url@ == "https://chatgpt.com/backend-api/codex"@,
    {
        CodexEndpoints {
            issuer: "https://auth.openai.com/".to_owned(),
            responses_base_url: "https://chatgpt.com/backend-api/codex".to_owned(),
        }
    }
}

/// The Codex backend root: the Responses base without trailing slashes
/// and without its final `/codex` segment, which it must end with.
pub open spec fn backend_root(base: Seq<char>) -> Option<Seq<char>> {
    let trimmed = trim_trailing_slashes(base);
    if trimmed.len() >= 6 && trimmed.skip(trimmed.len() - 6) == "/codex"@ {
        Some(trimmed.take(trimmed.len() - 6))
    } else {
        None
    }
}

/// The query of the models request.
pub open spec fn models_query() -> Seq<(Seq<char>, Seq<char>)> {
    seq![("client_version"@, CODEX_CLIENT_VERSION@)]
}

/// A URL that must parse; failure is an invalid endpoint.
pub open spec fn endpoint_result(url: Option<UrlView>) -> Result<UrlView, CodexConnectorError> {
    match url {
        Some(url) => Ok(url),
        None => Err(CodexConnectorError::InvalidEndpoint),
    }
}

pub open spec fn url_result_view(url: Result<UrlParts, CodexConnectorError>) -> Result<UrlView, CodexConnectorError> {
    match url {
        Ok(url) => Ok(url@),
        Err(error) => Err(error),
    }
}

fn endpoint(url: Option<UrlParts>) -> (result: Result<UrlParts, CodexConnectorError>)
    ensures
        url_result_view(result) == endpoint_result(
            match url {
                Some(url) => Some(url@),
                None => None,
            },
        ),
{
    match url {
        Some(url) => Ok(url),
        None => Err(CodexConnectorError::InvalidEndpoint),
    }
}

fn backend_url(base: &str, suffix: &str) -> (url: Result<UrlParts, CodexConnectorError>)
    ensures
        url_result_view(url) == match backend_root(base@) {
            Some(root) => endpoint_result(parsed_url(root + suffix@)),
            None => Err(CodexConnectorError::InvalidEndpoint),
        },
{
    let chars = chars_of(base);
    let end = trailing_slashes_end(&chars);
    proof {
        lemma_trim_trailing_slashes_prefix(chars@);
    }
    let trimmed = vstd::slice::slice_subrange(chars.as_slice(), 0, end);
    assert(trimmed@ == trim_trailing_slashes(base@));
    let marker = chars_of("/codex");
    proof {
        reveal_strlit("/codex");
    }
    assert(marker@.len() == 6);
    if end < 6 {
        return Err(CodexConnectorError::InvalidEndpoint);
    }
    let mut index: usize = 0;
    while index < 6
        invariant
            end >= 6,
            trimmed@.len() == end,
            marker@ == "/codex"@,
            marker@.len() == 6,
            trimmed@ == trim_trailing_slashes(base@),
            index <= 6,
            forall|i: int| 0 <= i < index ==> trimmed@[end - 6 + i] == marker@[i],
        decreases 6 - index,
    {
        if trimmed[end - 6 + index] != marker[index] {
            assert(trimmed@.skip(end - 6)[index as int] != "/codex"@[index as int]);
            return Err(CodexConnectorError::InvalidEndpoint);
        }
        index += 1;
    }
    assert(trimmed@.skip(end - 6) =~= "/codex"@);
    let root = vstd::slice::slice_subrange(trimmed, 0, end - 6);
    assert(root@ =~= trimmed@.take(end - 6));
    let text = concat_text(root, suffix);
    endpoint(parse_url(text.as_str()))
}

impl CodexEndpoints {
    /// The token endpoint: `/oauth/token` joined onto the issuer.
    pub fn token_url(&self) -> (url: Result<UrlParts, CodexConnectorError>)
        ensures
            url_result_view(url) == endpoint_result(
                joined_url_with_query(self.issuer@, "/oauth/token"@, Seq::empty()),
            ),
    {
        let pairs: Vec<(String, String)> = Vec::new();
        assert(pairs.deep_view() =~= Seq::<(Seq<char>, Seq<char>)>::empty());
        endpoint(join_url_with_query(self.issuer.as_str(), "/oauth/token", pairs.as_slice()))
    }

    /// The models endpoint: `/models` appended to the Responses base
    /// (without trailing slashes), with the pinned client version as query.
    pub fn models_url(&self) -> (url: Result<UrlParts, CodexConnectorError>)
        ensures
            url_result_view(url) == endpoint_result(
                url_with_query(trim_trailing_slashes(self.responses_base_url@) + "/models"@, models_query()),
            ),
    {
        let chars = chars_of(self.responses_base_url.as_str());
        let end = trailing_slashes_end(&chars);
        let trimmed = vstd::slice::slice_subrange(chars.as_slice(), 0, end);
        let text = concat_text(trimmed, "/models");
        let mut pairs: Vec<(String, String)> = Vec::new();
        pairs.push(("client_version".to_owned(), CODEX_CLIENT_VERSION.to_owned()));
        assert(pairs.deep_view() =~= models_query());
        endpoint(parse_url_with_query(text.as_str(), pairs.as_slice()))
    }

    /// The usage endpoint: `/wham/usage` under the backend root.
    pub fn quota_url(&self) -> (url: Result<UrlParts, CodexConnectorError>)
        ensures
            url_result_view(url) == match backend_root(self.responses_base_url@) {
                Some(root) => endpoint_result(parsed_url(root + "/wham/usage"@)),
                None => Err(CodexConnectorError::InvalidEndpoint),
            },
    {
        backend_url(self.responses_base_url.as_str(), "/wham/usage")
    }

    /// The reset-credit endpoint: `/wham/rate-limit-reset-credits/consume`
    /// under the backend root.
    pub fn quota_reset_url(&self) -> (url: Result<UrlParts, CodexConnectorError>)
        ensures
            url_result_view(url) == match backend_root(self.responses_base_url@) {
                Some(root) => endpoint_result(parsed_url(root + "/wham/rate-limit-reset-credits/consume"@)),
                None => Err(CodexConnectorError::InvalidEndpoint),
            },
    {
        backend_url(self.responses_base_url.as_str(), "/wham/rate-limit-reset-credits/consume")
    }
}

/// A PKCE verifier and its S256 challenge.
pub struct PkceCodes {
    pub verifier: String,
    pub challenge: String,
}

/// The query of an authorization request, in order.
pub open spec fn authorize_query(challenge: Seq<char>, state: Seq<char>) -> Seq<(Seq<char>, Seq<char>)> {
    seq![
        ("response_type"@, "code"@),
        ("client_id"@, CODEX_OAUTH_CLIENT_ID@),
        ("redirect_uri"@, CODEX_OAUTH_REDIRECT_URI@),
        ("scope"@, CODEX_OAUTH_SCOPE@),
        ("code_challenge"@, challenge),
        ("code_challenge_method"@, "S256"@),
        ("id_token_add_organizations"@, "true"@),
        ("codex_cli_simplified_flow"@, "true"@),
        ("state"@, state),
        ("originator"@, CODEX_ORIGINATOR@),
    ]
}

fn query_pair(name: &str, value: &str) -> (pair: (String, String))
    ensures
        pair.deep_view() == (name@, value@),
{
    (name.to_owned(), value.to_owned())
}

/// The URL that starts a login: `/oauth/authorize` joined onto the issuer,
/// with the fixed public client, the PKCE challenge and the state.
pub fn build_authorize_url(endpoints: &CodexEndpoints, pkce: &PkceCodes, state: &str) -> (url: Result<
    String,
    CodexConnectorError,
>)
    ensures
        match url {
            Ok(url) => joined_url_with_query(
                endpoints.issuer@,
                "/oauth/authorize"@,
                authorize_query(pkce.challenge@, state@),
            ) matches Some(built) && built.serialized == url@,
            Err(error) => joined_url_with_query(
                endpoints.issuer@,
                "/oauth/authorize"@,
                authorize_query(pkce.challenge@, state@),
            ) is None && error == CodexConnectorError::InvalidEndpoint,
        },
{
    let mut pairs: Vec<(String, String)> = Vec::new();
    pairs.push(query_pair("response_type", "code"));
    pairs.push(query_pair("client_id", CODEX_OAUTH_CLIENT_ID));
    pairs.push(query_pair("redirect_uri", CODEX_OAUTH_REDIRECT_URI));
    pairs.push(query_pair("scope", CODEX_OAUTH_SCOPE));
    pairs.push(query_pair("code_challenge", pkce.challenge.as_str()));
    pairs.push(query_pair("code_challenge_method", "S256"));
    pairs.push(query_pair("id_token_add_organizations", "true"));
    pairs.push(query_pair("codex_cli_simplified_flow", "true"));
    pairs.push(query_pair("state", state));
    pairs.push(query_pair("originator", CODEX_ORIGINATOR));
    assert(pairs.deep_view() =~= authorize_query(pkce.challenge@, state@));
    match join_url_with_query(endpoints.issuer.as_str(), "/oauth/authorize", pairs.as_slice()) {
        Some(url) => Ok(url.serialized),
        None => Err(CodexConnectorError::InvalidEndpoint),
    }
}

/// A digit of the URL-safe base64 alphabet: that of standard base64 with
/// `-` and `_` for its last two digits.
pub open spec fn base64_url_digit(v: int) -> char {
    if v < 62 {
        base64_digit(v)
    } else if v == 62 {
        '-'
    } else {
        '_'
    }
}

/// Unpadded URL-safe base64 (RFC 4648): each group of three bytes gives
/// four digits; a last group of one or two bytes gives two or three digits
/// and no padding.
pub open spec fn base64_url_text(bytes: Seq<u8>) -> Seq<char>
    decreases bytes.len(),
{
    if bytes.len() == 0 {
        Seq::empty()
    } else if bytes.len() == 1 {
        seq![base64_url_digit((bytes[0] / 4) as int), base64_url_digit((bytes[0] % 4) * 16)]
    } else if bytes.len() == 2 {
        seq![
            base64_url_digit((bytes[0] / 4) as int),
            base64_url_digit((bytes[0] % 4) * 16 + bytes[1] / 16),
            base64_url_digit((bytes[1] % 16) * 4),
        ]
    } else {
        seq![
            base64_url_digit((bytes[0] / 4) as int),
            base64_url_digit((bytes[0] % 4) * 16 + bytes[1] / 16),
            base64_url_digit((bytes[1] % 16) * 4 + bytes[2] / 64),
            base64_url_digit((bytes[2] % 64) as int),
        ] + base64_url_text(bytes.skip(3))
    }
}

/// Encodes bytes with `base64::engine::general_purpose::URL_SAFE_NO_PAD`,
/// which writes unpadded URL-safe base64.
#[verifier::external_body]
fn encode_base64_url(bytes: &[u8]) -> (text: String)
    ensures
        text@ == base64_url_text(bytes@),
{
    base64::engine::general_purpose::URL_SAFE_NO_PAD.encode(bytes)
}

/// 64 bytes from `rand::rng()` (`RngCore::fill_bytes`); they are random,
/// so nothing is stated of them.
#[verifier::external_body]
fn random_bytes_64() -> [u8; 64] {
    let mut bytes = [0u8; 64];
    rand::rng().fill_bytes(&mut bytes);
    bytes
}

/// 32 bytes from `rand::rng()` (`RngCore::fill_bytes`).
#[verifier::external_body]
fn random_bytes_32() -> [u8; 32] {
    let mut bytes = [0u8; 32];
    rand::rng().fill_bytes(&mut bytes);
    bytes
}

/// A fresh PKCE pair: the verifier is 64 random bytes in unpadded URL-safe
/// base64, the challenge the same encoding of the SHA-256 digest of the
/// verifier's text (S256).
pub fn generate_pkce() -> (codes: PkceCodes)
    ensures
        exists|bytes: Seq<u8>| bytes.len() == 64 && #[trigger] base64_url_text(bytes) == codes.verifier@,
        codes.challenge@ == base64_url_text(sha256(vstd::utf8::encode_utf8(codes.verifier@))),
{
    let bytes = random_bytes_64();
    let verifier = encode_base64_url(bytes.as_slice());
    let digest = sha256_digest(verifier.as_str().as_bytes());
    let challenge = encode_base64_url(digest.as_slice());
    assert(bytes@.len() == 64 && base64_url_text(bytes@) == verifier@);
    PkceCodes { verifier, challenge }
}

/// A fresh OAuth state: 32 random bytes in unpadded URL-safe base64.
pub fn generate_oauth_state() -> (state: String)
    ensures
        exists|bytes: Seq<u8>| bytes.len() == 32 && #[trigger] base64_url_text(bytes) == state@,
{
    let bytes = random_bytes_32();
    let state = encode_base64_url(bytes.as_slice());
    assert(bytes@.len() == 32 && base64_url_text(bytes@) == state@);
    state
}

/// The headers of the models and quota requests: the bearer token and the
/// workspace account, which must be valid header values, JSON accepted,
/// the Codex client's user agent, originator and version, and the FedRAMP
/// flag when the account needs it.
pub open spec fn codex_headers_spec(access_token: Seq<char>, account_id: Seq<char>, is_fedramp: bool) -> Option<
    HeaderSeq,
> {
    let bearer = "Bearer "@ + access_token;
    if !header_value_text_valid(bearer) || !header_value_text_valid(account_id) || !header_value_text_valid(
        codex_user_agent_spec(),
    ) {
        None
    } else {
        let headers = header_inserted(Seq::empty(), "authorization"@, vstd::utf8::encode_utf8(bearer));
        let headers = header_inserted(headers, "chatgpt-account-id"@, vstd::utf8::encode_utf8(account_id));
        let headers = header_inserted(headers, "accept"@, vstd::utf8::encode_utf8("application/json"@));
        let headers = header_inserted(headers, "user-agent"@, vstd::utf8::encode_utf8(codex_user_agent_spec()));
        let headers = header_inserted(headers, "originator"@, vstd::utf8::encode_utf8(CODEX_ORIGINATOR@));
        let headers = header_inserted(headers, "version"@, vstd::utf8::encode_utf8(CODEX_CLIENT_VERSION@));
        Some(
            if is_fedramp {
                header_inserted(headers, "x-openai-fedramp"@, vstd::utf8::encode_utf8("true"@))
            } else {
                headers
            },
        )
    }
}

/// The headers of the models and quota requests; an access token or account
/// id that cannot be a header value is an invalid credential.
pub fn codex_headers(access_token: &str, account_id: &str, is_fedramp: bool) -> (headers: Result<
    Vec<Header>,
    CodexConnectorError,
>)
    ensures
        match headers {
            Ok(headers) => codex_headers_spec(access_token@, account_id@, is_fedramp) == Some(
                header_views(headers@),
            ),
            Err(error) => codex_headers_spec(access_token@, account_id@, is_fedramp) is None && error
                == CodexConnectorError::InvalidCredential,
        },
{
    let mut headers: Vec<Header> = Vec::new();
    let mut bearer = String::from_str("Bearer ");
    bearer.append(access_token);
    let bearer_value = match header_value_from_text(bearer.as_str()) {
        Some(value) => value,
        None => {
            return Err(CodexConnectorError::InvalidCredential);
        },
    };
    let account_value = match header_value_from_text(account_id) {
        Some(value) => value,
        None => {
            return Err(CodexConnectorError::InvalidCredential);
        },
    };
    let agent = codex_user_agent();
    let agent_value = match header_value_from_text(agent.as_str()) {
        Some(value) => value,
        None => {
            return Err(CodexConnectorError::InvalidCredential);
        },
    };
    assert(header_views(headers@) =~= Seq::<(Seq<char>, Seq<u8>)>::empty());
    insert_header(&mut headers, "authorization", bearer_value);
    insert_header(&mut headers, "chatgpt-account-id", account_value);
    insert_header(&mut headers, "accept", vstd::slice::slice_to_vec("application/json".as_bytes()));
    insert_header(&mut headers, "user-agent", agent_value);
    insert_header(&mut headers, "originator", vstd::slice::slice_to_vec(CODEX_ORIGINATOR.as_bytes()));
    insert_header(&mut headers, "version", vstd::slice::slice_to_vec(CODEX_CLIENT_VERSION.as_bytes()));
    if is_fedramp {
        insert_header(&mut headers, "x-openai-fedramp", vstd::slice::slice_to_vec("true".as_bytes()));
    }
    Ok(headers)
}

/// The authorization code and state of an OAuth callback.
pub struct CallbackCode {
    pub code: String,
    pub state: String,
}

/// The value of the last query pair named `name`, as a map collected from
/// the pairs keeps it.
pub open spec fn last_pair_value(pairs: Seq<(Seq<char>, Seq<char>)>, name: Seq<char>) -> Option<Seq<char>>
    decreases pairs.len(),
{
    if pairs.len() == 0 {
        None
    } else if pairs.last().0 == name {
        Some(pairs.last().1)
    } else {
        last_pair_value(pairs.drop_last(), name)
    }
}

/// A trimmed, non-empty query value.
pub open spec fn required_query_value(pairs: Seq<(Seq<char>, Seq<char>)>, name: Seq<char>) -> Option<Seq<char>> {
    match last_pair_value(pairs, name) {
        Some(value) => if trim_spec(value).len() > 0 {
            Some(trim_spec(value))
        } else {
            None
        },
        None => None,
    }
}

/// Whether a parsed URL is exactly the loopback redirect of the Codex CLI:
/// `http://localhost:1455/auth/callback`, without credentials or fragment.
pub open spec fn is_loopback_callback(url: UrlView) -> bool {
    &&& url.scheme == "http"@
    &&& url.host == Some("localhost"@)
    &&& url.port == Some(1455u16)
    &&& url.path == "/auth/callback"@
    &&& url.username.len() == 0
    &&& url.password is None
    &&& url.fragment is None
}

/// What an administrator pastes to finish a Codex OAuth login: the URL
/// the browser was sent back to, read by `parse_callback_url`.
pub struct CodexOauthCompleteInput {
    pub callback_url: String,
}

/// What `parse_callback_url` gives: for the loopback redirect, an `error`
/// parameter means the user refused; otherwise the trimmed `code` and
/// `state` parameters, both required.
pub open spec fn callback_spec(value: Seq<char>) -> Result<(Seq<char>, Seq<char>), CodexConnectorError> {
    match parsed_url(value) {
        None => Err(CodexConnectorError::InvalidCallback),
        Some(url) => if !is_loopback_callback(url) {
            Err(CodexConnectorError::InvalidCallback)
        } else if last_pair_value(url.query_pairs, "error"@) is Some {
            Err(CodexConnectorError::OauthDenied)
        } else {
            match (
                required_query_value(url.query_pairs, "code"@),
                required_query_value(url.query_pairs, "state"@),
            ) {
                (Some(code), Some(state)) => Ok((code, state)),
                _ => Err(CodexConnectorError::InvalidCallback),
            }
        },
    }
}

fn last_query_value<'a>(pairs: &'a Vec<(String, String)>, name: &str) -> (value: Option<&'a String>)
    ensures
        match value {
            Some(value) => last_pair_value(pairs.deep_view(), name@) == Some(value@),
            None => last_pair_value(pairs.deep_view(), name@) is None,
        },
{
    let mut index = pairs.len();
    assert(pairs.deep_view().take(index as int) =~= pairs.deep_view());
    while index > 0
        invariant
            index <= pairs@.len(),
            pairs.deep_view().len() == pairs@.len(),
            last_pair_value(pairs.deep_view().take(index as int), name@) == last_pair_value(
                pairs.deep_view(),
                name@,
            ),
        decreases index,
    {
        let ghost prefix = pairs.deep_view().take(index as int);
        assert(prefix.last() == pairs@[index - 1].deep_view());
        if str_eq(pairs[index - 1].0.as_str(), name) {
            return Some(&pairs[index - 1].1);
        }
        assert(prefix.drop_last() =~= pairs.deep_view().take(index - 1));
        index -= 1;
    }
    assert(pairs.deep_view().take(0) =~= Seq::<(Seq<char>, Seq<char>)>::empty());
    None
}

fn required_value(pairs: &Vec<(String, String)>, name: &str) -> (value: Option<String>)
    ensures
        match value {
            Some(value) => required_query_value(pairs.deep_view(), name@) == Some(value@),
            None => required_query_value(pairs.deep_view(), name@) is None,
        },
{
    match last_query_value(pairs, name) {
        Some(value) => {
            let trimmed = trim(value.as_str());
            if trimmed.is_empty() {
                None
            } else {
                Some(trimmed.to_owned())
            }
        },
        None => None,
    }
}

/// The code and state of the OAuth callback URL that the user pasted.
pub fn parse_callback_url(value: &str) -> (callback: Result<CallbackCode, CodexConnectorError>)
    ensures
        match callback {
            Ok(callback) => callback_spec(value@) == Ok::<(Seq<char>, Seq<char>), CodexConnectorError>(
                (callback.code@, callback.state@),
            ),
            Err(error) => callback_spec(value@) == Err::<(Seq<char>, Seq<char>), CodexConnectorError>(error),
        },
{
    let url = match parse_url(value) {
        Some(url) => url,
        None => {
            return Err(CodexConnectorError::InvalidCallback);
        },
    };
    let password_absent = url.password.is_none();
    let fragment_absent = url.fragment.is_none();
    let host_ok = match &url.host {
        Some(host) => str_eq(host.as_str(), "localhost"),
        None => false,
    };
    if !str_eq(url.scheme.as_str(), "http") || !host_ok || url.port != Some(1455u16) || !str_eq(
        url.path.as_str(),
        "/auth/callback",
    ) || !url.username.as_str().is_empty() || !password_absent || !fragment_absent {
        return Err(CodexConnectorError::InvalidCallback);
    }
    if last_query_value(&url.query_pairs, "error").is_some() {
        return Err(CodexConnectorError::OauthDenied);
    }
    let code = required_value(&url.query_pairs, "code");
    let state = required_value(&url.query_pairs, "state");
    match (code, state) {
        (Some(code), Some(state)) => Ok(CallbackCode { code, state }),
        _ => Err(CodexConnectorError::InvalidCallback),
    }
}

} // verus!
