//! Rules of the outbound-proxy connectivity test: which credentials a test
//! uses and how reported location fields are cleaned.

use vstd::prelude::*;
use vstd::string::{StrSliceExecFns, StringExecFns};

use crate::json::{
    get_spec, json_get, opt_ref, optional_bool_field, optional_integer_field, optional_text_field,
    parse_json, parsed_json, read_optional_bool, read_optional_integer, read_optional_text, Json,
};
use crate::oauth::{parse_url, parsed_url};
use crate::text::str_eq;
use crate::unicode::{trim, trim_spec};

verus! {

#[derive(Clone, Copy, PartialEq, Eq, Debug)]
pub enum ProxyTestError {
    InvalidConfiguration,
    CredentialsRequired,
    NotFound,
    RateLimited,
    ResponseHeaderTimeout,
    RequestFailed,
    ProviderUnavailable,
    ResponseBodyTimeout,
    ResponseBodyFailed,
    ResponseTooLarge,
    InvalidResponse,
    Repository,
}

pub open spec fn text_view(value: Option<String>) -> Option<Seq<char>> {
    match value {
        Some(value) => Some(value@),
        None => None,
    }
}

/// A submitted credential (possibly an explicit `null`) replaces the stored
/// one; when nothing was submitted the stored credential is used.
pub fn resolve_credential(submitted: Option<Option<String>>, stored: Option<Option<String>>) -> (credential: Option<String>)
    ensures
        text_view(credential) == match submitted {
            Some(value) => text_view(value),
            None => match stored {
                Some(value) => text_view(value),
                None => None,
            },
        },
{
    match submitted {
        Some(value) => value,
        None => match stored {
            Some(value) => value,
            None => None,
        },
    }
}

/// A reported field, trimmed; blank fields are dropped.
pub fn clean(value: Option<String>) -> (cleaned: Option<String>)
    ensures
        text_view(cleaned) == match value {
            Some(value) => if trim_spec(value@).len() > 0 {
                Some(trim_spec(value@))
            } else {
                None
            },
            None => None,
        },
{
    match value {
        Some(value) => {
            let trimmed = trim(value.as_str());
            if trimmed.unicode_len() == 0 {
                None
            } else {
                Some(String::from_str(trimmed))
            }
        },
        None => None,
    }
}

/// A reported field as `clean` leaves it.
pub open spec fn cleaned(value: Option<Seq<char>>) -> Option<Seq<char>> {
    match value {
        Some(value) => if trim_spec(value).len() > 0 {
            Some(trim_spec(value))
        } else {
            None
        },
        None => None,
    }
}

/// Whether two proxy URLs name the same endpoint: both parse, with the same
/// scheme, host and (explicit or default) port.
pub open spec fn same_endpoint_spec(left: Seq<char>, right: Seq<char>) -> bool {
    match (parsed_url(left), parsed_url(right)) {
        (Some(left), Some(right)) => left.scheme == right.scheme && left.host == right.host && left.port
            == right.port,
        _ => false,
    }
}

fn same_text(left: &Option<String>, right: &Option<String>) -> (same: bool)
    ensures
        same == (text_view(*left) == text_view(*right)),
{
    match (left, right) {
        (Some(left), Some(right)) => str_eq(left.as_str(), right.as_str()),
        (None, None) => true,
        _ => false,
    }
}

/// Whether two proxy URLs name the same endpoint.
pub fn same_proxy_endpoint(left: &str, right: &str) -> (same: bool)
    ensures
        same == same_endpoint_spec(left@, right@),
{
    let (left, right) = match (parse_url(left), parse_url(right)) {
        (Some(left), Some(right)) => (left, right),
        _ => {
            return false;
        },
    };
    str_eq(left.scheme.as_str(), right.scheme.as_str()) && same_text(&left.host, &right.host) && left.port
        == right.port
}

/// The saved proxy a test refers to.
pub struct StoredProxy {
    pub proxy_url: String,
    pub username: Option<String>,
    pub password: Option<String>,
}

/// The credentials a proxy test uses: the submitted components, with
/// omitted ones taken from the saved proxy only while its endpoint is
/// unchanged. A changed endpoint whose saved credentials were not all
/// re-entered is refused, so hidden credentials never reach another host.
pub open spec fn test_credentials_spec(
    stored: Option<StoredProxy>,
    proxy_url: Seq<char>,
    username: Option<Option<String>>,
    password: Option<Option<String>>,
) -> Result<(Option<Seq<char>>, Option<Seq<char>>), ProxyTestError> {
    let unchanged = match stored {
        Some(stored) => same_endpoint_spec(stored.proxy_url@, proxy_url),
        None => false,
    };
    match stored {
        Some(stored) => if !unchanged && ((username is None && stored.username is Some) || (password is None
            && stored.password is Some)) {
            Err(ProxyTestError::CredentialsRequired)
        } else {
            let pick = |submitted: Option<Option<String>>, saved: Option<String>|
                match submitted {
                    Some(value) => text_view(value),
                    None => if unchanged {
                        text_view(saved)
                    } else {
                        None
                    },
                };
            Ok((pick(username, stored.username), pick(password, stored.password)))
        },
        None => Ok(
            (
                match username {
                    Some(value) => text_view(value),
                    None => None,
                },
                match password {
                    Some(value) => text_view(value),
                    None => None,
                },
            ),
        ),
    }
}

/// The username and password of a proxy test.
pub fn test_credentials(
    stored: Option<StoredProxy>,
    proxy_url: &str,
    username: Option<Option<String>>,
    password: Option<Option<String>>,
) -> (credentials: Result<(Option<String>, Option<String>), ProxyTestError>)
    ensures
        match credentials {
            Ok((username_used, password_used)) => test_credentials_spec(stored, proxy_url@, username, password)
                == Ok::<(Option<Seq<char>>, Option<Seq<char>>), ProxyTestError>(
                (text_view(username_used), text_view(password_used)),
            ),
            Err(error) => test_credentials_spec(stored, proxy_url@, username, password) == Err::<
                (Option<Seq<char>>, Option<Seq<char>>),
                ProxyTestError,
            >(error),
        },
{
    let stored = match stored {
        Some(stored) => stored,
        None => {
            return Ok((resolve_credential(username, None), resolve_credential(password, None)));
        },
    };
    let unchanged = same_proxy_endpoint(stored.proxy_url.as_str(), proxy_url);
    if !unchanged && ((username.is_none() && stored.username.is_some()) || (password.is_none()
        && stored.password.is_some())) {
        return Err(ProxyTestError::CredentialsRequired);
    }
    let saved_username = if unchanged {
        Some(stored.username)
    } else {
        None
    };
    let saved_password = if unchanged {
        Some(stored.password)
    } else {
        None
    };
    Ok((resolve_credential(username, saved_username), resolve_credential(password, saved_password)))
}

/// How long a proxy endpoint is left alone after ip-api's rate limit: the
/// reported reset time, one minute when none was reported, clamped to
/// between one second and one day.
pub fn cooldown_seconds(reset_seconds: Option<u64>) -> (seconds: u64)
    ensures
        seconds == match reset_seconds {
            Some(reset) => if reset < 1 {
                1
            } else if reset > 86_400 {
                86_400
            } else {
                reset
            },
            None => 60,
        },
{
    let reset = match reset_seconds {
        Some(reset) => reset,
        None => 60,
    };
    if reset < 1 {
        1
    } else if reset > 86_400 {
        86_400
    } else {
        reset
    }
}

/// The location and network of the proxy's exit address, as ip-api.com
/// reports it. Latitude and longitude keep the JSON number's decimal text.
pub struct ProxyTestResponse {
    pub ip: String,
    pub continent: Option<String>,
    pub continent_code: Option<String>,
    pub country: Option<String>,
    pub country_code: Option<String>,
    pub region_code: Option<String>,
    pub region_name: Option<String>,
    pub city: Option<String>,
    pub district: Option<String>,
    pub postal_code: Option<String>,
    pub latitude: Option<String>,
    pub longitude: Option<String>,
    pub timezone: Option<String>,
    pub utc_offset_seconds: Option<i32>,
    pub currency: Option<String>,
    pub isp: Option<String>,
    pub organization: Option<String>,
    pub autonomous_system: Option<String>,
    pub autonomous_system_name: Option<String>,
    pub mobile: Option<bool>,
    pub proxy: Option<bool>,
    pub hosting: Option<bool>,
    pub latency_ms: u64,
    pub rate_limit_remaining: Option<u32>,
    pub rate_limit_reset_seconds: Option<u64>,
}

/// An optional JSON number field, as `serde` reads it into an `f64`: the
/// number's decimal text.
pub open spec fn optional_number_field(value: Option<Json>) -> Result<Option<Seq<char>>, ()> {
    match value {
        None => Ok(None),
        Some(Json::Null) => Ok(None),
        Some(Json::Number(number)) => Ok(Some(number.text@)),
        Some(_) => Err(()),
    }
}

/// Whether the optional text field `key` is a string, `null` or missing.
pub open spec fn text_ok(value: Json, key: Seq<char>) -> bool {
    optional_text_field(get_spec(value, key)) is Ok
}

/// Whether an ip-api answer has the field types its schema demands: an
/// object with a string `status`, optional strings, numbers, an `i32`
/// offset and booleans.
pub open spec fn ip_api_well_typed(value: Json) -> bool {
    &&& value is Object
    &&& get_spec(value, "status"@) matches Some(Json::Str(_))
    &&& text_ok(value, "message"@) && text_ok(value, "query"@) && text_ok(value, "continent"@)
    &&& text_ok(value, "continentCode"@) && text_ok(value, "country"@) && text_ok(value, "countryCode"@)
    &&& text_ok(value, "region"@) && text_ok(value, "regionName"@) && text_ok(value, "city"@)
    &&& text_ok(value, "district"@) && text_ok(value, "zip"@) && text_ok(value, "timezone"@)
    &&& text_ok(value, "currency"@) && text_ok(value, "isp"@) && text_ok(value, "org"@)
    &&& text_ok(value, "as"@) && text_ok(value, "asname"@)
    &&& optional_number_field(get_spec(value, "lat"@)) is Ok
    &&& optional_number_field(get_spec(value, "lon"@)) is Ok
    &&& optional_integer_field(get_spec(value, "offset"@), i32::MIN as int, i32::MAX as int) is Ok
    &&& optional_bool_field(get_spec(value, "mobile"@)) is Ok
    &&& optional_bool_field(get_spec(value, "proxy"@)) is Ok
    &&& optional_bool_field(get_spec(value, "hosting"@)) is Ok
}

/// What `std`'s `IpAddr` parser accepts of a text, written back in its
/// canonical form (`to_string`).
pub uninterp spec fn canonical_ip_text(text: Seq<char>) -> Option<Seq<char>>;

/// Parses an IP address with `core::net::IpAddr::from_str` and writes it
/// back with `to_string`; the contract only names the result.
#[verifier::external_body]
fn canonical_ip(text: &str) -> (ip: Option<String>)
    ensures
        text_view(ip) == canonical_ip_text(text@),
{
    text.parse::<core::net::IpAddr>().ok().map(|ip| ip.to_string())
}

/// A text field of a well-typed answer.
pub open spec fn ip_api_text(value: Json, key: Seq<char>) -> Option<Seq<char>> {
    match optional_text_field(get_spec(value, key)) {
        Ok(text) => text,
        Err(()) => None,
    }
}

/// Whether an answer reports a successful lookup.
pub open spec fn lookup_succeeded(value: Json) -> bool {
    get_spec(value, "status"@) matches Some(Json::Str(status)) && status@ == "success"@
}

/// What an ip-api answer yields: a body that is not a well-typed answer is
/// invalid; a failed lookup means the provider is unavailable; a
/// successful one must name a valid IP address (after trimming), given in
/// canonical form.
pub open spec fn ip_lookup_spec(body: Seq<u8>) -> Result<Seq<char>, ProxyTestError> {
    match parsed_json(body) {
        Some(value) => if !ip_api_well_typed(value) {
            Err(ProxyTestError::InvalidResponse)
        } else if !lookup_succeeded(value) {
            Err(ProxyTestError::ProviderUnavailable)
        } else {
            match ip_api_text(value, "query"@) {
                Some(query) => match canonical_ip_text(trim_spec(query)) {
                    Some(ip) => Ok(ip),
                    None => Err(ProxyTestError::InvalidResponse),
                },
                None => Err(ProxyTestError::InvalidResponse),
            }
        },
        None => Err(ProxyTestError::InvalidResponse),
    }
}

/// The fields of a response taken from a well-typed answer: text fields
/// cleaned, numbers as their decimal text, the offset and flags as given.
pub open spec fn ip_api_fields_match(value: Json, response: ProxyTestResponse) -> bool {
    &&& text_view(response.continent) == cleaned(ip_api_text(value, "continent"@))
    &&& text_view(response.continent_code) == cleaned(ip_api_text(value, "continentCode"@))
    &&& text_view(response.country) == cleaned(ip_api_text(value, "country"@))
    &&& text_view(response.country_code) == cleaned(ip_api_text(value, "countryCode"@))
    &&& text_view(response.region_code) == cleaned(ip_api_text(value, "region"@))
    &&& text_view(response.region_name) == cleaned(ip_api_text(value, "regionName"@))
    &&& text_view(response.city) == cleaned(ip_api_text(value, "city"@))
    &&& text_view(response.district) == cleaned(ip_api_text(value, "district"@))
    &&& text_view(response.postal_code) == cleaned(ip_api_text(value, "zip"@))
    &&& optional_number_field(get_spec(value, "lat"@)) == Ok::<Option<Seq<char>>, ()>(text_view(response.latitude))
    &&& optional_number_field(get_spec(value, "lon"@)) == Ok::<Option<Seq<char>>, ()>(text_view(response.longitude))
    &&& text_view(response.timezone) == cleaned(ip_api_text(value, "timezone"@))
    &&& optional_integer_field(get_spec(value, "offset"@), i32::MIN as int, i32::MAX as int) == Ok::<
        Option<i64>,
        (),
    >(
        match response.utc_offset_seconds {
            Some(offset) => Some(offset as i64),
            None => None,
        },
    )
    &&& text_view(response.currency) == cleaned(ip_api_text(value, "currency"@))
    &&& text_view(response.isp) == cleaned(ip_api_text(value, "isp"@))
    &&& text_view(response.organization) == cleaned(ip_api_text(value, "org"@))
    &&& text_view(response.autonomous_system) == cleaned(ip_api_text(value, "as"@))
    &&& text_view(response.autonomous_system_name) == cleaned(ip_api_text(value, "asname"@))
    &&& optional_bool_field(get_spec(value, "mobile"@)) == Ok::<Option<bool>, ()>(response.mobile)
    &&& optional_bool_field(get_spec(value, "proxy"@)) == Ok::<Option<bool>, ()>(response.proxy)
    &&& optional_bool_field(get_spec(value, "hosting"@)) == Ok::<Option<bool>, ()>(response.hosting)
}

fn text_field(value: &Json, key: &str) -> (field: Result<Option<String>, ProxyTestError>)
    ensures
        match field {
            Ok(text) => optional_text_field(get_spec(*value, key@)) == Ok::<Option<Seq<char>>, ()>(
                text_view(text),
            ),
            Err(error) => !text_ok(*value, key@) && error == ProxyTestError::InvalidResponse,
        },
{
    match read_optional_text(json_get(value, key)) {
        Ok(text) => Ok(text),
        Err(()) => Err(ProxyTestError::InvalidResponse),
    }
}

fn number_field(value: &Json, key: &str) -> (field: Result<Option<String>, ProxyTestError>)
    ensures
        match field {
            Ok(text) => optional_number_field(get_spec(*value, key@)) == Ok::<Option<Seq<char>>, ()>(
                text_view(text),
            ),
            Err(error) => optional_number_field(get_spec(*value, key@)) is Err && error
                == ProxyTestError::InvalidResponse,
        },
{
    match json_get(value, key) {
        None => Ok(None),
        Some(Json::Null) => Ok(None),
        Some(Json::Number(number)) => Ok(Some(number.text.clone())),
        Some(_) => Err(ProxyTestError::InvalidResponse),
    }
}

fn bool_field(value: &Json, key: &str) -> (field: Result<Option<bool>, ProxyTestError>)
    ensures
        match field {
            Ok(flag) => optional_bool_field(get_spec(*value, key@)) == Ok::<Option<bool>, ()>(flag),
            Err(error) => optional_bool_field(get_spec(*value, key@)) is Err && error
                == ProxyTestError::InvalidResponse,
        },
{
    match read_optional_bool(json_get(value, key)) {
        Ok(flag) => Ok(flag),
        Err(()) => Err(ProxyTestError::InvalidResponse),
    }
}

/// Reads an ip-api answer into a proxy-test response.
pub fn parse_response(
    body: &[u8],
    latency_ms: u64,
    rate_limit_remaining: Option<u32>,
    rate_limit_reset_seconds: Option<u64>,
) -> (response: Result<ProxyTestResponse, ProxyTestError>)
    ensures
        match response {
            Ok(response) => {
                &&& ip_lookup_spec(body@) == Ok::<Seq<char>, ProxyTestError>(response.ip@)
                &&& parsed_json(body@) matches Some(value) && ip_api_fields_match(value, response)
                &&& response.latency_ms == latency_ms
                &&& response.rate_limit_remaining == rate_limit_remaining
                &&& response.rate_limit_reset_seconds == rate_limit_reset_seconds
            },
            Err(error) => ip_lookup_spec(body@) == Err::<Seq<char>, ProxyTestError>(error),
        },
{
    let value = match parse_json(body) {
        Some(value) => value,
        None => {
            return Err(ProxyTestError::InvalidResponse);
        },
    };
    if !matches!(value, Json::Object(_)) {
        return Err(ProxyTestError::InvalidResponse);
    }
    let status = match json_get(&value, "status") {
        Some(Json::Str(status)) => status,
        _ => {
            return Err(ProxyTestError::InvalidResponse);
        },
    };
    let _message = text_field(&value, "message")?;
    let query = text_field(&value, "query")?;
    let continent = text_field(&value, "continent")?;
    let continent_code = text_field(&value, "continentCode")?;
    let country = text_field(&value, "country")?;
    let country_code = text_field(&value, "countryCode")?;
    let region = text_field(&value, "region")?;
    let region_name = text_field(&value, "regionName")?;
    let city = text_field(&value, "city")?;
    let district = text_field(&value, "district")?;
    let postal_code = text_field(&value, "zip")?;
    let latitude = number_field(&value, "lat")?;
    let longitude = number_field(&value, "lon")?;
    let timezone = text_field(&value, "timezone")?;
    let offset = match read_optional_integer(json_get(&value, "offset"), i32::MIN as i64, i32::MAX as i64) {
        Ok(offset) => offset,
        Err(()) => {
            return Err(ProxyTestError::InvalidResponse);
        },
    };
    let currency = text_field(&value, "currency")?;
    let isp = text_field(&value, "isp")?;
    let organization = text_field(&value, "org")?;
    let autonomous_system = text_field(&value, "as")?;
    let autonomous_system_name = text_field(&value, "asname")?;
    let mobile = bool_field(&value, "mobile")?;
    let proxy = bool_field(&value, "proxy")?;
    let hosting = bool_field(&value, "hosting")?;
    if !str_eq(status.as_str(), "success") {
        return Err(ProxyTestError::ProviderUnavailable);
    }
    let ip = match query {
        Some(query) => match canonical_ip(trim(query.as_str())) {
            Some(ip) => ip,
            None => {
                return Err(ProxyTestError::InvalidResponse);
            },
        },
        None => {
            return Err(ProxyTestError::InvalidResponse);
        },
    };
    Ok(
        ProxyTestResponse {
            ip,
            continent: clean(continent),
            continent_code: clean(continent_code),
            country: clean(country),
            country_code: clean(country_code),
            region_code: clean(region),
            region_name: clean(region_name),
            city: clean(city),
            district: clean(district),
            postal_code: clean(postal_code),
            latitude,
            longitude,
            timezone: clean(timezone),
            utc_offset_seconds: match offset {
                Some(offset) => Some(offset as i32),
                None => None,
            },
            currency: clean(currency),
            isp: clean(isp),
            organization: clean(organization),
            autonomous_system: clean(autonomous_system),
            autonomous_system_name: clean(autonomous_system_name),
            mobile,
            proxy,
            hosting,
            latency_ms,
            rate_limit_remaining,
            rate_limit_reset_seconds,
        },
    )
}

/// The endpoints resting after ip-api's rate limit, each with the instant,
/// in nanoseconds of the process clock, until which it rests.
pub struct ProxyTestCooldowns {
    entries: Vec<(String, u128)>,
}

pub open spec fn cooldown_views(entries: Seq<(String, u128)>) -> Seq<(Seq<char>, u128)> {
    entries.map_values(|entry: (String, u128)| (entry.0@, entry.1))
}

/// The cooldowns, in order, that still run at `now`.
pub open spec fn running_cooldowns(cooldowns: Seq<(Seq<char>, u128)>, now: u128) -> Seq<(Seq<char>, u128)>
    decreases cooldowns.len(),
{
    if cooldowns.len() == 0 {
        cooldowns
    } else {
        let earlier = running_cooldowns(cooldowns.drop_last(), now);
        if cooldowns.last().1 > now {
            earlier.push(cooldowns.last())
        } else {
            earlier
        }
    }
}

/// The position of the first cooldown of an endpoint.
pub open spec fn cooldown_index(cooldowns: Seq<(Seq<char>, u128)>, key: Seq<char>) -> Option<int>
    decreases cooldowns.len(),
{
    if cooldowns.len() == 0 {
        None
    } else {
        match cooldown_index(cooldowns.drop_last(), key) {
            Some(index) => Some(index),
            None => if cooldowns.last().0 == key {
                Some(cooldowns.len() - 1)
            } else {
                None
            },
        }
    }
}

/// The cooldowns with an endpoint resting until `deadline`: its cooldown
/// is replaced, or added at the end.
pub open spec fn with_cooldown(cooldowns: Seq<(Seq<char>, u128)>, key: Seq<char>, deadline: u128) -> Seq<
    (Seq<char>, u128),
> {
    match cooldown_index(cooldowns, key) {
        Some(index) => cooldowns.update(index, (key, deadline)),
        None => cooldowns.push((key, deadline)),
    }
}

proof fn lemma_cooldown_index_prefix(cooldowns: Seq<(Seq<char>, u128)>, key: Seq<char>, n: int)
    requires
        0 <= n < cooldowns.len(),
        cooldown_index(cooldowns.take(n), key) is None,
        cooldowns[n].0 == key,
    ensures
        cooldown_index(cooldowns, key) == Some(n),
    decreases cooldowns.len() - n,
{
    if n + 1 < cooldowns.len() {
        assert(cooldowns.take(n + 1).drop_last() =~= cooldowns.take(n));
        lemma_cooldown_index_stable(cooldowns, key, n + 1);
    } else {
        assert(cooldowns.drop_last() =~= cooldowns.take(n));
    }
}

proof fn lemma_cooldown_index_stable(cooldowns: Seq<(Seq<char>, u128)>, key: Seq<char>, n: int)
    requires
        0 < n <= cooldowns.len(),
        cooldown_index(cooldowns.take(n), key) is Some,
    ensures
        cooldown_index(cooldowns, key) == cooldown_index(cooldowns.take(n), key),
    decreases cooldowns.len() - n,
{
    if n < cooldowns.len() {
        assert(cooldowns.take(n + 1).drop_last() =~= cooldowns.take(n));
        lemma_cooldown_index_stable(cooldowns, key, n + 1);
    } else {
        assert(cooldowns.take(n) =~= cooldowns);
    }
}

impl View for ProxyTestCooldowns {
    type V = Seq<(Seq<char>, u128)>;

    closed spec fn view(&self) -> Seq<(Seq<char>, u128)> {
        cooldown_views(self.entries@)
    }
}

impl ProxyTestCooldowns {
    /// No endpoint resting.
    pub fn new() -> (cooldowns: Self)
        ensures
            cooldowns@ == Seq::<(Seq<char>, u128)>::empty(),
    {
        let cooldowns = ProxyTestCooldowns { entries: Vec::new() };
        assert(cooldowns@ =~= Seq::<(Seq<char>, u128)>::empty());
        cooldowns
    }

    /// Forgets the cooldowns that have ended, then refuses an endpoint
    /// that is still resting.
    pub fn ensure_not_rate_limited(&mut self, key: &str, now: u128) -> (allowed: Result<(), ProxyTestError>)
        ensures
            final(self)@ == running_cooldowns(old(self)@, now),
            allowed == if exists|i: int| 0 <= i < final(self)@.len() && (#[trigger] final(self)@[i]).0 == key@ {
                Err::<(), ProxyTestError>(ProxyTestError::RateLimited)
            } else {
                Ok(())
            },
    {
        let ghost before = self@;
        let mut kept: Vec<(String, u128)> = Vec::new();
        let mut found = false;
        let mut index: usize = 0;
        assert(before.take(0) =~= Seq::<(Seq<char>, u128)>::empty());
        while index < self.entries.len()
            invariant
                index <= before.len(),
                before == cooldown_views(self.entries@),
                cooldown_views(kept@) == running_cooldowns(before.take(index as int), now),
                found == exists|i: int| 0 <= i < kept@.len() && (#[trigger] cooldown_views(kept@)[i]).0 == key@,
            decreases before.len() - index,
        {
            assert(before.take(index + 1).drop_last() =~= before.take(index as int));
            assert(before[index as int] == (self.entries@[index as int].0@, self.entries@[index as int].1));
            let entry = &self.entries[index];
            if entry.1 > now {
                let name = entry.0.clone();
                let matches = str_eq(name.as_str(), key);
                let ghost old_kept = cooldown_views(kept@);
                kept.push((name, entry.1));
                assert(cooldown_views(kept@) =~= old_kept.push(before[index as int]));
                proof {
                    if found {
                        let i = choose|i: int| 0 <= i < old_kept.len() && (#[trigger] old_kept[i]).0 == key@;
                        assert(cooldown_views(kept@)[i] == old_kept[i]);
                    } else if !matches {
                        assert forall|i: int| 0 <= i < kept@.len() implies (#[trigger] cooldown_views(kept@)[i]).0
                            != key@ by {
                            if i < old_kept.len() {
                                assert(cooldown_views(kept@)[i] == old_kept[i]);
                            }
                        }
                    } else {
                        assert(cooldown_views(kept@)[old_kept.len() as int].0 == key@);
                    }
                }
                found = found || matches;
            }
            index += 1;
        }
        assert(before.take(before.len() as int) =~= before);
        self.entries = kept;
        if found {
            Err(ProxyTestError::RateLimited)
        } else {
            Ok(())
        }
    }

    /// Rests an endpoint after ip-api's rate limit, for the clamped reset
    /// time; a deadline past the clock's range is not recorded.
    pub fn record_cooldown(&mut self, key: String, reset_seconds: Option<u64>, now: u128)
        ensures
            ({
                let deadline = now + cooldown_seconds_spec(reset_seconds) * 1_000_000_000;
                if deadline <= u128::MAX {
                    final(self)@ == with_cooldown(old(self)@, key@, deadline as u128)
                } else {
                    final(self)@ == old(self)@
                }
            }),
    {
        let seconds = cooldown_seconds(reset_seconds);
        let nanos = seconds as u128 * 1_000_000_000;
        if now > u128::MAX - nanos {
            return;
        }
        let deadline = now + nanos;
        let ghost before = self@;
        let mut index: usize = 0;
        assert(before.take(0) =~= Seq::<(Seq<char>, u128)>::empty());
        while index < self.entries.len()
            invariant_except_break
                index <= before.len(),
                before == cooldown_views(self.entries@),
                cooldown_index(before.take(index as int), key@) is None,
            ensures
                index <= before.len(),
                before == cooldown_views(self.entries@),
                cooldown_index(before.take(index as int), key@) is None,
                index < before.len() ==> before[index as int].0 == key@,
                index == before.len() ==> before.take(index as int) == before,
            decreases before.len() - index,
        {
            assert(before[index as int] == (self.entries@[index as int].0@, self.entries@[index as int].1));
            if str_eq(self.entries[index].0.as_str(), key.as_str()) {
                break;
            }
            assert(before.take(index + 1).drop_last() =~= before.take(index as int));
            index += 1;
            if index == self.entries.len() {
                assert(before.take(index as int) =~= before);
            }
        }
        let ghost name = key@;
        if index < self.entries.len() {
            proof {
                lemma_cooldown_index_prefix(before, name, index as int);
            }
            self.entries.set(index, (key, deadline));
            assert(self@ =~= before.update(index as int, (name, deadline)));
        } else {
            self.entries.push((key, deadline));
            assert(self@ =~= before.push((name, deadline)));
        }
    }
}

/// The clamped rest of an endpoint, in seconds.
pub open spec fn cooldown_seconds_spec(reset_seconds: Option<u64>) -> u64 {
    match reset_seconds {
        Some(reset) => if reset < 1 {
            1
        } else if reset > 86_400 {
            86_400
        } else {
            reset
        },
        None => 60,
    }
}

} // verus!
