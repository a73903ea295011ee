//! Console authentication input rules: credential and profile validation,
//! session user-agent normalization, and the failed-attempt limiter.

use vstd::prelude::*;
use vstd::string::{StrSliceExecFns, StringExecFns, StringSliceAdditionalSpecFns};
use vstd::utf8::encode_utf8;

use crate::admission::UsdAmount;
use crate::codex::{sha256, sha256_digest};
use crate::text::{ascii_lower_text, to_ascii_lowercase};
use crate::unicode::{chars_of, is_whitespace, is_whitespace_spec, trim, trim_spec};

verus! {

pub const MIN_PASSWORD_BYTES: usize = 12;

pub const MAX_PASSWORD_BYTES: usize = 1024;

pub const MAX_EMAIL_BYTES: usize = 320;

pub const MAX_DISPLAY_NAME_BYTES: usize = 200;

pub const MIN_REGISTRATION_CODE_BYTES: usize = 12;

pub const MAX_REGISTRATION_CODE_BYTES: usize = 128;

pub const MAX_REGISTRATION_CODE_NAME_BYTES: usize = 100;

pub const MAX_SESSION_USER_AGENT_CHARS: usize = 512;

/// The failed-attempt window, in nanoseconds.
pub const AUTH_FAILURE_WINDOW_NANOS: u128 = 60_000_000_000;

pub const AUTH_FAILURE_LIMIT: u32 = 10;

#[derive(Clone, Copy, PartialEq, Eq, Debug)]
pub enum AuthError {
    Configuration,
    InvalidCredentials,
    InvalidToken,
    InvalidInvitation,
    InvalidRegistrationCode,
    RegistrationConflict,
    InvalidInput,
    RateLimited,
    Forbidden,
    NotFound,
    Repository,
}

/// The UTF-8 length of a text.
pub open spec fn byte_len(s: Seq<char>) -> nat {
    encode_utf8(s).len()
}

/// `u8::is_ascii_whitespace`: space, tab, line feed, form feed, carriage
/// return.
pub open spec fn is_ascii_whitespace_spec(byte: u8) -> bool {
    byte == 32 || byte == 9 || byte == 10 || byte == 12 || byte == 13
}

/// A session's user agent: trimmed, dropped when blank, and cut to its
/// first 512 characters.
pub open spec fn session_user_agent_spec(user_agent: Option<Seq<char>>) -> Option<Seq<char>> {
    match user_agent {
        None => None,
        Some(value) => {
            let trimmed = trim_spec(value);
            if trimmed.len() == 0 {
                None
            } else if trimmed.len() > MAX_SESSION_USER_AGENT_CHARS {
                Some(trimmed.take(MAX_SESSION_USER_AGENT_CHARS as int))
            } else {
                Some(trimmed)
            }
        },
    }
}

pub open spec fn optional_view(value: Option<String>) -> Option<Seq<char>> {
    match value {
        Some(value) => Some(value@),
        None => None,
    }
}

pub fn normalize_session_user_agent(user_agent: Option<String>) -> (normalized: Option<String>)
    ensures
        optional_view(normalized) == session_user_agent_spec(optional_view(user_agent)),
{
    let user_agent = match user_agent {
        Some(value) => value,
        None => {
            return None;
        },
    };
    let trimmed = trim(user_agent.as_str());
    if trimmed.is_empty() {
        return None;
    }
    let length = trimmed.unicode_len();
    let kept = if length > MAX_SESSION_USER_AGENT_CHARS {
        MAX_SESSION_USER_AGENT_CHARS
    } else {
        length
    };
    let head = trimmed.substring_char(0, kept);
    proof {
        if length <= MAX_SESSION_USER_AGENT_CHARS {
            assert(trimmed@.subrange(0, kept as int) =~= trimmed@);
        }
    }
    Some(head.to_owned())
}

/// A Console email: after trimming, non-empty, at most 320 bytes, no ASCII
/// whitespace, and containing `@`.
pub open spec fn valid_email(value: Seq<char>) -> bool {
    let trimmed = trim_spec(value);
    &&& trimmed.len() > 0
    &&& byte_len(trimmed) <= MAX_EMAIL_BYTES
    &&& forall|i: int|
        0 <= i < byte_len(trimmed) ==> !is_ascii_whitespace_spec(#[trigger] encode_utf8(trimmed)[i])
    &&& trimmed.contains('@')
}

pub fn validate_email(value: &str) -> (valid: Result<(), AuthError>)
    ensures
        valid == if valid_email(value@) {
            Ok::<(), AuthError>(())
        } else {
            Err(AuthError::InvalidInput)
        },
{
    let trimmed = trim(value);
    let bytes = trimmed.as_bytes();
    if trimmed.is_empty() || bytes.len() > MAX_EMAIL_BYTES {
        return Err(AuthError::InvalidInput);
    }
    let mut index: usize = 0;
    while index < bytes.len()
        invariant
            index <= bytes@.len(),
            bytes@ == encode_utf8(trimmed@),
            trimmed@ == trim_spec(value@),
            forall|i: int| 0 <= i < index ==> !is_ascii_whitespace_spec(#[trigger] bytes@[i]),
        decreases bytes@.len() - index,
    {
        let byte = bytes[index];
        if byte == 32 || byte == 9 || byte == 10 || byte == 12 || byte == 13 {
            assert(is_ascii_whitespace_spec(encode_utf8(trimmed@)[index as int]));
            return Err(AuthError::InvalidInput);
        }
        index += 1;
    }
    let chars = chars_of(trimmed);
    let mut position: usize = 0;
    while position < chars.len()
        invariant
            position <= chars@.len(),
            chars@ == trimmed@,
            trimmed@ == trim_spec(value@),
            trimmed@.len() > 0,
            byte_len(trimmed@) <= MAX_EMAIL_BYTES,
            forall|i: int|
                0 <= i < byte_len(trimmed@) ==> !is_ascii_whitespace_spec(#[trigger] encode_utf8(trimmed@)[i]),
            forall|i: int| 0 <= i < position ==> chars@[i] != '@',
        decreases chars@.len() - position,
    {
        if chars[position] == '@' {
            assert(trimmed@[position as int] == '@');
            return Ok(());
        }
        position += 1;
    }
    Err(AuthError::InvalidInput)
}

/// A display name is not blank and is at most 200 bytes.
pub fn validate_display_name(value: &str) -> (valid: Result<(), AuthError>)
    ensures
        valid == if trim_spec(value@).len() > 0 && byte_len(value@) <= MAX_DISPLAY_NAME_BYTES {
            Ok::<(), AuthError>(())
        } else {
            Err(AuthError::InvalidInput)
        },
{
    if trim(value).is_empty() || value.as_bytes().len() > MAX_DISPLAY_NAME_BYTES {
        return Err(AuthError::InvalidInput);
    }
    Ok(())
}

/// A password is between 12 and 1024 bytes long.
pub fn validate_password(value: &str) -> (valid: Result<(), AuthError>)
    ensures
        valid == if MIN_PASSWORD_BYTES <= byte_len(value@) <= MAX_PASSWORD_BYTES {
            Ok::<(), AuthError>(())
        } else {
            Err(AuthError::InvalidInput)
        },
{
    let length = value.as_bytes().len();
    if length < MIN_PASSWORD_BYTES || length > MAX_PASSWORD_BYTES {
        return Err(AuthError::InvalidInput);
    }
    Ok(())
}

/// A registration-code name is not blank and is at most 100 bytes.
pub fn validate_registration_invitation_code_name(value: &str) -> (valid: Result<(), AuthError>)
    ensures
        valid == if trim_spec(value@).len() > 0 && byte_len(value@)
            <= MAX_REGISTRATION_CODE_NAME_BYTES {
            Ok::<(), AuthError>(())
        } else {
            Err(AuthError::InvalidInput)
        },
{
    if trim(value).is_empty() || value.as_bytes().len() > MAX_REGISTRATION_CODE_NAME_BYTES {
        return Err(AuthError::InvalidInput);
    }
    Ok(())
}

/// A registration code's use limit must be positive and its initial
/// balance must not be negative.
pub fn validate_registration_invitation_code_settings(
    max_uses: Option<i64>,
    initial_balance_amount: UsdAmount,
) -> (valid: Result<(), AuthError>)
    ensures
        valid == if (max_uses matches Some(maximum) && maximum <= 0)
            || initial_balance_amount.mantissa < 0 {
            Err(AuthError::InvalidInput)
        } else {
            Ok::<(), AuthError>(())
        },
{
    let non_positive = match max_uses {
        Some(maximum) => maximum <= 0,
        None => false,
    };
    if non_positive || initial_balance_amount.mantissa < 0 {
        return Err(AuthError::InvalidInput);
    }
    Ok(())
}

/// A registration code after trimming: 12 to 128 bytes, with no whitespace.
pub open spec fn registration_code_spec(value: Seq<char>) -> Result<Seq<char>, AuthError> {
    let trimmed = trim_spec(value);
    if byte_len(trimmed) < MIN_REGISTRATION_CODE_BYTES || byte_len(trimmed)
        > MAX_REGISTRATION_CODE_BYTES || exists|i: int|
        0 <= i < trimmed.len() && is_whitespace_spec(#[trigger] trimmed[i]) {
        Err(AuthError::InvalidInput)
    } else {
        Ok(trimmed)
    }
}

pub fn normalize_registration_code(value: &str) -> (code: Result<String, AuthError>)
    ensures
        match (code, registration_code_spec(value@)) {
            (Ok(a), Ok(b)) => a@ == b,
            (Err(a), Err(b)) => a == b,
            _ => false,
        },
{
    let trimmed = trim(value);
    let length = trimmed.as_bytes().len();
    if length < MIN_REGISTRATION_CODE_BYTES || length > MAX_REGISTRATION_CODE_BYTES {
        return Err(AuthError::InvalidInput);
    }
    let chars = chars_of(trimmed);
    let mut index: usize = 0;
    while index < chars.len()
        invariant
            index <= chars@.len(),
            chars@ == trimmed@,
            trimmed@ == trim_spec(value@),
            forall|i: int| 0 <= i < index ==> !is_whitespace_spec(#[trigger] chars@[i]),
        decreases chars@.len() - index,
    {
        if is_whitespace(chars[index]) {
            assert(is_whitespace_spec(trimmed@[index as int]));
            return Err(AuthError::InvalidInput);
        }
        index += 1;
    }
    Ok(trimmed.to_owned())
}

pub open spec fn hex_digit(n: nat) -> char {
    if n < 10 {
        (48 + n) as char
    } else {
        (87 + n) as char
    }
}

/// Two lowercase hexadecimal digits per byte of the first eight bytes.
pub open spec fn hex_prefix_spec(hash: Seq<u8>) -> Seq<char>
    decreases hash.len(),
{
    if hash.len() == 0 {
        Seq::empty()
    } else {
        let head = hash.take(if hash.len() > 8 { 8int } else { hash.len() as int });
        let rest = head.drop_last();
        hex_prefix_spec(rest) + seq![hex_digit((head.last() / 16) as nat), hex_digit((head.last() % 16) as nat)]
    }
}

fn hex_digit_str(n: u8) -> (digit: &'static str)
    requires
        n < 16,
    ensures
        digit@ == seq![hex_digit(n as nat)],
{
    let digits = [
        "0", "1", "2", "3", "4", "5", "6", "7", "8", "9", "a", "b", "c", "d", "e", "f",
    ];
    proof {
        reveal_strlit("0");
        reveal_strlit("1");
        reveal_strlit("2");
        reveal_strlit("3");
        reveal_strlit("4");
        reveal_strlit("5");
        reveal_strlit("6");
        reveal_strlit("7");
        reveal_strlit("8");
        reveal_strlit("9");
        reveal_strlit("a");
        reveal_strlit("b");
        reveal_strlit("c");
        reveal_strlit("d");
        reveal_strlit("e");
        reveal_strlit("f");
    }
    digits[n as usize]
}

/// The lowercase hex rendering of the first eight bytes of a digest, used
/// to label limiter keys without exposing the digest.
pub fn limiter_hash_prefix(hash: &[u8]) -> (prefix: String)
    ensures
        prefix@ == hex_prefix_spec(hash@),
{
    let mut prefix = String::new();
    let count = if hash.len() > 8 {
        8
    } else {
        hash.len()
    };
    let mut index: usize = 0;
    while index < count
        invariant
            index <= count,
            count <= 8,
            count == if hash@.len() > 8 { 8 } else { hash@.len() },
            prefix@ == hex_prefix_spec(hash@.take(index as int)),
        decreases count - index,
    {
        let byte = hash[index];
        proof {
            let next = hash@.take(index + 1);
            assert(next.take(index + 1) =~= next);
            assert(next.drop_last() =~= hash@.take(index as int));
            assert(hash@.take(index as int).take(index as int) =~= hash@.take(index as int));
        }
        prefix.append(hex_digit_str(byte / 16));
        prefix.append(hex_digit_str(byte % 16));
        index += 1;
    }
    proof {
        if hash@.len() > 8 {
            assert(hash@.take(8).take(8) =~= hash@.take(8));
            assert(hash@.take(8) =~= hash@.take(8));
            lemma_hex_prefix_take(hash@);
        } else {
            assert(hash@.take(hash@.len() as int) =~= hash@);
        }
    }
    prefix
}

proof fn lemma_hex_prefix_take(hash: Seq<u8>)
    requires
        hash.len() > 8,
    ensures
        hex_prefix_spec(hash) == hex_prefix_spec(hash.take(8)),
{
    assert(hash.take(8).take(8) =~= hash.take(8));
}

/// The SHA-256 digest of an opaque token or registration code; only digests
/// are stored.
pub fn token_hash(value: &str) -> (hash: Vec<u8>)
    ensures
        hash@ == sha256(value.spec_bytes()),
{
    let digest = sha256_digest(value.as_bytes());
    let mut hash: Vec<u8> = Vec::new();
    let mut index: usize = 0;
    while index < 32
        invariant
            index <= 32,
            digest@.len() == 32,
            hash@ == digest@.take(index as int),
        decreases 32 - index,
    {
        hash.push(digest[index]);
        index += 1;
        assert(hash@ =~= digest@.take(index as int));
    }
    assert(digest@.take(32) =~= digest@);
    hash
}

/// A limiter key for an email: the prefix, then the trimmed email in ASCII
/// lowercase.
pub fn email_limiter_key(prefix: &str, email: &str) -> (key: String)
    ensures
        key@ == prefix@ + ascii_lower_text(trim_spec(email@)),
{
    let mut key = String::from_str(prefix);
    let tail = to_ascii_lowercase(trim(email));
    key.append(tail.as_str());
    key
}

/// A self-registration request.
pub struct SelfRegistrationInput {
    pub invitation_code: String,
    pub email: String,
    pub display_name: String,
    pub password: String,
}

/// What a valid self-registration uses before it reaches the repository:
/// the normalized code, its digest, and the two limiter keys.
pub struct RegistrationPlan {
    pub invitation_code: String,
    pub code_hash: Vec<u8>,
    pub email_limiter_key: String,
    pub code_limiter_key: String,
}

/// A self-registration is checked field by field (email, display name,
/// password, registration code), each failure being invalid input.
pub open spec fn registration_input_valid(input: SelfRegistrationInput) -> bool {
    &&& valid_email(input.email@)
    &&& trim_spec(input.display_name@).len() > 0 && byte_len(input.display_name@) <= MAX_DISPLAY_NAME_BYTES
    &&& MIN_PASSWORD_BYTES <= byte_len(input.password@) <= MAX_PASSWORD_BYTES
    &&& registration_code_spec(input.invitation_code@) is Ok
}

pub fn prepare_self_registration(input: &SelfRegistrationInput) -> (plan: Result<RegistrationPlan, AuthError>)
    ensures
        match plan {
            Ok(plan) => {
                &&& registration_input_valid(*input)
                &&& registration_code_spec(input.invitation_code@) == Ok::<Seq<char>, AuthError>(plan.invitation_code@)
                &&& plan.code_hash@ == sha256(encode_utf8(plan.invitation_code@))
                &&& plan.email_limiter_key@ == "registration:"@ + ascii_lower_text(trim_spec(input.email@))
                &&& plan.code_limiter_key@ == "registration-code:"@ + hex_prefix_spec(plan.code_hash@)
            },
            Err(error) => !registration_input_valid(*input) && error == AuthError::InvalidInput,
        },
{
    if validate_email(input.email.as_str()).is_err() {
        return Err(AuthError::InvalidInput);
    }
    if validate_display_name(input.display_name.as_str()).is_err() {
        return Err(AuthError::InvalidInput);
    }
    if validate_password(input.password.as_str()).is_err() {
        return Err(AuthError::InvalidInput);
    }
    let invitation_code = match normalize_registration_code(input.invitation_code.as_str()) {
        Ok(code) => code,
        Err(_) => {
            return Err(AuthError::InvalidInput);
        },
    };
    let code_hash = token_hash(invitation_code.as_str());
    let email_limiter_key = email_limiter_key("registration:", input.email.as_str());
    let mut code_limiter_key = String::from_str("registration-code:");
    let prefix = limiter_hash_prefix(code_hash.as_slice());
    code_limiter_key.append(prefix.as_str());
    Ok(RegistrationPlan { invitation_code, code_hash, email_limiter_key, code_limiter_key })
}

/// Failed attempts counted for one limiter key.
#[derive(Clone, Copy, PartialEq, Eq, Debug)]
pub struct AuthFailureWindow {
    pub started_at: u128,
    pub failures: u32,
}

/// Counts failed authentication attempts per key within a window that
/// starts at the key's first counted failure.
pub struct AuthFailureLimiter {
    windows: Vec<(String, AuthFailureWindow)>,
}

/// A window is still open at `now` while less than the window length has
/// elapsed since it started (a clock reading before the start counts as
/// no time elapsed).
pub open spec fn window_open(window: AuthFailureWindow, now: u128) -> bool {
    now < window.started_at + AUTH_FAILURE_WINDOW_NANOS
}

/// What is left of a window at `now`.
pub open spec fn live_window(window: Option<AuthFailureWindow>, now: u128) -> Option<AuthFailureWindow> {
    match window {
        Some(window) => if window_open(window, now) {
            Some(window)
        } else {
            None
        },
        None => None,
    }
}

pub open spec fn entries_view(entries: Seq<(String, AuthFailureWindow)>) -> Seq<(Seq<char>, AuthFailureWindow)> {
    entries.map_values(|entry: (String, AuthFailureWindow)| (entry.0@, entry.1))
}

pub open spec fn keys_unique(entries: Seq<(Seq<char>, AuthFailureWindow)>) -> bool {
    forall|i: int, j: int| 0 <= i < j < entries.len() ==> #[trigger] entries[i].0 != #[trigger] entries[j].0
}

/// The window counted for `key`, if any.
pub open spec fn window_of(entries: Seq<(Seq<char>, AuthFailureWindow)>, key: Seq<char>) -> Option<AuthFailureWindow>
    decreases entries.len(),
{
    if entries.len() == 0 {
        None
    } else if entries.last().0 == key {
        Some(entries.last().1)
    } else {
        window_of(entries.drop_last(), key)
    }
}

proof fn lemma_window_of_absent(entries: Seq<(Seq<char>, AuthFailureWindow)>, key: Seq<char>)
    ensures
        (window_of(entries, key) is None) <==> (forall|i: int| 0 <= i < entries.len() ==> #[trigger] entries[i].0 != key),
    decreases entries.len(),
{
    if entries.len() > 0 {
        let rest = entries.drop_last();
        lemma_window_of_absent(rest, key);
        assert forall|i: int| 0 <= i < rest.len() implies #[trigger] rest[i] == entries[i] by {}
        if window_of(entries, key) is None {
            assert forall|i: int| 0 <= i < entries.len() implies #[trigger] entries[i].0 != key by {
                if i < rest.len() {
                    assert(rest[i] == entries[i]);
                }
            }
        } else {
            if entries.last().0 != key {
                let i = choose|i: int| 0 <= i < rest.len() && #[trigger] rest[i].0 == key;
                assert(entries[i].0 == key);
            }
        }
    }
}

proof fn lemma_window_of_found(entries: Seq<(Seq<char>, AuthFailureWindow)>, index: int)
    requires
        keys_unique(entries),
        0 <= index < entries.len(),
    ensures
        window_of(entries, entries[index].0) == Some(entries[index].1),
    decreases entries.len(),
{
    if index < entries.len() - 1 {
        let rest = entries.drop_last();
        assert(entries[index].0 != entries[entries.len() - 1].0);
        assert(rest[index] == entries[index]);
        assert(keys_unique(rest)) by {
            assert forall|i: int, j: int| 0 <= i < j < rest.len() implies #[trigger] rest[i].0 != #[trigger] rest[j].0 by {
                assert(rest[i] == entries[i] && rest[j] == entries[j]);
            }
        }
        lemma_window_of_found(rest, index);
    }
}

proof fn lemma_unique_prefix(entries: Seq<(Seq<char>, AuthFailureWindow)>, count: int)
    requires
        keys_unique(entries),
        0 <= count <= entries.len(),
    ensures
        keys_unique(entries.take(count)),
        count < entries.len() ==> window_of(entries.take(count), entries[count].0) is None,
{
    let prefix = entries.take(count);
    assert forall|i: int, j: int| 0 <= i < j < prefix.len() implies #[trigger] prefix[i].0 != #[trigger] prefix[j].0 by {
        assert(prefix[i] == entries[i] && prefix[j] == entries[j]);
    }
    if count < entries.len() {
        assert forall|i: int| 0 <= i < prefix.len() implies #[trigger] prefix[i].0 != entries[count].0 by {
            assert(prefix[i] == entries[i]);
        }
        lemma_window_of_absent(prefix, entries[count].0);
    }
}

proof fn lemma_unique_push(entries: Seq<(Seq<char>, AuthFailureWindow)>, entry: (Seq<char>, AuthFailureWindow))
    requires
        keys_unique(entries),
        window_of(entries, entry.0) is None,
    ensures
        keys_unique(entries.push(entry)),
{
    lemma_window_of_absent(entries, entry.0);
    let pushed = entries.push(entry);
    assert forall|i: int, j: int| 0 <= i < j < pushed.len() implies #[trigger] pushed[i].0 != #[trigger] pushed[j].0 by {
        if j < entries.len() {
            assert(pushed[i] == entries[i] && pushed[j] == entries[j]);
        } else {
            assert(pushed[i] == entries[i]);
        }
    }
}

proof fn lemma_window_of_update(entries: Seq<(Seq<char>, AuthFailureWindow)>, index: int, window: AuthFailureWindow)
    requires
        keys_unique(entries),
        0 <= index < entries.len(),
    ensures
        keys_unique(entries.update(index, (entries[index].0, window))),
        forall|k: Seq<char>| #[trigger] window_of(entries.update(index, (entries[index].0, window)), k) == if k == entries[index].0 {
            Some(window)
        } else {
            window_of(entries, k)
        },
{
    let key = entries[index].0;
    let updated = entries.update(index, (key, window));
    assert forall|i: int, j: int| 0 <= i < j < updated.len() implies #[trigger] updated[i].0 != #[trigger] updated[j].0 by {
        assert(updated[i].0 == entries[i].0 && updated[j].0 == entries[j].0);
    }
    assert(updated[index] == (key, window));
    lemma_window_of_found(updated, index);
    assert forall|k: Seq<char>| k != key implies #[trigger] window_of(updated, k) == window_of(entries, k) by {
        lemma_window_of_absent(entries, k);
        lemma_window_of_absent(updated, k);
        if window_of(entries, k) is None {
            assert forall|i: int| 0 <= i < updated.len() implies #[trigger] updated[i].0 != k by {
                assert(updated[i].0 == entries[i].0);
            }
        } else {
            let i = choose|i: int| 0 <= i < entries.len() && #[trigger] entries[i].0 == k;
            lemma_window_of_found(entries, i);
            assert(updated[i] == entries[i]);
            lemma_window_of_found(updated, i);
        }
    }
}

impl AuthFailureLimiter {
    /// The windows, in the order they were opened.
    pub closed spec fn windows(&self) -> Seq<(Seq<char>, AuthFailureWindow)> {
        entries_view(self.windows@)
    }

    /// Each key has at most one window.
    pub closed spec fn wf(&self) -> bool {
        keys_unique(self.windows())
    }

    /// The window counted for a key.
    pub closed spec fn window(&self, key: Seq<char>) -> Option<AuthFailureWindow> {
        window_of(self.windows(), key)
    }

    pub fn new() -> (limiter: Self)
        ensures
            limiter.wf(),
            forall|key: Seq<char>| #[trigger] limiter.window(key) is None,
    {
        let limiter = AuthFailureLimiter { windows: Vec::new() };
        assert(limiter.windows() =~= Seq::<(Seq<char>, AuthFailureWindow)>::empty());
        limiter
    }

    fn position(&self, key: &str) -> (found: Option<usize>)
        requires
            self.wf(),
        ensures
            match found {
                Some(index) => index < self.windows@.len() && self.windows()[index as int].0 == key@
                    && window_of(self.windows(), key@) == Some(self.windows@[index as int].1),
                None => window_of(self.windows(), key@) is None,
            },
    {
        let ghost entries = self.windows();
        let mut index = self.windows.len();
        while index > 0
            invariant
                index <= self.windows@.len(),
                entries == self.windows(),
                entries.len() == self.windows@.len(),
                keys_unique(entries),
                forall|i: int| index <= i < entries.len() ==> #[trigger] entries[i].0 != key@,
            decreases index,
        {
            let entry = &self.windows[index - 1];
            assert(entries[index - 1] == (entry.0@, entry.1));
            if crate::text::str_eq(entry.0.as_str(), key) {
                proof {
                    lemma_window_of_found(entries, index - 1);
                }
                return Some(index - 1);
            }
            index -= 1;
        }
        proof {
            lemma_window_of_absent(entries, key@);
        }
        None
    }

    /// Whether another attempt may be made for `key` at `now`; expired
    /// windows are dropped first.
    pub fn allows(&mut self, key: &str, now: u128) -> (allowed: bool)
        requires
            old(self).wf(),
        ensures
            final(self).wf(),
            allowed == (match live_window(old(self).window(key@), now) {
                Some(window) => window.failures < AUTH_FAILURE_LIMIT,
                None => true,
            }),
            forall|k: Seq<char>| #[trigger] final(self).window(k) == live_window(old(self).window(k), now),
    {
        self.prune(now);
        let found = self.position(key);
        assert(self.window(key@) == window_of(self.windows(), key@));
        match found {
            Some(index) => self.windows[index].1.failures < AUTH_FAILURE_LIMIT,
            None => true,
        }
    }

    /// Counts a failed attempt for `key` at `now`: the first failure opens
    /// a window, later ones within it add to its count (saturating).
    pub fn record_failure(&mut self, key: &str, now: u128)
        requires
            old(self).wf(),
        ensures
            final(self).wf(),
            final(self).window(key@) == Some(match live_window(old(self).window(key@), now) {
                Some(window) => AuthFailureWindow {
                    started_at: window.started_at,
                    failures: if window.failures == u32::MAX {
                        window.failures
                    } else {
                        (window.failures + 1) as u32
                    },
                },
                None => AuthFailureWindow { started_at: now, failures: 1 },
            }),
            forall|k: Seq<char>| k != key@ ==> #[trigger] final(self).window(k) == live_window(old(self).window(k), now),
    {
        self.prune(now);
        let ghost pruned = self.windows();
        let ghost mid = *self;
        let found = self.position(key);
        assert(self.window(key@) == window_of(pruned, key@));
        match found {
            Some(index) => {
                let mut window = self.windows[index].1;
                if window.failures < u32::MAX {
                    window.failures = window.failures + 1;
                }
                let name = String::from_str(key);
                let ghost before = self.windows();
                self.windows.set(index, (name, window));
                proof {
                    assert(self.windows() =~= before.update(index as int, (before[index as int].0, window)));
                    lemma_window_of_update(before, index as int, window);
                }
            },
            None => {
                let ghost before = self.windows();
                let entry = (String::from_str(key), AuthFailureWindow { started_at: now, failures: 1 });
                self.windows.push(entry);
                proof {
                    assert(self.windows() =~= before.push((key@, entry.1)));
                    lemma_unique_push(before, (key@, entry.1));
                    assert(self.windows().drop_last() =~= before);
                }
            },
        }
        assert forall|k: Seq<char>| k != key@ implies #[trigger] self.window(k) == mid.window(k) by {}
    }

    /// Forgets the failures counted for `key`.
    pub fn clear(&mut self, key: &str)
        requires
            old(self).wf(),
        ensures
            final(self).wf(),
            final(self).window(key@) is None,
            forall|k: Seq<char>| k != key@ ==> #[trigger] final(self).window(k) == old(self).window(k),
    {
        let ghost original = self.windows();
        let mut kept: Vec<(String, AuthFailureWindow)> = Vec::new();
        let mut index: usize = 0;
        assert(entries_view(kept@) =~= Seq::<(Seq<char>, AuthFailureWindow)>::empty());
        while index < self.windows.len()
            invariant
                self.windows() == original,
                original.len() == self.windows@.len(),
                keys_unique(original),
                index <= original.len(),
                keys_unique(entries_view(kept@)),
                forall|k: Seq<char>| #[trigger] window_of(entries_view(kept@), k) == if k == key@ {
                    None
                } else {
                    window_of(original.take(index as int), k)
                },
            decreases original.len() - index,
        {
            let entry = &self.windows[index];
            proof {
                assert(original[index as int] == (entry.0@, entry.1));
                assert(original.take(index + 1).drop_last() =~= original.take(index as int));
                lemma_unique_prefix(original, index as int);
            }
            let ghost next = original.take(index + 1);
            let ghost kept_before = entries_view(kept@);
            assert(next.last() == original[index as int]);
            if !crate::text::str_eq(entry.0.as_str(), key) {
                let ghost before = entries_view(kept@);
                kept.push((String::from_str(entry.0.as_str()), entry.1));
                proof {
                    assert(entries_view(kept@) =~= before.push((entry.0@, entry.1)));
                    lemma_unique_push(before, (entry.0@, entry.1));
                    assert(entries_view(kept@).drop_last() =~= before);
                }
            }
            assert forall|k: Seq<char>| #[trigger] window_of(entries_view(kept@), k) == if k == key@ {
                None
            } else {
                window_of(next, k)
            } by {
                assert(next.drop_last() =~= original.take(index as int));
                assert(window_of(kept_before, k) == if k == key@ {
                    None
                } else {
                    window_of(original.take(index as int), k)
                });
                if entry.0@ != key@ {
                    assert(entries_view(kept@).drop_last() == kept_before);
                    assert(entries_view(kept@).last() == (entry.0@, entry.1));
                } else {
                    assert(entries_view(kept@) == kept_before);
                }
                if k == entry.0@ {
                    assert(window_of(next, k) == Some(entry.1));
                    assert(window_of(original.take(index as int), k) is None);
                } else {
                    assert(window_of(next, k) == window_of(original.take(index as int), k));
                }
            }
            index += 1;
        }
        proof {
            assert(original.take(original.len() as int) =~= original);
        }
        self.windows = kept;
    }

    /// Drops the windows that have expired at `now`.
    pub fn prune(&mut self, now: u128)
        requires
            old(self).wf(),
        ensures
            final(self).wf(),
            forall|k: Seq<char>| #[trigger] final(self).window(k) == live_window(old(self).window(k), now),
    {
        let ghost original = self.windows();
        let mut kept: Vec<(String, AuthFailureWindow)> = Vec::new();
        let mut index: usize = 0;
        assert(entries_view(kept@) =~= Seq::<(Seq<char>, AuthFailureWindow)>::empty());
        while index < self.windows.len()
            invariant
                self.windows() == original,
                original.len() == self.windows@.len(),
                keys_unique(original),
                index <= original.len(),
                keys_unique(entries_view(kept@)),
                forall|k: Seq<char>| #[trigger] window_of(entries_view(kept@), k) == live_window(window_of(original.take(index as int), k), now),
            decreases original.len() - index,
        {
            let entry = &self.windows[index];
            proof {
                assert(original[index as int] == (entry.0@, entry.1));
                assert(original.take(index + 1).drop_last() =~= original.take(index as int));
                lemma_unique_prefix(original, index as int);
            }
            let open = now < entry.1.started_at || now - entry.1.started_at < AUTH_FAILURE_WINDOW_NANOS;
            let ghost next = original.take(index + 1);
            let ghost kept_before = entries_view(kept@);
            assert(next.last() == original[index as int]);
            if open {
                let ghost before = entries_view(kept@);
                kept.push((String::from_str(entry.0.as_str()), entry.1));
                proof {
                    assert(entries_view(kept@) =~= before.push((entry.0@, entry.1)));
                    lemma_unique_push(before, (entry.0@, entry.1));
                    assert(entries_view(kept@).drop_last() =~= before);
                }
            }
            assert forall|k: Seq<char>| #[trigger] window_of(entries_view(kept@), k) == live_window(window_of(next, k), now) by {
                assert(next.drop_last() =~= original.take(index as int));
                assert(window_of(kept_before, k) == live_window(window_of(original.take(index as int), k), now));
                if window_open(entry.1, now) {
                    assert(entries_view(kept@).drop_last() == kept_before);
                    assert(entries_view(kept@).last() == (entry.0@, entry.1));
                } else {
                    assert(entries_view(kept@) == kept_before);
                }
                if k == entry.0@ {
                    assert(window_of(next, k) == Some(entry.1));
                    assert(window_of(original.take(index as int), k) is None);
                } else {
                    assert(window_of(next, k) == window_of(original.take(index as int), k));
                }
            }
            index += 1;
        }
        proof {
            assert(original.take(original.len() as int) =~= original);
        }
        self.windows = kept;
    }
}

/// A lowercase hexadecimal digit character.
pub open spec fn lower_hex_char(c: char) -> bool {
    ('0' <= c <= '9') || ('a' <= c <= 'f')
}

/// A fresh UUID in the simple format (`Uuid::new_v4().simple()`); it is
/// random, so the contract states only its shape: 32 lowercase
/// hexadecimal digits.
#[verifier::external_body]
fn random_uuid_simple() -> (text: String)
    ensures
        text@.len() == 32,
        forall|i: int| 0 <= i < 32 ==> lower_hex_char(#[trigger] text@[i]),
{
    uuid::Uuid::new_v4().simple().to_string()
}

/// What `uuid::Uuid::parse_str` reads from a text, as `as_u128`.
pub uninterp spec fn parsed_uuid(text: Seq<char>) -> Option<u128>;

/// Parses a UUID with `uuid::Uuid::parse_str`; besides naming the result,
/// the contract states that the canonical text of a UUID's bytes parses
/// back to the number those bytes spell, most significant first.
#[verifier::external_body]
fn parse_uuid(text: &str) -> (uuid: Option<u128>)
    ensures
        uuid == parsed_uuid(text@),
        forall|value: u128|
            #[trigger] crate::codex_attempt::uuid_chars(crate::codex_attempt::big_endian_bytes(value as nat, 16))
                == text@ ==> uuid == Some(value),
{
    uuid::Uuid::parse_str(text).ok().map(|uuid| uuid.as_u128())
}

proof fn lemma_big_endian_len(value: nat, n: nat)
    ensures
        crate::codex_attempt::big_endian_bytes(value, n).len() == n,
    decreases n,
{
    if n > 0 {
        lemma_big_endian_len(value / 256, (n - 1) as nat);
    }
}

/// A new opaque token for a record: the record's UUID, a dot, and a
/// 64-digit secret.
pub fn new_opaque_token(id: u128) -> (token: String)
    ensures
        exists|secret: Seq<char>|
            secret.len() == 64 && (forall|i: int| 0 <= i < 64 ==> lower_hex_char(#[trigger] secret[i])) && token@
                == crate::codex_attempt::uuid_chars(crate::codex_attempt::big_endian_bytes(id as nat, 16)) + "."@
                + secret,
{
    let bytes = crate::codex_attempt::big_endian(id, 16);
    proof {
        lemma_big_endian_len(id as nat, 16);
    }
    let mut array = [0u8; 16];
    let mut index: usize = 0;
    while index < 16
        invariant
            index <= 16,
            bytes@.len() == 16,
            forall|i: int| 0 <= i < index ==> array@[i] == bytes@[i],
        decreases 16 - index,
    {
        array[index] = bytes[index];
        index += 1;
    }
    assert(array@ =~= bytes@);
    let mut token = crate::codex_attempt::format_uuid(&array);
    let ghost prefix = token@;
    token.append(".");
    let first = random_uuid_simple();
    let second = random_uuid_simple();
    token.append(first.as_str());
    token.append(second.as_str());
    let ghost secret = first@ + second@;
    assert(token@ =~= prefix + "."@ + secret);
    assert forall|i: int| 0 <= i < 64 implies lower_hex_char(#[trigger] secret[i]) by {
        if i >= 32 {
            assert(secret[i] == second@[i - 32]);
        } else {
            assert(secret[i] == first@[i]);
        }
    }
    token
}

/// An invitation issued to a new user: what the repository recorded of it,
/// and the token handed to the invitee (only its digest is stored).
pub struct IssuedInvitation<Created> {
    pub created: Created,
    pub token: String,
}

/// What an invitation is stored as: its token and the token's digest.
pub struct InvitationToken {
    pub token: String,
    pub hash: Vec<u8>,
}

/// Why an invitation is refused before anything is stored, checked in this
/// order: only an administrator invites; the email and the display name
/// must be valid; the initial balance must not be negative.
pub open spec fn invitation_refusal(
    is_admin: bool,
    email: Seq<char>,
    display_name: Seq<char>,
    initial_balance_negative: bool,
) -> Option<AuthError> {
    if !is_admin {
        Some(AuthError::Forbidden)
    } else if !valid_email(email) {
        Some(AuthError::InvalidInput)
    } else if !(trim_spec(display_name).len() > 0 && byte_len(display_name) <= MAX_DISPLAY_NAME_BYTES) {
        Some(AuthError::InvalidInput)
    } else if initial_balance_negative {
        Some(AuthError::InvalidInput)
    } else {
        None
    }
}

/// Checks an invitation and makes its token: the invitation's UUID, a dot
/// and a fresh secret, and the digest under which it is stored.
pub fn prepare_invitation(
    is_admin: bool,
    email: &str,
    display_name: &str,
    initial_balance_negative: bool,
    invitation_id: u128,
) -> (prepared: Result<InvitationToken, AuthError>)
    ensures
        match prepared {
            Ok(issued) => {
                &&& invitation_refusal(is_admin, email@, display_name@, initial_balance_negative) is None
                &&& issued.hash@ == sha256(encode_utf8(issued.token@))
                &&& exists|secret: Seq<char>|
                    secret.len() == 64 && (forall|i: int| 0 <= i < 64 ==> lower_hex_char(#[trigger] secret[i]))
                        && issued.token@ == crate::codex_attempt::uuid_chars(
                        crate::codex_attempt::big_endian_bytes(invitation_id as nat, 16),
                    ) + "."@ + secret
            },
            Err(error) => invitation_refusal(is_admin, email@, display_name@, initial_balance_negative) == Some(
                error,
            ),
        },
{
    if !is_admin {
        return Err(AuthError::Forbidden);
    }
    if validate_email(email).is_err() {
        return Err(AuthError::InvalidInput);
    }
    if validate_display_name(display_name).is_err() {
        return Err(AuthError::InvalidInput);
    }
    if initial_balance_negative {
        return Err(AuthError::InvalidInput);
    }
    let token = new_opaque_token(invitation_id);
    let hash = token_hash(token.as_str());
    Ok(InvitationToken { token, hash })
}

/// The position of the first `.` in a text.
pub open spec fn first_dot(text: Seq<char>) -> Option<int> {
    if exists|i: int| 0 <= i < text.len() && text[i] == '.' {
        Some(choose|i: int| 0 <= i < text.len() && text[i] == '.' && forall|j: int| 0 <= j < i ==> text[j] != '.')
    } else {
        None
    }
}

/// An opaque token read back: the record's UUID before the first dot and
/// a secret of exactly 64 bytes after it.
pub open spec fn opaque_token_spec(value: Seq<char>) -> Option<(u128, Seq<char>)> {
    match first_dot(value) {
        None => None,
        Some(dot) => {
            let secret = value.skip(dot + 1);
            if secret.len() == 0 || encode_utf8(secret).len() != 64 {
                None
            } else {
                match parsed_uuid(value.take(dot)) {
                    Some(id) => Some((id, secret)),
                    None => None,
                }
            }
        },
    }
}

/// Reads an opaque token back into its record's UUID and its secret.
pub fn parse_opaque_token(value: &str) -> (parsed: Option<(u128, String)>)
    ensures
        match parsed {
            Some((id, secret)) => opaque_token_spec(value@) == Some((id, secret@)),
            None => opaque_token_spec(value@) is None,
        },
{
    let chars = chars_of(value);
    let mut dot: usize = 0;
    while dot < chars.len()
        invariant_except_break
            dot <= chars@.len(),
            chars@ == value@,
            forall|j: int| 0 <= j < dot ==> chars@[j] != '.',
        ensures
            dot <= chars@.len(),
            chars@ == value@,
            forall|j: int| 0 <= j < dot ==> chars@[j] != '.',
            dot < chars@.len() ==> chars@[dot as int] == '.',
        decreases chars@.len() - dot,
    {
        if chars[dot] == '.' {
            break;
        }
        dot += 1;
    }
    if dot == chars.len() {
        assert(first_dot(value@) is None);
        return None;
    }
    proof {
        assert(value@[dot as int] == '.');
        let chosen = choose|i: int| 0 <= i < value@.len() && value@[i] == '.' && forall|j: int| 0 <= j < i ==> value@[j] != '.';
        assert(0 <= chosen < value@.len() && value@[chosen] == '.' && forall|j: int| 0 <= j < chosen ==> value@[j] != '.');
        if chosen < dot {
            assert(chars@[chosen] != '.');
        }
        if chosen > dot {
            assert(value@[dot as int] != '.');
        }
        assert(first_dot(value@) == Some(dot as int));
    }
    let id = crate::text::string_from_chars(vstd::slice::slice_subrange(chars.as_slice(), 0, dot));
    let secret = crate::text::string_from_chars(vstd::slice::slice_subrange(chars.as_slice(), dot + 1, chars.len()));
    assert(id@ =~= value@.take(dot as int));
    assert(secret@ =~= value@.skip(dot + 1));
    if secret.as_str().is_empty() || secret.as_str().as_bytes().len() != 64 {
        return None;
    }
    match parse_uuid(id.as_str()) {
        Some(uuid) => Some((uuid, secret)),
        None => None,
    }
}

/// Whether a password matches an encoded Argon2 hash: what
/// `argon2::Argon2::default().verify_password` decides once
/// `argon2::PasswordHash::new` has read the hash; nothing when the hash
/// does not read.
pub uninterp spec fn argon2_verifies(password: Seq<char>, encoded: Seq<char>) -> Option<bool>;

/// What `Argon2::default().hash_password` writes (`PasswordHash::to_string`)
/// for a password under a base64 salt; nothing when the salt does not read
/// or hashing fails.
pub uninterp spec fn argon2_hash_text(password: Seq<char>, salt: Seq<char>) -> Option<Seq<char>>;

/// A fresh random salt from `SaltString::generate` with the operating
/// system's generator; it is random, so nothing is stated of it.
#[verifier::external_body]
fn random_salt() -> (salt: String) {
    argon2::password_hash::SaltString::generate(&mut argon2::password_hash::rand_core::OsRng).as_str().to_owned()
}

/// Hashes a password with the default Argon2 parameters under a salt
/// (`SaltString::from_b64`, then `PasswordHasher::hash_password`). Besides
/// naming the result, the contract states that the hash verifies the
/// password it was made of, as `PasswordVerifier::verify_password`
/// recomputes the hash with the parameters and salt the text carries.
#[verifier::external_body]
fn argon2_hash(password: &str, salt: &str) -> (hash: Option<String>)
    ensures
        match hash {
            Some(encoded) => argon2_hash_text(password@, salt@) == Some(encoded@) && argon2_verifies(
                password@,
                encoded@,
            ) == Some(true),
            None => argon2_hash_text(password@, salt@) is None,
        },
{
    let salt = argon2::password_hash::SaltString::from_b64(salt).ok()?;
    argon2::PasswordHasher::hash_password(&argon2::Argon2::default(), password.as_bytes(), &salt)
        .ok()
        .map(|hash| hash.to_string())
}

/// Checks a password against an encoded hash with `PasswordHash::new` and
/// `PasswordVerifier::verify_password`; the contract only names the
/// result.
#[verifier::external_body]
fn argon2_verify(password: &str, encoded: &str) -> (verified: Option<bool>)
    ensures
        verified == argon2_verifies(password@, encoded@),
{
    let parsed = argon2::PasswordHash::new(encoded).ok()?;
    Some(argon2::PasswordVerifier::verify_password(&argon2::Argon2::default(), password.as_bytes(), &parsed).is_ok())
}

/// Hashes a new Console password: a password of the wrong length is
/// invalid input; the hash, when hashing succeeds, verifies the password.
pub fn hash_console_password(password: &str) -> (hash: Result<String, AuthError>)
    ensures
        match hash {
            Ok(encoded) => MIN_PASSWORD_BYTES <= byte_len(password@) <= MAX_PASSWORD_BYTES && argon2_verifies(
                password@,
                encoded@,
            ) == Some(true),
            Err(error) => if MIN_PASSWORD_BYTES <= byte_len(password@) <= MAX_PASSWORD_BYTES {
                error == AuthError::Configuration
            } else {
                error == AuthError::InvalidInput
            },
        },
{
    validate_password(password)?;
    let salt = random_salt();
    match argon2_hash(password, salt.as_str()) {
        Some(encoded) => Ok(encoded),
        None => Err(AuthError::Configuration),
    }
}

/// Checks a login password: an account without a password never matches;
/// a stored hash that does not read is a configuration error.
pub fn verify_password(password: &str, encoded: Option<&str>) -> (verified: Result<bool, AuthError>)
    ensures
        verified == match encoded {
            None => Ok::<bool, AuthError>(false),
            Some(encoded) => match argon2_verifies(password@, encoded@) {
                Some(matches) => Ok(matches),
                None => Err(AuthError::Configuration),
            },
        },
{
    let encoded = match encoded {
        Some(encoded) => encoded,
        None => {
            return Ok(false);
        },
    };
    match argon2_verify(password, encoded) {
        Some(matches) => Ok(matches),
        None => Err(AuthError::Configuration),
    }
}

} // verus!
