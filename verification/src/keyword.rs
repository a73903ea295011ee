//! Matching configured error keywords across upstream response chunks
//! without retaining more than a small rolling window.

use vstd::prelude::*;
use vstd::string::{StringExecFns, StringSliceAdditionalSpecFns};
use vstd::utf8::decode_utf8;

use crate::error_text::{char_width, char_width_of, lemma_encode_push, utf8_len};
use crate::text::str_eq;
use crate::unicode::chars_of;

verus! {

/// Error-response bytes inspected for keywords; they are kept only in
/// memory while a response is forwarded.
pub const ERROR_KEYWORD_SCAN_LIMIT_BYTES: usize = 65536;

/// The smallest rolling window, in bytes.
pub const MIN_ROLLING_WINDOW_BYTES: usize = 16;

/// When a channel is disabled automatically.
pub struct AutomaticDisableSettings {
    enabled: bool,
    error_status_codes: Vec<u16>,
    error_message_keywords: Vec<String>,
}

impl AutomaticDisableSettings {
    pub fn new(enabled: bool, error_status_codes: Vec<u16>, error_message_keywords: Vec<String>) -> (settings: Self)
        ensures
            settings.is_enabled() == enabled,
            settings.status_codes() == error_status_codes@,
            settings.keywords() == error_message_keywords@.map_values(|keyword: String| keyword@),
    {
        AutomaticDisableSettings { enabled, error_status_codes, error_message_keywords }
    }

    pub closed spec fn is_enabled(&self) -> bool {
        self.enabled
    }

    pub closed spec fn status_codes(&self) -> Seq<u16> {
        self.error_status_codes@
    }

    pub closed spec fn keywords(&self) -> Seq<Seq<char>> {
        self.error_message_keywords@.map_values(|keyword: String| keyword@)
    }

    pub fn enabled(&self) -> (enabled: bool)
        ensures
            enabled == self.is_enabled(),
    {
        self.enabled
    }

    pub fn error_status_codes(&self) -> (codes: &[u16])
        ensures
            codes@ == self.status_codes(),
    {
        self.error_status_codes.as_slice()
    }

    /// Whether automatic disabling is on and `status` is one of the
    /// configured error statuses.
    pub fn matches_status(&self, status: u16) -> (matches: bool)
        ensures
            matches == (self.is_enabled() && self.status_codes().contains(status)),
    {
        if !self.enabled {
            return false;
        }
        let mut index: usize = 0;
        while index < self.error_status_codes.len()
            invariant
                index <= self.error_status_codes@.len(),
                self.enabled,
                forall|i: int| 0 <= i < index ==> self.error_status_codes@[i] != status,
            decreases self.error_status_codes@.len() - index,
        {
            if self.error_status_codes[index] == status {
                assert(self.error_status_codes@[index as int] == status);
                return true;
            }
            index += 1;
        }
        false
    }

    pub fn error_message_keywords(&self) -> (keywords: &[String])
        ensures
            keywords@.map_values(|keyword: String| keyword@) == self.keywords(),
    {
        self.error_message_keywords.as_slice()
    }
}

/// Why a channel is disabled.
#[derive(Clone, Debug, PartialEq, Eq)]
pub enum AutomaticDisableTrigger {
    HttpStatus(u16),
    ErrorMessageKeyword(String),
}

/// What `str::to_lowercase` gives for a text (full Unicode lowercasing).
pub uninterp spec fn lowercase_text(text: Seq<char>) -> Seq<char>;

/// Lowercases with `str::to_lowercase`; the contract only names the
/// result.
#[verifier::external_body]
fn lowercase(text: &str) -> (lowered: String)
    ensures
        lowered@ == lowercase_text(text@),
{
    text.to_lowercase()
}

/// What `std::str::from_utf8` reports for bytes that are not UTF-8:
/// `Utf8Error::valid_up_to` and `Utf8Error::error_len`; nothing for valid
/// UTF-8.
pub uninterp spec fn utf8_error(bytes: Seq<u8>) -> Option<(nat, Option<nat>)>;

/// Checks bytes with `std::str::from_utf8`. As std documents it: valid
/// bytes are the text they encode; otherwise the error gives how many
/// leading bytes are valid (they decode on their own), and, when an
/// invalid sequence rather than the end of input was met, its length (one
/// to three bytes).
#[verifier::external_body]
pub(crate) fn check_utf8(bytes: &[u8]) -> (checked: Result<String, (usize, Option<usize>)>)
    ensures
        match checked {
            Ok(text) => utf8_error(bytes@) is None && text@ == decode_utf8(bytes@),
            Err((valid, invalid)) => {
                &&& utf8_error(bytes@) == Some(
                    (
                        valid as nat,
                        match invalid {
                            Some(length) => Some(length as nat),
                            None => None,
                        },
                    ),
                )
                &&& valid <= bytes@.len()
                &&& utf8_error(bytes@.take(valid as int)) is None
                &&& invalid matches Some(length) ==> 1 <= length <= 3 && valid + length <= bytes@.len()
            },
        },
{
    match std::str::from_utf8(bytes) {
        Ok(text) => Ok(text.to_owned()),
        Err(error) => Err((error.valid_up_to(), error.error_len())),
    }
}

/// `needle` occurs in `haystack`.
pub open spec fn contains_text(haystack: Seq<char>, needle: Seq<char>) -> bool {
    exists|i: int| 0 <= i <= haystack.len() - needle.len() && #[trigger] haystack.subrange(i, i + needle.len()) == needle
}

/// The first configured keyword whose lowercase form occurs in `text`.
pub open spec fn first_keyword_in(keywords: Seq<(Seq<char>, Seq<char>)>, text: Seq<char>) -> Option<Seq<char>>
    decreases keywords.len(),
{
    if keywords.len() == 0 {
        None
    } else if contains_text(text, keywords[0].1) {
        Some(keywords[0].0)
    } else {
        first_keyword_in(keywords.drop_first(), text)
    }
}

/// The longest suffix of `text` that fits in `maximum` bytes.
pub open spec fn suffix_within(text: Seq<char>, maximum: nat) -> Seq<char>
    decreases text.len(),
{
    if utf8_len(text) <= maximum || text.len() == 0 {
        text
    } else {
        suffix_within(text.drop_first(), maximum)
    }
}

/// Text appended to the rolling window: the keyword it now contains, and
/// the window cut back to its limit.
pub open spec fn match_step(
    keywords: Seq<(Seq<char>, Seq<char>)>,
    limit: nat,
    rolling: Seq<char>,
    text: Seq<char>,
) -> (Seq<char>, Option<Seq<char>>) {
    let appended = rolling + lowercase_text(text);
    (suffix_within(appended, limit), first_keyword_in(keywords, appended))
}

/// Decodes the pending bytes: valid text is matched, invalid sequences are
/// skipped, an incomplete final sequence waits for the next chunk; a match
/// clears what is pending.
pub open spec fn scan_pending(
    keywords: Seq<(Seq<char>, Seq<char>)>,
    limit: nat,
    rolling: Seq<char>,
    pending: Seq<u8>,
) -> (Seq<char>, Seq<u8>, Option<Seq<char>>)
    decreases pending.len(),
{
    match utf8_error(pending) {
        None => {
            let (rolling, matched) = match_step(keywords, limit, rolling, decode_utf8(pending));
            (rolling, Seq::empty(), matched)
        },
        Some((valid, invalid)) => {
            let (rolling, matched) = if valid > 0 {
                match_step(keywords, limit, rolling, decode_utf8(pending.take(valid as int)))
            } else {
                (rolling, None)
            };
            if matched is Some {
                (rolling, Seq::empty(), matched)
            } else {
                match invalid {
                    // `from_utf8` reports invalid sequences of one to three
                    // bytes inside the input; the guard only keeps this
                    // definition total.
                    Some(length) => if 1 <= length && valid + length <= pending.len() {
                        scan_pending(keywords, limit, rolling, pending.skip((valid + length) as int))
                    } else {
                        (rolling, pending, None)
                    },
                    None => (rolling, pending.skip(valid as int), None),
                }
            }
        },
    }
}

/// The keyword scanner's state: the configured and lowercased keywords,
/// undecoded bytes, the rolling window, its limit, and how many bytes may
/// still be inspected.
pub struct KeywordScanState {
    pub keywords: Seq<(Seq<char>, Seq<char>)>,
    pub carry: Seq<u8>,
    pub rolling: Seq<char>,
    pub rolling_limit: nat,
    pub remaining_bytes: nat,
}

/// One response chunk: up to the remaining budget is decoded and matched.
pub open spec fn keyword_observe_spec(state: KeywordScanState, chunk: Seq<u8>) -> (KeywordScanState, Option<Seq<char>>) {
    if state.remaining_bytes == 0 || chunk.len() == 0 {
        (state, None)
    } else {
        let accepted: nat = if chunk.len() <= state.remaining_bytes {
            chunk.len()
        } else {
            state.remaining_bytes
        };
        let (rolling, carry, matched) = scan_pending(
            state.keywords,
            state.rolling_limit,
            state.rolling,
            state.carry + chunk.take(accepted as int),
        );
        (
            KeywordScanState {
                carry,
                rolling,
                remaining_bytes: (state.remaining_bytes - accepted) as nat,
                ..state
            },
            matched,
        )
    }
}

/// Four times the longest lowercased keyword, in bytes, and at least 16.
pub open spec fn rolling_limit_spec(keywords: Seq<(Seq<char>, Seq<char>)>) -> nat
    decreases keywords.len(),
{
    if keywords.len() == 0 {
        MIN_ROLLING_WINDOW_BYTES as nat
    } else {
        let rest = rolling_limit_spec(keywords.drop_last());
        let length = utf8_len(keywords.last().1);
        let scaled: nat = if length * 4 > usize::MAX {
            usize::MAX as nat
        } else {
            length * 4
        };
        if scaled > rest {
            scaled
        } else {
            rest
        }
    }
}

pub struct ErrorKeywordMatcher {
    keywords: Vec<(String, String)>,
    carry: Vec<u8>,
    rolling: Vec<char>,
    rolling_bytes: usize,
    rolling_limit: usize,
    remaining_bytes: usize,
}

pub open spec fn keyword_pairs(keywords: Seq<(String, String)>) -> Seq<(Seq<char>, Seq<char>)> {
    keywords.map_values(|pair: (String, String)| (pair.0@, pair.1@))
}

impl View for ErrorKeywordMatcher {
    type V = KeywordScanState;

    closed spec fn view(&self) -> KeywordScanState {
        KeywordScanState {
            keywords: keyword_pairs(self.keywords@),
            carry: self.carry@,
            rolling: self.rolling@,
            rolling_limit: self.rolling_limit as nat,
            remaining_bytes: self.remaining_bytes as nat,
        }
    }
}

proof fn lemma_suffix_within_fits(text: Seq<char>, maximum: nat)
    ensures
        utf8_len(suffix_within(text, maximum)) <= maximum || suffix_within(text, maximum).len() == 0,
    decreases text.len(),
{
    if !(utf8_len(text) <= maximum || text.len() == 0) {
        lemma_suffix_within_fits(text.drop_first(), maximum);
    }
}

proof fn lemma_utf8_len_drop_first(text: Seq<char>)
    requires
        text.len() > 0,
    ensures
        utf8_len(text) == char_width(text[0]) + utf8_len(text.drop_first()),
{
    assert(text =~= seq![text[0]] + text.drop_first());
    crate::error_text::lemma_utf8_len_concat(seq![text[0]], text.drop_first());
    lemma_encode_push(Seq::<char>::empty(), text[0]);
    assert(Seq::<char>::empty().push(text[0]) =~= seq![text[0]]);
    crate::error_text::lemma_utf8_len_empty(Seq::<char>::empty());
}

impl ErrorKeywordMatcher {
    pub closed spec fn wf(&self) -> bool {
        &&& self.rolling_bytes == utf8_len(self.rolling@)
        &&& self.rolling_bytes <= self.rolling_limit
    }

    /// A matcher for the configured keywords; none when automatic disabling
    /// is off or no keyword is configured.
    pub fn new(settings: &AutomaticDisableSettings) -> (matcher: Option<Self>)
        ensures
            match matcher {
                Some(matcher) => {
                    &&& settings.is_enabled() && settings.keywords().len() > 0
                    &&& matcher.wf()
                    &&& matcher@ == (KeywordScanState {
                        keywords: settings.keywords().map_values(|keyword: Seq<char>| (keyword, lowercase_text(keyword))),
                        carry: Seq::empty(),
                        rolling: Seq::empty(),
                        rolling_limit: rolling_limit_spec(
                            settings.keywords().map_values(|keyword: Seq<char>| (keyword, lowercase_text(keyword))),
                        ),
                        remaining_bytes: ERROR_KEYWORD_SCAN_LIMIT_BYTES as nat,
                    })
                },
                None => !settings.is_enabled() || settings.keywords().len() == 0,
            },
    {
        let configured = settings.error_message_keywords();
        if !settings.enabled() || configured.len() == 0 {
            return None;
        }
        let ghost expected = settings.keywords().map_values(
            |keyword: Seq<char>| (keyword, lowercase_text(keyword)),
        );
        let mut keywords: Vec<(String, String)> = Vec::new();
        let mut limit: usize = MIN_ROLLING_WINDOW_BYTES;
        let mut index: usize = 0;
        while index < configured.len()
            invariant
                index <= configured@.len(),
                configured@.map_values(|keyword: String| keyword@) == settings.keywords(),
                expected == settings.keywords().map_values(
                    |keyword: Seq<char>| (keyword, lowercase_text(keyword)),
                ),
                keyword_pairs(keywords@) == expected.take(index as int),
                limit as nat == rolling_limit_spec(expected.take(index as int)),
            decreases configured@.len() - index,
        {
            let keyword = &configured[index];
            let normalized = lowercase(keyword.as_str());
            let length = normalized.as_str().as_bytes().len();
            let scaled = if length > usize::MAX / 4 {
                usize::MAX
            } else {
                length * 4
            };
            if scaled > limit {
                limit = scaled;
            }
            let ghost before = keyword_pairs(keywords@);
            keywords.push((String::from_str(keyword.as_str()), normalized));
            proof {
                assert(configured@.map_values(|keyword: String| keyword@)[index as int] == keyword@);
                assert(keyword_pairs(keywords@) =~= before.push((keyword@, lowercase_text(keyword@))));
                assert(expected.take(index + 1) =~= expected.take(index as int).push(
                    (keyword@, lowercase_text(keyword@)),
                ));
                assert(expected.take(index + 1).drop_last() =~= expected.take(index as int));
            }
            index += 1;
        }
        proof {
            assert(expected.take(configured@.len() as int) =~= expected);
            crate::error_text::lemma_utf8_len_empty(Seq::<char>::empty());
        }
        Some(
            ErrorKeywordMatcher {
                keywords,
                carry: Vec::new(),
                rolling: Vec::new(),
                rolling_bytes: 0,
                rolling_limit: limit,
                remaining_bytes: ERROR_KEYWORD_SCAN_LIMIT_BYTES,
            },
        )
    }

    fn occurs(haystack: &Vec<char>, needle: &Vec<char>) -> (found: bool)
        ensures
            found == contains_text(haystack@, needle@),
    {
        if needle.len() > haystack.len() {
            return false;
        }
        let mut start: usize = 0;
        while start <= haystack.len() - needle.len()
            invariant
                needle@.len() <= haystack@.len(),
                start <= haystack@.len() - needle@.len() + 1,
                forall|i: int| 0 <= i < start ==> #[trigger] haystack@.subrange(i, i + needle@.len()) != needle@,
            decreases haystack@.len() - needle@.len() + 1 - start,
        {
            let mut offset: usize = 0;
            let mut equal = true;
            while offset < needle.len()
                invariant
                    start + needle@.len() <= haystack@.len(),
                    haystack@.len() == haystack.len(),
                    offset <= needle@.len(),
                    equal == forall|k: int| 0 <= k < offset ==> haystack@[start + k] == needle@[k],
                decreases needle@.len() - offset,
            {
                assert(start + offset < haystack@.len());
                if haystack[start + offset] != needle[offset] {
                    equal = false;
                }
                offset += 1;
            }
            if equal {
                assert(haystack@.subrange(start as int, start + needle@.len()) =~= needle@);
                return true;
            }
            assert(haystack@.subrange(start as int, start + needle@.len()) != needle@) by {
                let k = choose|k: int| 0 <= k < needle@.len() && haystack@[start + k] != needle@[k];
                assert(haystack@.subrange(start as int, start + needle@.len())[k] == haystack@[start + k]);
            }
            start += 1;
        }
        false
    }

    /// Appends text to the rolling window; the first keyword it now
    /// contains, if any.
    pub fn match_text(&mut self, text: &str) -> (matched: Option<AutomaticDisableTrigger>)
        requires
            old(self).wf(),
        ensures
            final(self).wf(),
            final(self)@ == (KeywordScanState {
                rolling: match_step(old(self)@.keywords, old(self)@.rolling_limit, old(self)@.rolling, text@).0,
                ..old(self)@
            }),
            match matched {
                Some(AutomaticDisableTrigger::ErrorMessageKeyword(keyword)) => match_step(
                    old(self)@.keywords,
                    old(self)@.rolling_limit,
                    old(self)@.rolling,
                    text@,
                ).1 == Some(keyword@),
                Some(AutomaticDisableTrigger::HttpStatus(_)) => false,
                None => match_step(old(self)@.keywords, old(self)@.rolling_limit, old(self)@.rolling, text@).1 is None,
            },
    {
        let lowered = lowercase(text);
        let added_bytes = lowered.as_str().as_bytes().len();
        let added = chars_of(lowered.as_str());
        let total: u128 = self.rolling_bytes as u128 + added_bytes as u128;
        proof {
            crate::error_text::lemma_utf8_len_concat(self.rolling@, added@);
        }
        let mut index: usize = 0;
        let ghost start = self.rolling@;
        while index < added.len()
            invariant
                index <= added@.len(),
                added@ == lowercase_text(text@),
                self.rolling@ == start + added@.take(index as int),
                self.keywords == old(self).keywords,
                self.carry == old(self).carry,
                self.rolling_limit == old(self).rolling_limit,
                self.remaining_bytes == old(self).remaining_bytes,
            decreases added@.len() - index,
        {
            self.rolling.push(added[index]);
            index += 1;
            assert(self.rolling@ =~= start + added@.take(index as int));
        }
        assert(added@.take(added@.len() as int) =~= added@);
        let ghost appended = self.rolling@;
        let mut matched: Option<AutomaticDisableTrigger> = None;
        let mut position: usize = 0;
        assert(keyword_pairs(self.keywords@).skip(0) =~= keyword_pairs(self.keywords@));
        while position < self.keywords.len()
            invariant_except_break
                matched is None,
            invariant
                position <= self.keywords@.len(),
                self.rolling@ == appended,
                first_keyword_in(keyword_pairs(self.keywords@), appended) == first_keyword_in(
                    keyword_pairs(self.keywords@).skip(position as int),
                    appended,
                ),
            ensures
                self.rolling@ == appended,
                match matched {
                    Some(AutomaticDisableTrigger::ErrorMessageKeyword(keyword)) => first_keyword_in(
                        keyword_pairs(self.keywords@),
                        appended,
                    ) == Some(keyword@),
                    Some(AutomaticDisableTrigger::HttpStatus(_)) => false,
                    None => first_keyword_in(keyword_pairs(self.keywords@), appended) is None,
                },
            decreases self.keywords@.len() - position,
        {
            let normalized = chars_of(self.keywords[position].1.as_str());
            let ghost rest = keyword_pairs(self.keywords@).skip(position as int);
            assert(rest[0] == (self.keywords@[position as int].0@, self.keywords@[position as int].1@));
            if Self::occurs(&self.rolling, &normalized) {
                matched = Some(
                    AutomaticDisableTrigger::ErrorMessageKeyword(String::from_str(self.keywords[position].0.as_str())),
                );
                break;
            }
            assert(rest.drop_first() =~= keyword_pairs(self.keywords@).skip(position + 1));
            position += 1;
        }
        self.trim_rolling(total);
        matched
    }

    /// Drops characters from the front of the window until it fits its
    /// limit; `total` is the window's length in bytes.
    fn trim_rolling(&mut self, total: u128)
        requires
            total == utf8_len(old(self).rolling@),
        ensures
            final(self).wf(),
            final(self)@ == (KeywordScanState {
                rolling: suffix_within(old(self).rolling@, old(self).rolling_limit as nat),
                ..old(self)@
            }),
    {
        let ghost original = self.rolling@;
        let limit = self.rolling_limit;
        let mut start: usize = 0;
        let mut kept: u128 = total;
        assert(original.skip(0) =~= original);
        while start < self.rolling.len() && kept > limit as u128
            invariant
                start <= self.rolling@.len(),
                self.rolling@ == original,
                self.rolling_limit == limit,
                suffix_within(original, limit as nat) == suffix_within(original.skip(start as int), limit as nat),
                kept == utf8_len(original.skip(start as int)),
            decreases self.rolling@.len() - start,
        {
            let width = char_width_of(self.rolling[start]);
            proof {
                lemma_utf8_len_drop_first(original.skip(start as int));
                assert(original.skip(start as int)[0] == original[start as int]);
                assert(original.skip(start as int).drop_first() =~= original.skip(start + 1));
            }
            kept = kept - width as u128;
            start += 1;
        }
        proof {
            if start == self.rolling@.len() {
                assert(original.skip(start as int) =~= Seq::<char>::empty());
                crate::error_text::lemma_utf8_len_empty(Seq::<char>::empty());
            }
        }
        let mut suffix: Vec<char> = Vec::new();
        let mut position = start;
        while position < self.rolling.len()
            invariant
                start <= position <= self.rolling@.len(),
                self.rolling@ == original,
                suffix@ == original.subrange(start as int, position as int),
            decreases self.rolling@.len() - position,
        {
            suffix.push(self.rolling[position]);
            position += 1;
            assert(suffix@ =~= original.subrange(start as int, position as int));
        }
        assert(suffix@ =~= original.skip(start as int));
        self.rolling = suffix;
        self.rolling_bytes = kept as usize;
    }
}

pub open spec fn trigger_view(matched: Option<AutomaticDisableTrigger>) -> Option<Seq<char>> {
    match matched {
        Some(AutomaticDisableTrigger::ErrorMessageKeyword(keyword)) => Some(keyword@),
        _ => None,
    }
}

/// What an upstream status means for automatic disabling: a configured
/// error status reports the channel, and any unsuccessful status restarts
/// the keyword scan of the error body that follows. Successful statuses do
/// neither.
pub fn upstream_status_reaction(settings: &AutomaticDisableSettings, status: u16) -> (reaction: (
    Option<AutomaticDisableTrigger>,
    bool,
))
    ensures
        reaction.1 == !(200 <= status < 300),
        reaction.0 == if !(200 <= status < 300) && settings.is_enabled() && settings.status_codes().contains(status) {
            Some(AutomaticDisableTrigger::HttpStatus(status))
        } else {
            None
        },
{
    if 200 <= status && status < 300 {
        return (None, false);
    }
    if settings.matches_status(status) {
        (Some(AutomaticDisableTrigger::HttpStatus(status)), true)
    } else {
        (None, true)
    }
}

impl ErrorKeywordMatcher {
    /// Inspects one chunk of an error response; the first configured keyword
    /// found, if any.
    pub fn observe(&mut self, bytes: &[u8]) -> (matched: Option<AutomaticDisableTrigger>)
        requires
            old(self).wf(),
        ensures
            final(self).wf(),
            (final(self)@, trigger_view(matched)) == keyword_observe_spec(old(self)@, bytes@),
            !(matched matches Some(AutomaticDisableTrigger::HttpStatus(_))),
    {
        if self.remaining_bytes == 0 || bytes.len() == 0 {
            return None;
        }
        let accepted = if bytes.len() <= self.remaining_bytes {
            bytes.len()
        } else {
            self.remaining_bytes
        };
        self.remaining_bytes = self.remaining_bytes - accepted;
        let ghost original = self.carry@;
        let mut index: usize = 0;
        while index < accepted
            invariant
                index <= accepted <= bytes@.len(),
                self.carry@ == original + bytes@.take(index as int),
                self.wf(),
                self.keywords == old(self).keywords,
                self.rolling == old(self).rolling,
                self.rolling_limit == old(self).rolling_limit,
                self.remaining_bytes == old(self).remaining_bytes - accepted,
            decreases accepted - index,
        {
            self.carry.push(bytes[index]);
            index += 1;
            assert(self.carry@ =~= original + bytes@.take(index as int));
        }
        let ghost keywords = self@.keywords;
        let ghost limit = self@.rolling_limit;
        let ghost target = scan_pending(keywords, limit, self.rolling@, self.carry@);
        assert(keyword_observe_spec(old(self)@, bytes@) == (KeywordScanState {
            carry: target.1,
            rolling: target.0,
            remaining_bytes: (old(self)@.remaining_bytes - accepted) as nat,
            ..old(self)@
        }, target.2)) by {
            assert(self.carry@ =~= original + bytes@.take(accepted as int));
        }
        loop
            invariant
                self.wf(),
                keyword_observe_spec(old(self)@, bytes@) == (KeywordScanState {
                    carry: target.1,
                    rolling: target.0,
                    remaining_bytes: (old(self)@.remaining_bytes - accepted) as nat,
                    ..old(self)@
                }, target.2),
                keywords == old(self)@.keywords,
                limit == old(self)@.rolling_limit,
                self@.keywords == keywords,
                self@.rolling_limit == limit,
                self.remaining_bytes == old(self).remaining_bytes - accepted,
                target == scan_pending(keywords, limit, self.rolling@, self.carry@),
            decreases self.carry@.len(),
        {
            let carry_len = self.carry.len();
            match check_utf8(self.carry.as_slice()) {
                Ok(text) => {
                    let matched = self.match_text(text.as_str());
                    self.carry.clear();
                    return matched;
                },
                Err((valid, invalid)) => {
                    if valid > 0 {
                        let prefix = vstd::slice::slice_subrange(self.carry.as_slice(), 0, valid);
                        assert(prefix@ =~= self.carry@.take(valid as int));
                        match check_utf8(prefix) {
                            Ok(text) => {
                                let matched = self.match_text(text.as_str());
                                if matched.is_some() {
                                    self.carry.clear();
                                    return matched;
                                }
                            },
                            Err(_) => {
                                assert(false);
                            },
                        }
                    }
                    match invalid {
                        Some(length) => {
                            assert(valid + length <= carry_len);
                            let tail = self.carry.split_off(valid + length);
                            self.carry = tail;
                        },
                        None => {
                            let tail = self.carry.split_off(valid);
                            self.carry = tail;
                            return None;
                        },
                    }
                },
            }
        }
    }
}

proof fn lemma_first_keyword_found(keywords: Seq<(Seq<char>, Seq<char>)>, text: Seq<char>, i: int)
    requires
        0 <= i < keywords.len(),
        contains_text(text, keywords[i].1),
    ensures
        first_keyword_in(keywords, text) is Some,
    decreases keywords.len(),
{
    if i > 0 && !contains_text(text, keywords[0].1) {
        assert(keywords.drop_first()[i - 1] == keywords[i]);
        lemma_first_keyword_found(keywords.drop_first(), text, i - 1);
    }
}

proof fn lemma_window_keeps_short_suffixes(text: Seq<char>, maximum: nat, tail: Seq<char>)
    requires
        tail.len() <= text.len(),
        text.skip(text.len() - tail.len()) == tail,
        utf8_len(tail) <= maximum,
    ensures
        tail.len() <= suffix_within(text, maximum).len(),
        suffix_within(text, maximum).skip(suffix_within(text, maximum).len() - tail.len()) == tail,
    decreases text.len(),
{
    if !(utf8_len(text) <= maximum || text.len() == 0) {
        if tail.len() == text.len() {
            assert(text.skip(0) =~= text);
            assert(false);
        }
        let rest = text.drop_first();
        assert(rest.skip(rest.len() - tail.len()) =~= text.skip(text.len() - tail.len()));
        lemma_window_keeps_short_suffixes(rest, maximum, tail);
    }
}

/// A keyword that fits the rolling window is found with the second of two
/// chunks of text that it is split between: the window keeps the end of
/// what it has seen.
pub proof fn lemma_keyword_across_chunks(
    keywords: Seq<(Seq<char>, Seq<char>)>,
    limit: nat,
    rolling: Seq<char>,
    first: Seq<char>,
    second: Seq<char>,
    i: int,
    split: int,
)
    requires
        0 <= i < keywords.len(),
        0 <= split <= keywords[i].1.len(),
        split <= lowercase_text(first).len(),
        lowercase_text(first).skip(lowercase_text(first).len() - split) == keywords[i].1.take(split),
        keywords[i].1.len() - split <= lowercase_text(second).len(),
        lowercase_text(second).take(keywords[i].1.len() - split) == keywords[i].1.skip(split),
        utf8_len(keywords[i].1) <= limit,
    ensures
        match_step(keywords, limit, match_step(keywords, limit, rolling, first).0, second).1 is Some,
{
    let keyword = keywords[i].1;
    let head = keyword.take(split);
    assert(keyword =~= head + keyword.skip(split));
    crate::error_text::lemma_utf8_len_concat(head, keyword.skip(split));
    let seen = rolling + lowercase_text(first);
    assert(seen.skip(seen.len() - split) =~= lowercase_text(first).skip(lowercase_text(first).len() - split));
    lemma_window_keeps_short_suffixes(seen, limit, head);
    let window = suffix_within(seen, limit);
    let appended = window + lowercase_text(second);
    let start = window.len() - split;
    assert(appended.subrange(start, start + keyword.len()) =~= keyword) by {
        assert forall|k: int| 0 <= k < keyword.len() implies appended.subrange(start, start + keyword.len())[k]
            == keyword[k] by {
            if k < split {
                assert(window.skip(start)[k] == head[k]);
            } else {
                assert(lowercase_text(second).take(keyword.len() - split)[k - split] == keyword.skip(split)[k - split]);
            }
        }
    }
    assert(contains_text(appended, keyword));
    lemma_first_keyword_found(keywords, appended, i);
}

/// The rolling window of a matcher is large enough for every configured
/// keyword.
pub proof fn lemma_window_holds_every_keyword(keywords: Seq<(Seq<char>, Seq<char>)>, i: int)
    requires
        0 <= i < keywords.len(),
        utf8_len(keywords[i].1) <= usize::MAX,
    ensures
        utf8_len(keywords[i].1) <= rolling_limit_spec(keywords),
    decreases keywords.len(),
{
    if i < keywords.len() - 1 {
        assert(keywords.drop_last()[i] == keywords[i]);
        lemma_window_holds_every_keyword(keywords.drop_last(), i);
    }
}

} // verus!
