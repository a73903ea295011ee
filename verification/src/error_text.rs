//! Bounded, sanitized error text: control characters replaced, line breaks
//! normalized, whitespace trimmed, and a byte limit marked with an ellipsis.

use vstd::prelude::*;
use vstd::utf8::{encode_scalar, encode_utf8, char_is_scalar};

use crate::text::string_from_chars;
use crate::unicode::{
    chars_of, is_control, is_control_spec, is_whitespace_spec, lemma_trim_end, lemma_trim_start, trim_bounds, trim_end_spec,
    trim_spec, trim_start_spec,
};

verus! {

/// The UTF-8 length of one character.
pub open spec fn char_width(c: char) -> nat {
    encode_scalar(c as u32).len()
}

/// The UTF-8 length of a text.
pub open spec fn utf8_len(s: Seq<char>) -> nat {
    encode_utf8(s).len()
}

pub proof fn lemma_encode_push(s: Seq<char>, c: char)
    ensures
        encode_utf8(s.push(c)) == encode_utf8(s) + encode_scalar(c as u32),
        utf8_len(s.push(c)) == utf8_len(s) + char_width(c),
    decreases s.len(),
{
    if s.len() == 0 {
        assert(s.push(c).drop_first() =~= Seq::<char>::empty());
        assert(s.push(c)[0] == c);
        assert(encode_utf8(s) =~= Seq::<u8>::empty());
        assert(encode_utf8(s.push(c).drop_first()) =~= Seq::<u8>::empty());
        assert(encode_utf8(s.push(c)) =~= encode_utf8(s) + encode_scalar(c as u32));
    } else {
        lemma_encode_push(s.drop_first(), c);
        assert(s.push(c).drop_first() =~= s.drop_first().push(c));
        assert(s.push(c)[0] == s[0]);
        assert(encode_utf8(s.push(c)) =~= encode_utf8(s) + encode_scalar(c as u32));
    }
}

pub proof fn lemma_utf8_len_empty(s: Seq<char>)
    ensures
        (utf8_len(s) == 0) <==> (s.len() == 0),
{
    if s.len() > 0 {
        assert(encode_scalar(s[0] as u32).len() >= 1);
    } else {
        assert(encode_utf8(s) =~= Seq::<u8>::empty());
    }
}

pub proof fn lemma_utf8_len_concat(a: Seq<char>, b: Seq<char>)
    ensures
        utf8_len(a + b) == utf8_len(a) + utf8_len(b),
    decreases b.len(),
{
    if b.len() == 0 {
        assert(a + b =~= a);
    } else {
        lemma_utf8_len_concat(a, b.drop_last());
        assert(a + b =~= (a + b.drop_last()).push(b.last()));
        assert(b =~= b.drop_last().push(b.last()));
        lemma_encode_push(a + b.drop_last(), b.last());
        lemma_encode_push(b.drop_last(), b.last());
    }
}

/// The UTF-8 length of `c`, as `char::len_utf8` gives it.
pub fn char_width_of(c: char) -> (width: usize)
    ensures
        width == char_width(c),
        1 <= width <= 4,
{
    proof {
        char_is_scalar(c);
    }
    let value = c as u32;
    if value <= 0x7F {
        1
    } else if value <= 0x7FF {
        2
    } else if value <= 0xFFFF {
        3
    } else {
        4
    }
}

pub const MAX_ERROR_CODE_BYTES: usize = 100;

pub const MAX_ERROR_SUMMARY_BYTES: usize = 16384;

pub const ELLIPSIS: char = '\u{2026}';

/// Appends `c` unless it would take the text past `maximum` bytes, in which
/// case the text is cut there.
pub open spec fn sanitize_emit(
    out: Seq<char>,
    c: char,
    previous_was_cr: bool,
    truncated: bool,
    maximum: nat,
) -> (Seq<char>, bool, bool, bool) {
    if utf8_len(out) + char_width(c) > maximum {
        (out, previous_was_cr, true, true)
    } else {
        (out.push(c), previous_was_cr, truncated, false)
    }
}

/// The text so far, whether the last character was a carriage return,
/// whether something was cut, and whether the limit was reached.
pub open spec fn sanitize_scan(value: Seq<char>, maximum: nat, multiline: bool, force_truncated: bool) -> (
    Seq<char>,
    bool,
    bool,
    bool,
)
    decreases value.len(),
{
    if value.len() == 0 {
        (Seq::empty(), false, force_truncated, false)
    } else {
        let (out, previous_was_cr, truncated, stopped) = sanitize_scan(
            value.drop_last(),
            maximum,
            multiline,
            force_truncated,
        );
        let c = value.last();
        if stopped {
            (out, previous_was_cr, truncated, stopped)
        } else if c == '\r' && multiline {
            sanitize_emit(out, '\n', true, truncated, maximum)
        } else if c == '\n' && multiline && previous_was_cr {
            (out, false, truncated, false)
        } else if (c == '\n' || c == '\t') && multiline {
            sanitize_emit(out, c, false, truncated, maximum)
        } else if is_control_spec(c) {
            sanitize_emit(out, ' ', false, truncated, maximum)
        } else {
            sanitize_emit(out, c, false, truncated, maximum)
        }
    }
}

/// The longest prefix of `s` whose UTF-8 length is at most `limit`.
pub open spec fn prefix_within(s: Seq<char>, limit: nat) -> Seq<char>
    decreases s.len(),
{
    if s.len() == 0 || char_width(s[0]) > limit {
        Seq::empty()
    } else {
        seq![s[0]] + prefix_within(s.drop_first(), (limit - char_width(s[0])) as nat)
    }
}

/// Error text made safe to log: in single-line mode every control
/// character becomes a space; in multiline mode `\r\n` and `\r` become
/// `\n` and tabs and line feeds stay. The text is cut at `maximum` bytes,
/// trimmed, dropped when blank, and a cut text ends with `…` within the
/// limit.
pub open spec fn sanitize_spec(value: Seq<char>, maximum: nat, multiline: bool, force_truncated: bool) -> Option<Seq<char>> {
    let (out, _previous, truncated, _stopped) = sanitize_scan(value, maximum, multiline, force_truncated);
    let trimmed = trim_spec(out);
    if trimmed.len() == 0 {
        None
    } else if truncated {
        Some(prefix_within(trimmed, if maximum >= 3 { (maximum - 3) as nat } else { 0 }) + seq![ELLIPSIS])
    } else {
        Some(trimmed)
    }
}

proof fn lemma_prefix_within_step(s: Seq<char>, k: int, limit: nat, used: nat)
    requires
        0 <= k < s.len(),
        used + char_width(s[k]) <= limit,
        prefix_within(s, limit) == s.take(k) + prefix_within(s.skip(k), (limit - used) as nat),
    ensures
        prefix_within(s, limit) == s.take(k + 1) + prefix_within(s.skip(k + 1), (limit - used - char_width(s[k])) as nat),
{
    let rest = s.skip(k);
    assert(rest[0] == s[k]);
    assert(rest.drop_first() =~= s.skip(k + 1));
    assert(s.take(k + 1) =~= s.take(k) + seq![s[k]]);
    assert(s.take(k) + (seq![s[k]] + prefix_within(s.skip(k + 1), (limit - used - char_width(s[k])) as nat))
        =~= s.take(k + 1) + prefix_within(s.skip(k + 1), (limit - used - char_width(s[k])) as nat));
}

fn prefix_within_exec(s: &[char], limit: usize) -> (prefix: &[char])
    ensures
        prefix@ == prefix_within(s@, limit as nat),
{
    let mut index: usize = 0;
    let mut used: usize = 0;
    assert(s@.take(0) + prefix_within(s@.skip(0), limit as nat) =~= prefix_within(s@, limit as nat)) by {
        assert(s@.skip(0) =~= s@);
    }
    while index < s.len()
        invariant
            index <= s@.len(),
            used <= limit,
            prefix_within(s@, limit as nat) == s@.take(index as int) + prefix_within(
                s@.skip(index as int),
                (limit - used) as nat,
            ),
        decreases s@.len() - index,
    {
        let width = char_width_of(s[index]);
        if width > limit - used {
            proof {
                let rest = s@.skip(index as int);
                assert(rest[0] == s@[index as int]);
                assert(prefix_within(rest, (limit - used) as nat) =~= Seq::<char>::empty());
                assert(s@.take(index as int) + Seq::<char>::empty() =~= s@.take(index as int));
            }
            return vstd::slice::slice_subrange(s, 0, index);
        }
        proof {
            lemma_prefix_within_step(s@, index as int, limit as nat, used as nat);
        }
        used = used + width;
        index += 1;
    }
    proof {
        assert(s@.skip(index as int) =~= Seq::<char>::empty());
        assert(s@.take(index as int) + Seq::<char>::empty() =~= s@);
    }
    s
}

/// Sanitizes and bounds a piece of error text.
pub fn sanitize_error_text(value: &str, maximum_bytes: usize, multiline: bool, force_truncated: bool) -> (sanitized: Option<String>)
    ensures
        match sanitized {
            Some(text) => sanitize_spec(value@, maximum_bytes as nat, multiline, force_truncated) == Some(text@),
            None => sanitize_spec(value@, maximum_bytes as nat, multiline, force_truncated) is None,
        },
{
    let chars = chars_of(value);
    let mut out: Vec<char> = Vec::new();
    let mut previous_was_cr = false;
    let mut truncated = force_truncated;
    let mut stopped = false;
    let mut used: usize = 0;
    let mut index: usize = 0;
    while index < chars.len()
        invariant
            index <= chars@.len(),
            chars@ == value@,
            used == utf8_len(out@),
            used <= maximum_bytes,
            (out@, previous_was_cr, truncated, stopped) == sanitize_scan(
                chars@.take(index as int),
                maximum_bytes as nat,
                multiline,
                force_truncated,
            ),
        decreases chars@.len() - index,
    {
        let c = chars[index];
        proof {
            assert(chars@.take(index + 1).drop_last() =~= chars@.take(index as int));
            assert(chars@.take(index + 1).last() == c);
        }
        if !stopped {
            let mut emitted: Option<char> = None;
            if c == '\r' && multiline {
                previous_was_cr = true;
                emitted = Some('\n');
            } else if c == '\n' && multiline && previous_was_cr {
                previous_was_cr = false;
            } else if (c == '\n' || c == '\t') && multiline {
                previous_was_cr = false;
                emitted = Some(c);
            } else if is_control(c) {
                previous_was_cr = false;
                emitted = Some(' ');
            } else {
                previous_was_cr = false;
                emitted = Some(c);
            }
            if let Some(m) = emitted {
                let width = char_width_of(m);
                if width > maximum_bytes - used {
                    truncated = true;
                    stopped = true;
                } else {
                    proof {
                        lemma_encode_push(out@, m);
                    }
                    out.push(m);
                    used = used + width;
                }
            }
        }
        index += 1;
    }
    proof {
        assert(chars@.take(chars@.len() as int) =~= chars@);
    }
    let (start, end) = trim_bounds(&out);
    if start == end {
        return None;
    }
    let trimmed = vstd::slice::slice_subrange(out.as_slice(), start, end);
    if !truncated {
        return Some(string_from_chars(trimmed));
    }
    let target = if maximum_bytes >= 3 {
        maximum_bytes - 3
    } else {
        0
    };
    let kept = prefix_within_exec(trimmed, target);
    let mut marked: Vec<char> = Vec::new();
    let mut position: usize = 0;
    while position < kept.len()
        invariant
            position <= kept@.len(),
            marked@ == kept@.take(position as int),
        decreases kept@.len() - position,
    {
        marked.push(kept[position]);
        position += 1;
        assert(marked@ =~= kept@.take(position as int));
    }
    assert(kept@.take(kept@.len() as int) =~= kept@);
    marked.push(ELLIPSIS);
    Some(string_from_chars(marked.as_slice()))
}


proof fn lemma_scan_within_limit(value: Seq<char>, maximum: nat, multiline: bool, force_truncated: bool)
    ensures
        utf8_len(sanitize_scan(value, maximum, multiline, force_truncated).0) <= maximum,
    decreases value.len(),
{
    if value.len() == 0 {
        lemma_utf8_len_empty(Seq::<char>::empty());
    } else {
        let (out, _, _, _) = sanitize_scan(value.drop_last(), maximum, multiline, force_truncated);
        lemma_scan_within_limit(value.drop_last(), maximum, multiline, force_truncated);
        let c = value.last();
        lemma_encode_push(out, '\n');
        lemma_encode_push(out, ' ');
        lemma_encode_push(out, c);
    }
}

proof fn lemma_prefix_within_limit(s: Seq<char>, limit: nat)
    ensures
        utf8_len(prefix_within(s, limit)) <= limit,
    decreases s.len(),
{
    if s.len() == 0 || char_width(s[0]) > limit {
        lemma_utf8_len_empty(Seq::<char>::empty());
    } else {
        let rest = (limit - char_width(s[0])) as nat;
        lemma_prefix_within_limit(s.drop_first(), rest);
        lemma_utf8_len_concat(seq![s[0]], prefix_within(s.drop_first(), rest));
        lemma_encode_push(Seq::<char>::empty(), s[0]);
        assert(Seq::<char>::empty().push(s[0]) =~= seq![s[0]]);
        lemma_utf8_len_empty(Seq::<char>::empty());
    }
}

proof fn lemma_trim_start_len(s: Seq<char>)
    ensures
        utf8_len(trim_start_spec(s)) <= utf8_len(s),
    decreases s.len(),
{
    if s.len() > 0 && crate::unicode::is_whitespace_spec(s[0]) {
        lemma_trim_start_len(s.drop_first());
        assert(s =~= seq![s[0]] + s.drop_first());
        lemma_utf8_len_concat(seq![s[0]], s.drop_first());
    }
}

proof fn lemma_trim_end_len(s: Seq<char>)
    ensures
        utf8_len(trim_end_spec(s)) <= utf8_len(s),
    decreases s.len(),
{
    if s.len() > 0 && crate::unicode::is_whitespace_spec(s.last()) {
        lemma_trim_end_len(s.drop_last());
        assert(s =~= s.drop_last().push(s.last()));
        lemma_encode_push(s.drop_last(), s.last());
    }
}

/// Sanitized error text never takes more than its byte limit, ellipsis
/// included, for any limit that leaves room for the ellipsis.
pub proof fn lemma_sanitized_text_is_bounded(value: Seq<char>, maximum: nat, multiline: bool, force_truncated: bool)
    requires
        maximum >= 3,
    ensures
        sanitize_spec(value, maximum, multiline, force_truncated) matches Some(text) ==> utf8_len(text) <= maximum,
{
    let (out, _, truncated, _) = sanitize_scan(value, maximum, multiline, force_truncated);
    lemma_scan_within_limit(value, maximum, multiline, force_truncated);
    let trimmed = trim_spec(out);
    lemma_trim_start_len(out);
    lemma_trim_end_len(trim_start_spec(out));
    if truncated && trimmed.len() > 0 {
        let kept = prefix_within(trimmed, (maximum - 3) as nat);
        lemma_prefix_within_limit(trimmed, (maximum - 3) as nat);
        lemma_encode_push(kept, ELLIPSIS);
        assert(kept + seq![ELLIPSIS] =~= kept.push(ELLIPSIS));
        assert(char_width(ELLIPSIS) == 3) by {
            assert(ELLIPSIS as u32 == 0x2026);
        }
    }
}

/// A character that may stand in sanitized text: no control character,
/// but line feeds and tabs in multiline text.
pub open spec fn loggable_char(c: char, multiline: bool) -> bool {
    !is_control_spec(c) || (multiline && (c == '\n' || c == '\t'))
}

pub open spec fn loggable(s: Seq<char>, multiline: bool) -> bool {
    forall|i: int| 0 <= i < s.len() ==> loggable_char(#[trigger] s[i], multiline)
}

proof fn lemma_scan_is_loggable(value: Seq<char>, maximum: nat, multiline: bool, force_truncated: bool)
    ensures
        loggable(sanitize_scan(value, maximum, multiline, force_truncated).0, multiline),
    decreases value.len(),
{
    if value.len() > 0 {
        lemma_scan_is_loggable(value.drop_last(), maximum, multiline, force_truncated);
        let out = sanitize_scan(value.drop_last(), maximum, multiline, force_truncated).0;
        assert forall|c: char| loggable_char(c, multiline) implies loggable(out.push(c), multiline) by {
            assert forall|i: int| 0 <= i < out.push(c).len() implies loggable_char(
                #[trigger] out.push(c)[i],
                multiline,
            ) by {
                if i < out.len() {
                    assert(out.push(c)[i] == out[i]);
                }
            }
        }
        assert(loggable_char(' ', multiline));
        assert(loggable_char(value.last(), multiline) || is_control_spec(value.last()));
    }
}

proof fn lemma_trim_start_is_loggable(s: Seq<char>, multiline: bool)
    requires
        loggable(s, multiline),
    ensures
        loggable(trim_start_spec(s), multiline),
    decreases s.len(),
{
    if s.len() > 0 && is_whitespace_spec(s[0]) {
        assert forall|i: int| 0 <= i < s.drop_first().len() implies loggable_char(
            #[trigger] s.drop_first()[i],
            multiline,
        ) by {
            assert(s.drop_first()[i] == s[i + 1]);
        }
        lemma_trim_start_is_loggable(s.drop_first(), multiline);
    }
}

proof fn lemma_trim_end_is_loggable(s: Seq<char>, multiline: bool)
    requires
        loggable(s, multiline),
    ensures
        loggable(trim_end_spec(s), multiline),
    decreases s.len(),
{
    if s.len() > 0 && is_whitespace_spec(s.last()) {
        assert forall|i: int| 0 <= i < s.drop_last().len() implies loggable_char(
            #[trigger] s.drop_last()[i],
            multiline,
        ) by {
            assert(s.drop_last()[i] == s[i]);
        }
        lemma_trim_end_is_loggable(s.drop_last(), multiline);
    }
}

proof fn lemma_prefix_within_is_loggable(s: Seq<char>, limit: nat, multiline: bool)
    requires
        loggable(s, multiline),
    ensures
        loggable(prefix_within(s, limit), multiline),
    decreases s.len(),
{
    if !(s.len() == 0 || char_width(s[0]) > limit) {
        assert forall|i: int| 0 <= i < s.drop_first().len() implies loggable_char(
            #[trigger] s.drop_first()[i],
            multiline,
        ) by {
            assert(s.drop_first()[i] == s[i + 1]);
        }
        let rest = prefix_within(s.drop_first(), (limit - char_width(s[0])) as nat);
        lemma_prefix_within_is_loggable(s.drop_first(), (limit - char_width(s[0])) as nat, multiline);
        assert forall|i: int| 0 <= i < (seq![s[0]] + rest).len() implies loggable_char(
            #[trigger] (seq![s[0]] + rest)[i],
            multiline,
        ) by {
            if i > 0 {
                assert((seq![s[0]] + rest)[i] == rest[i - 1]);
            }
        }
    }
}

/// Sanitized text holds no control character: single-line text none at
/// all, multiline text only line feeds and tabs.
pub proof fn lemma_sanitized_text_is_loggable(value: Seq<char>, maximum: nat, multiline: bool, force_truncated: bool)
    ensures
        sanitize_spec(value, maximum, multiline, force_truncated) matches Some(text) ==> loggable(text, multiline),
{
    let (out, _, truncated, _) = sanitize_scan(value, maximum, multiline, force_truncated);
    lemma_scan_is_loggable(value, maximum, multiline, force_truncated);
    lemma_trim_start_is_loggable(out, multiline);
    lemma_trim_end_is_loggable(trim_start_spec(out), multiline);
    let trimmed = trim_spec(out);
    if truncated && trimmed.len() > 0 {
        let limit = if maximum >= 3 {
            (maximum - 3) as nat
        } else {
            0
        };
        let kept = prefix_within(trimmed, limit);
        lemma_prefix_within_is_loggable(trimmed, limit, multiline);
        assert(ELLIPSIS as u32 == 0x2026);
        assert forall|i: int| 0 <= i < (kept + seq![ELLIPSIS]).len() implies loggable_char(
            #[trigger] (kept + seq![ELLIPSIS])[i],
            multiline,
        ) by {
            if i < kept.len() {
                assert((kept + seq![ELLIPSIS])[i] == kept[i]);
            }
        }
    }
}

proof fn lemma_trim_start_front(s: Seq<char>)
    ensures
        trim_start_spec(s).len() > 0 ==> !is_whitespace_spec(trim_start_spec(s)[0]),
    decreases s.len(),
{
    if s.len() > 0 && is_whitespace_spec(s[0]) {
        lemma_trim_start_front(s.drop_first());
    }
}

proof fn lemma_trim_end_prefix(s: Seq<char>)
    ensures
        trim_end_spec(s).len() <= s.len(),
        trim_end_spec(s) == s.take(trim_end_spec(s).len() as int),
        trim_end_spec(s).len() > 0 ==> !is_whitespace_spec(trim_end_spec(s).last()),
    decreases s.len(),
{
    if s.len() > 0 && is_whitespace_spec(s.last()) {
        lemma_trim_end_prefix(s.drop_last());
        assert(s.drop_last().take(trim_end_spec(s).len() as int) =~= s.take(trim_end_spec(s).len() as int));
    } else {
        assert(s.take(s.len() as int) =~= s);
    }
}

/// A trimmed text starts and ends with something other than whitespace.
proof fn lemma_trimmed_ends(s: Seq<char>)
    ensures
        trim_spec(s).len() > 0 ==> !is_whitespace_spec(trim_spec(s)[0]) && !is_whitespace_spec(trim_spec(s).last()),
{
    lemma_trim_start_front(s);
    lemma_trim_end_prefix(trim_start_spec(s));
    if trim_spec(s).len() > 0 {
        let t = trim_start_spec(s);
        assert(trim_spec(s) == t.take(trim_spec(s).len() as int));
        assert(trim_spec(s)[0] == t[0]);
    }
}

/// A text that starts and ends with something other than whitespace is
/// its own trim.
proof fn lemma_trim_fixed(s: Seq<char>)
    requires
        s.len() > 0 ==> !is_whitespace_spec(s[0]) && !is_whitespace_spec(s.last()),
    ensures
        trim_spec(s) == s,
{
    if s.len() > 0 {
        lemma_trim_start(s, 0);
        assert(s.subrange(0, s.len() as int) =~= s);
        lemma_trim_end(s, s.len() as int);
    }
}

proof fn lemma_sanitized_text_is_trimmed(value: Seq<char>, maximum: nat, multiline: bool, force_truncated: bool)
    ensures
        sanitize_spec(value, maximum, multiline, force_truncated) matches Some(text) ==> trim_spec(text) == text,
{
    let (out, _, truncated, _) = sanitize_scan(value, maximum, multiline, force_truncated);
    let trimmed = trim_spec(out);
    lemma_trimmed_ends(out);
    if trimmed.len() > 0 {
        if truncated {
            let limit = if maximum >= 3 {
                (maximum - 3) as nat
            } else {
                0
            };
            let kept = prefix_within(trimmed, limit);
            let text = kept + seq![ELLIPSIS];
            assert(ELLIPSIS as u32 == 0x2026);
            assert(!is_whitespace_spec(ELLIPSIS));
            if kept.len() > 0 {
                assert(kept[0] == trimmed[0]);
                assert(text[0] == kept[0]);
            } else {
                assert(text[0] == ELLIPSIS);
            }
            assert(text.last() == ELLIPSIS);
            lemma_trim_fixed(text);
        } else {
            lemma_trim_fixed(trimmed);
        }
    }
}

/// A sanitized result that is safe to log: absent, or a non-empty trimmed
/// text within its byte limit (for a limit that leaves room for the
/// ellipsis) without control characters but the line feeds and tabs of
/// multiline text.
pub open spec fn loggable_result(result: Option<Seq<char>>, maximum: nat, multiline: bool) -> bool {
    match result {
        Some(text) => loggable(text, multiline) && text.len() > 0 && trim_spec(text) == text && (maximum >= 3
            ==> utf8_len(text) <= maximum),
        None => true,
    }
}

/// Every sanitized result is safe to log.
pub proof fn lemma_sanitized_texts_are_loggable()
    ensures
        forall|value: Seq<char>, maximum: nat, multiline: bool, force_truncated: bool|
            loggable_result(#[trigger] sanitize_spec(value, maximum, multiline, force_truncated), maximum, multiline),
{
    assert forall|value: Seq<char>, maximum: nat, multiline: bool, force_truncated: bool|
        loggable_result(#[trigger] sanitize_spec(value, maximum, multiline, force_truncated), maximum, multiline) by {
        lemma_sanitized_text_is_loggable(value, maximum, multiline, force_truncated);
        lemma_sanitized_text_is_trimmed(value, maximum, multiline, force_truncated);
        if maximum >= 3 {
            lemma_sanitized_text_is_bounded(value, maximum, multiline, force_truncated);
        }
    }
}

} // verus!
