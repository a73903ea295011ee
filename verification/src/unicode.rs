//! Unicode whitespace and control-character classes, and trimming.

use vstd::prelude::*;
use vstd::string::StrSliceExecFns;

verus! {

/// The Unicode `White_Space` property, which `char::is_whitespace` reports.
pub open spec fn is_whitespace_spec(c: char) -> bool {
    let u = c as u32;
    ||| 9 <= u <= 13
    ||| u == 32
    ||| u == 0x85
    ||| u == 0xA0
    ||| u == 0x1680
    ||| 0x2000 <= u <= 0x200A
    ||| u == 0x2028
    ||| u == 0x2029
    ||| u == 0x202F
    ||| u == 0x205F
    ||| u == 0x3000
}

/// The `Cc` general category, which `char::is_control` reports.
pub open spec fn is_control_spec(c: char) -> bool {
    let u = c as u32;
    u <= 0x1F || 0x7F <= u <= 0x9F
}

pub fn is_whitespace(c: char) -> (whitespace: bool)
    ensures
        whitespace == is_whitespace_spec(c),
{
    let u = c as u32;
    (9 <= u && u <= 13) || u == 32 || u == 0x85 || u == 0xA0 || u == 0x1680 || (0x2000 <= u && u
        <= 0x200A) || u == 0x2028 || u == 0x2029 || u == 0x202F || u == 0x205F || u == 0x3000
}

pub fn is_control(c: char) -> (control: bool)
    ensures
        control == is_control_spec(c),
{
    let u = c as u32;
    u <= 0x1F || (0x7F <= u && u <= 0x9F)
}

/// Drops leading whitespace.
pub open spec fn trim_start_spec(s: Seq<char>) -> Seq<char>
    decreases s.len(),
{
    if s.len() > 0 && is_whitespace_spec(s[0]) {
        trim_start_spec(s.drop_first())
    } else {
        s
    }
}

/// Drops trailing whitespace.
pub open spec fn trim_end_spec(s: Seq<char>) -> Seq<char>
    decreases s.len(),
{
    if s.len() > 0 && is_whitespace_spec(s.last()) {
        trim_end_spec(s.drop_last())
    } else {
        s
    }
}

/// `str::trim`: drops leading and trailing whitespace.
pub open spec fn trim_spec(s: Seq<char>) -> Seq<char> {
    trim_end_spec(trim_start_spec(s))
}

pub proof fn lemma_trim_start(s: Seq<char>, k: int)
    requires
        0 <= k <= s.len(),
        forall|i: int| 0 <= i < k ==> is_whitespace_spec(#[trigger] s[i]),
        k == s.len() || !is_whitespace_spec(s[k]),
    ensures
        trim_start_spec(s) == s.subrange(k, s.len() as int),
    decreases k,
{
    if k > 0 {
        if k < s.len() {
            assert(s.drop_first()[k - 1] == s[k]);
        }
        assert forall|i: int| 0 <= i < k - 1 implies is_whitespace_spec(
            #[trigger] s.drop_first()[i],
        ) by {
            assert(s.drop_first()[i] == s[i + 1]);
        }
        lemma_trim_start(s.drop_first(), k - 1);
        assert(s.drop_first().subrange(k - 1, s.len() - 1) =~= s.subrange(k, s.len() as int));
    } else {
        assert(s.subrange(0, s.len() as int) =~= s);
    }
}

pub proof fn lemma_trim_end(s: Seq<char>, e: int)
    requires
        0 <= e <= s.len(),
        forall|i: int| e <= i < s.len() ==> is_whitespace_spec(#[trigger] s[i]),
        e == 0 || !is_whitespace_spec(s[e - 1]),
    ensures
        trim_end_spec(s) == s.subrange(0, e),
    decreases s.len() - e,
{
    if e < s.len() {
        assert(is_whitespace_spec(s[s.len() - 1]));
        assert forall|i: int| e <= i < s.len() - 1 implies is_whitespace_spec(
            #[trigger] s.drop_last()[i],
        ) by {
            assert(s.drop_last()[i] == s[i]);
        }
        lemma_trim_end(s.drop_last(), e);
        assert(s.drop_last().subrange(0, e) =~= s.subrange(0, e));
    } else {
        assert(s.subrange(0, s.len() as int) =~= s);
    }
}

/// The characters of a string.
pub fn chars_of(s: &str) -> (chars: Vec<char>)
    ensures
        chars@ == s@,
{
    let mut chars: Vec<char> = Vec::new();
    broadcast use vstd::string::group_string_axioms;
    for c in it: s.chars()
        invariant
            it.seq() == s@,
            chars@ == s@.take(it.index() as int),
    {
        chars.push(c);
    }
    assert(s@.take(s@.len() as int) =~= s@);
    chars
}

/// Leading and trailing whitespace positions of `chars`: the trimmed text
/// is `chars[start..end]`.
pub fn trim_bounds(chars: &Vec<char>) -> (bounds: (usize, usize))
    ensures
        bounds.0 <= bounds.1 <= chars@.len(),
        chars@.subrange(bounds.0 as int, bounds.1 as int) == trim_spec(chars@),
{
    let ghost s = chars@;
    let mut start: usize = 0;
    while start < chars.len() && is_whitespace(chars[start])
        invariant
            start <= chars@.len(),
            s == chars@,
            forall|i: int| 0 <= i < start ==> is_whitespace_spec(#[trigger] s[i]),
        decreases chars@.len() - start,
    {
        start += 1;
    }
    proof {
        lemma_trim_start(s, start as int);
    }
    let mut end: usize = chars.len();
    while end > start && is_whitespace(chars[end - 1])
        invariant
            start <= end <= chars@.len(),
            s == chars@,
            forall|i: int| end <= i < s.len() ==> is_whitespace_spec(#[trigger] s[i]),
        decreases end,
    {
        end -= 1;
    }
    proof {
        let rest = s.subrange(start as int, s.len() as int);
        assert forall|i: int| end - start <= i < rest.len() implies is_whitespace_spec(
            #[trigger] rest[i],
        ) by {
            assert(rest[i] == s[start + i]);
        }
        if end > start {
            assert(rest[end - start - 1] == s[end - 1]);
        }
        lemma_trim_end(rest, end - start);
        assert(rest.subrange(0, end - start) =~= s.subrange(start as int, end as int));
    }
    (start, end)
}

/// `str::trim`.
pub fn trim(s: &str) -> (trimmed: &str)
    ensures
        trimmed@ == trim_spec(s@),
{
    let chars = chars_of(s);
    let (start, end) = trim_bounds(&chars);
    s.substring_char(start, end)
}

} // verus!
