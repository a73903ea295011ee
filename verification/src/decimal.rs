//! Decimal rendering and parsing of unsigned integers.

use vstd::prelude::*;
use vstd::string::StringExecFns;

verus! {

pub open spec fn digit_char(d: nat) -> char {
    if d == 0 {
        '0'
    } else if d == 1 {
        '1'
    } else if d == 2 {
        '2'
    } else if d == 3 {
        '3'
    } else if d == 4 {
        '4'
    } else if d == 5 {
        '5'
    } else if d == 6 {
        '6'
    } else if d == 7 {
        '7'
    } else if d == 8 {
        '8'
    } else {
        '9'
    }
}

/// The shortest base-10 rendering of `n`, as `u64::to_string` produces it.
pub open spec fn decimal_spec(n: nat) -> Seq<char>
    decreases n,
{
    if n < 10 {
        seq![digit_char(n)]
    } else {
        decimal_spec(n / 10) + seq![digit_char(n % 10)]
    }
}

fn digit_str(d: u64) -> (digit: &'static str)
    requires
        d < 10,
    ensures
        digit@ == seq![digit_char(d as nat)],
{
    if d == 0 {
        proof {
            reveal_strlit("0");
        }
        "0"
    } else if d == 1 {
        proof {
            reveal_strlit("1");
        }
        "1"
    } else if d == 2 {
        proof {
            reveal_strlit("2");
        }
        "2"
    } else if d == 3 {
        proof {
            reveal_strlit("3");
        }
        "3"
    } else if d == 4 {
        proof {
            reveal_strlit("4");
        }
        "4"
    } else if d == 5 {
        proof {
            reveal_strlit("5");
        }
        "5"
    } else if d == 6 {
        proof {
            reveal_strlit("6");
        }
        "6"
    } else if d == 7 {
        proof {
            reveal_strlit("7");
        }
        "7"
    } else if d == 8 {
        proof {
            reveal_strlit("8");
        }
        "8"
    } else {
        proof {
            reveal_strlit("9");
        }
        "9"
    }
}

/// Appends the decimal rendering of `n`.
pub fn append_decimal(text: &mut String, n: u64)
    ensures
        final(text)@ == old(text)@ + decimal_spec(n as nat),
    decreases n,
{
    if n >= 10 {
        append_decimal(text, n / 10);
    }
    text.append(digit_str(n % 10));
    proof {
        if n >= 10 {
            assert(final(text)@ =~= old(text)@ + decimal_spec(n as nat));
        } else {
            assert(final(text)@ =~= old(text)@ + decimal_spec(n as nat));
        }
    }
}

/// `n.to_string()`.
pub fn decimal_string(n: u64) -> (text: String)
    ensures
        text@ == decimal_spec(n as nat),
{
    let mut text = String::new();
    append_decimal(&mut text, n);
    proof {
        assert(Seq::<char>::empty() + decimal_spec(n as nat) =~= decimal_spec(n as nat));
    }
    text
}

/// The value of a run of ASCII digits.
pub open spec fn digits_value(chars: Seq<char>) -> nat
    decreases chars.len(),
{
    if chars.len() == 0 {
        0
    } else {
        digits_value(chars.drop_last()) * 10 + (chars.last() as nat - 48) as nat
    }
}

pub open spec fn is_ascii_digit(c: char) -> bool {
    '0' <= c <= '9'
}

pub open spec fn all_digits(chars: Seq<char>) -> bool {
    forall|i: int| 0 <= i < chars.len() ==> is_ascii_digit(#[trigger] chars[i])
}

/// `u64::from_str`: an optional `+` followed by at least one ASCII digit,
/// whose value fits in a `u64`.
pub open spec fn parse_u64_spec(chars: Seq<char>) -> Option<u64> {
    let digits = if chars.len() > 0 && chars[0] == '+' {
        chars.drop_first()
    } else {
        chars
    };
    if digits.len() > 0 && all_digits(digits) && digits_value(digits) <= u64::MAX {
        Some(digits_value(digits) as u64)
    } else {
        None
    }
}

proof fn lemma_digits_value_push(chars: Seq<char>, c: char)
    ensures
        digits_value(chars.push(c)) == digits_value(chars) * 10 + (c as nat - 48) as nat,
{
    assert(chars.push(c).drop_last() =~= chars);
}

proof fn lemma_digits_prefix_bound(chars: Seq<char>, k: int)
    requires
        0 <= k <= chars.len(),
        all_digits(chars),
    ensures
        digits_value(chars.take(k)) <= digits_value(chars),
    decreases chars.len() - k,
{
    if k < chars.len() {
        lemma_digits_prefix_bound(chars, k + 1);
        assert(chars.take(k + 1) =~= chars.take(k).push(chars[k]));
        lemma_digits_value_push(chars.take(k), chars[k]);
    } else {
        assert(chars.take(k) =~= chars);
    }
}

/// `u64::from_str` on the characters of a string.
pub fn parse_u64(chars: &[char]) -> (value: Option<u64>)
    ensures
        value == parse_u64_spec(chars@),
{
    let start: usize = if chars.len() > 0 && chars[0] == '+' {
        1
    } else {
        0
    };
    let ghost digits = if chars@.len() > 0 && chars@[0] == '+' {
        chars@.drop_first()
    } else {
        chars@
    };
    proof {
        assert(digits =~= chars@.subrange(start as int, chars@.len() as int));
    }
    if start == chars.len() {
        return None;
    }
    let mut value: u64 = 0;
    let mut index = start;
    while index < chars.len()
        invariant
            start <= index <= chars@.len(),
            digits == chars@.subrange(start as int, chars@.len() as int),
            digits == (if chars@.len() > 0 && chars@[0] == '+' {
                chars@.drop_first()
            } else {
                chars@
            }),
            all_digits(digits.take(index - start)),
            value as nat == digits_value(digits.take(index - start)),
        decreases chars@.len() - index,
    {
        let c = chars[index];
        proof {
            assert(digits[index - start] == c);
            assert(digits.take(index - start + 1) =~= digits.take(index - start).push(c));
            lemma_digits_value_push(digits.take(index - start), c);
        }
        if c < '0' || c > '9' {
            proof {
                let i = index - start;
                assert(!is_ascii_digit(digits[i]));
            }
            return None;
        }
        let d = (c as u32 - 48) as u64;
        if value > (u64::MAX - d) / 10 {
            proof {
                assert(value * 10 + d > u64::MAX) by (nonlinear_arith)
                    requires
                        value > (u64::MAX - d) / 10,
                        d < 10,
                ;
                if all_digits(digits) {
                    lemma_digits_prefix_bound(digits, index - start + 1);
                }
            }
            return None;
        }
        value = value * 10 + d;
        index += 1;
    }
    proof {
        assert(digits.take(index - start) =~= digits);
    }
    Some(value)
}

} // verus!
