//! The quantity grammar for cpu and memory values.
//!
//! A resource value must match `^([+-]?[0-9.]+)([eEinumkKMGTP][-+]?[0-9])$`:
//! an optionally signed run of digits and dots, then a scale or exponent
//! suffix, itself an optionally signed single digit. A value that does not
//! match is rejected by the projector and surfaced through the status.

use vstd::prelude::*;
use vstd::string::*;

verus! {

pub open spec fn is_ascii_digit_char(c: char) -> bool {
    0x30 <= (c as u32) && (c as u32) <= 0x39
}

pub open spec fn is_digit_or_dot_char(c: char) -> bool {
    is_ascii_digit_char(c) || c == '.'
}

pub open spec fn is_sign_char(c: char) -> bool {
    c == '+' || c == '-'
}

/// The scale and exponent markers the grammar admits.
pub open spec fn is_suffix_char(c: char) -> bool {
    ||| c == 'e'
    ||| c == 'E'
    ||| c == 'i'
    ||| c == 'n'
    ||| c == 'u'
    ||| c == 'm'
    ||| c == 'k'
    ||| c == 'K'
    ||| c == 'M'
    ||| c == 'G'
    ||| c == 'T'
    ||| c == 'P'
}

/// One or more digits or dots.
pub open spec fn is_number_body(s: Seq<char>) -> bool {
    s.len() >= 1 && forall|i: int| 0 <= i < s.len() ==> is_digit_or_dot_char(s[i])
}

/// A number body with an optional leading sign.
pub open spec fn is_signed_number(s: Seq<char>) -> bool {
    if s.len() > 0 && is_sign_char(s[0]) {
        is_number_body(s.drop_first())
    } else {
        is_number_body(s)
    }
}

/// Whether `s` matches the quantity grammar.
pub open spec fn is_quantity(s: Seq<char>) -> bool {
    let n = s.len();
    n >= 3 && is_ascii_digit_char(s[n - 1]) && ((is_suffix_char(s[n - 2]) && is_signed_number(
        s.take(n - 2),
    )) || (is_sign_char(s[n - 2]) && n >= 4 && is_suffix_char(s[n - 3]) && is_signed_number(
        s.take(n - 3),
    )))
}

fn check_digit(c: char) -> (r: bool)
    ensures
        r == is_ascii_digit_char(c),
{
    let u = c as u32;
    0x30 <= u && u <= 0x39
}

fn check_sign(c: char) -> (r: bool)
    ensures
        r == is_sign_char(c),
{
    c == '+' || c == '-'
}

fn check_suffix(c: char) -> (r: bool)
    ensures
        r == is_suffix_char(c),
{
    c == 'e' || c == 'E' || c == 'i' || c == 'n' || c == 'u' || c == 'm' || c == 'k' || c == 'K'
        || c == 'M' || c == 'G' || c == 'T' || c == 'P'
}

/// Decides whether the first `end` characters of `s` form a signed number.
fn check_signed_number(s: &str, end: usize) -> (r: bool)
    requires
        end <= s@.len(),
    ensures
        r == is_signed_number(s@.take(end as int)),
{
    let ghost t = s@.take(end as int);
    if end == 0 {
        return false;
    }
    let c0 = s.get_char(0);
    proof {
        assert(t[0] == s@[0]);
    }
    let start: usize = if check_sign(c0) {
        1
    } else {
        0
    };
    if end <= start {
        proof {
            assert(t.drop_first().len() == 0);
        }
        return false;
    }
    let mut i: usize = start;
    while i < end
        invariant
            start <= i <= end,
            end <= s@.len(),
            start <= 1,
            t == s@.take(end as int),
            start == 1 ==> is_sign_char(s@[0]),
            start == 0 ==> !is_sign_char(s@[0]),
            forall|j: int| start <= j < i ==> is_digit_or_dot_char(s@[j]),
        decreases end - i,
    {
        let c = s.get_char(i);
        if !(check_digit(c) || c == '.') {
            proof {
                assert(t[0] == s@[0]);
                assert(t[i as int] == s@[i as int]);
                if start == 1 {
                    assert(t.drop_first()[i - 1] == t[i as int]);
                }
            }
            return false;
        }
        i = i + 1;
    }
    proof {
        if start == 1 {
            assert(forall|j: int|
                0 <= j < t.drop_first().len() ==> #[trigger] t.drop_first()[j] == s@[j + 1]);
        } else {
            assert(forall|j: int| 0 <= j < t.len() ==> #[trigger] t[j] == s@[j]);
        }
    }
    true
}

/// Decides whether `s` matches the quantity grammar.
pub fn is_valid_quantity(s: &str) -> (r: bool)
    ensures
        r == is_quantity(s@),
{
    let n = s.unicode_len();
    if n < 3 {
        return false;
    }
    if !check_digit(s.get_char(n - 1)) {
        return false;
    }
    let prev = s.get_char(n - 2);
    if check_suffix(prev) {
        check_signed_number(s, n - 2)
    } else if check_sign(prev) && n >= 4 && check_suffix(s.get_char(n - 3)) {
        check_signed_number(s, n - 3)
    } else {
        false
    }
}

} // verus!
