//! Stash references as written on a command line: a bare position such as
//! `2`, or the bracketed form `stash@{2}`.

use crate::text::chars_of;
use vstd::prelude::*;

verus! {

/// Whether `c` is an ASCII decimal digit.
pub open spec fn is_digit(c: char) -> bool {
    '0' <= c <= '9'
}

/// The value of the digit `c`; 0 for any other character.
pub open spec fn digit_value(c: char) -> nat {
    if is_digit(c) {
        (c as u32 - '0' as u32) as nat
    } else {
        0
    }
}

/// The number that `digits` spell in base ten, most significant first.
pub open spec fn decimal_value(digits: Seq<char>) -> nat
    decreases digits.len(),
{
    if digits.len() == 0 {
        0
    } else {
        10 * decimal_value(digits.drop_last()) + digit_value(digits.last())
    }
}

/// Whether every character of `s` is a digit.
pub open spec fn all_digits(s: Seq<char>) -> bool {
    forall|i: int| 0 <= i < s.len() ==> is_digit(#[trigger] s[i])
}

/// `s` without the plus sign that may stand in front of a number.
pub open spec fn without_sign(s: Seq<char>) -> Seq<char> {
    if s.len() > 0 && s[0] == '+' {
        s.drop_first()
    } else {
        s
    }
}

/// The position that `s` spells: an optional `+`, then at least one digit,
/// the whole no greater than `usize::MAX`. Nothing else is a position.
pub open spec fn position_of(s: Seq<char>) -> Option<usize> {
    let digits = without_sign(s);
    if digits.len() > 0 && all_digits(digits) && decimal_value(digits) <= usize::MAX {
        Some(decimal_value(digits) as usize)
    } else {
        None
    }
}

/// What opens the bracketed form.
pub open spec fn bracket_open() -> Seq<char> {
    seq!['s', 't', 'a', 's', 'h', '@', '{']
}

/// What stands between `stash@{` and `}`, where `s` has that form.
pub open spec fn bracketed(s: Seq<char>) -> Option<Seq<char>> {
    if s.len() >= 8 && s.take(7) == bracket_open() && s.last() == '}' {
        Some(s.subrange(7, s.len() - 1))
    } else {
        None
    }
}

/// The position that the stash reference `s` names, if it names one: that
/// between the brackets where `s` has the bracketed form, and that which
/// `s` itself spells otherwise.
pub open spec fn stash_ref_position(s: Seq<char>) -> Option<usize> {
    match bracketed(s) {
        Some(inner) => position_of(inner),
        None => position_of(s),
    }
}

/// What is reported for a reference that names no position.
pub open spec fn invalid_reference(s: Seq<char>) -> Seq<char> {
    "Invalid stash reference: "@ + s
}

/// A number is no smaller than what any of its leading digits spell.
pub proof fn lemma_decimal_value_grows(digits: Seq<char>, k: int)
    requires
        0 <= k <= digits.len(),
    ensures
        decimal_value(digits.take(k)) <= decimal_value(digits),
    decreases digits.len() - k,
{
    if k == digits.len() {
        assert(digits.take(k) =~= digits);
    } else {
        lemma_decimal_value_grows(digits.drop_last(), k);
        assert(digits.drop_last().take(k) =~= digits.take(k));
    }
}

/// The position that the characters of `chars` from `from` up to `to` spell.
fn parse_position(chars: &Vec<char>, from: usize, to: usize) -> (r: Option<usize>)
    requires
        from <= to <= chars@.len(),
    ensures
        r == position_of(chars@.subrange(from as int, to as int)),
{
    let start = if from < to && chars[from] == '+' {
        from + 1
    } else {
        from
    };
    let ghost digits = chars@.subrange(start as int, to as int);
    if start == to {
        return None;
    }
    let mut value: usize = 0;
    let mut i: usize = start;
    while i < to
        invariant
            from <= start <= i <= to <= chars@.len(),
            start < to,
            digits == chars@.subrange(start as int, to as int),
            digits == without_sign(chars@.subrange(from as int, to as int)),
            all_digits(digits.take(i - start)),
            value == decimal_value(digits.take(i - start)),
        decreases to - i,
    {
        let c = chars[i];
        let ghost k = i - start;
        assert(digits[k] == c);
        assert(digits.take(k + 1).drop_last() =~= digits.take(k));
        if !('0' <= c && c <= '9') {
            return None;
        }
        let digit = (c as u32 - '0' as u32) as usize;
        proof {
            lemma_decimal_value_grows(digits, k + 1);
        }
        let tens = match value.checked_mul(10) {
            Some(tens) => tens,
            None => {
                return None;
            },
        };
        value = match tens.checked_add(digit) {
            Some(sum) => sum,
            None => {
                return None;
            },
        };
        i += 1;
    }
    assert(digits.take(to - start) =~= digits);
    Some(value)
}

/// Whether `chars` has the bracketed form `stash@{..}`.
fn is_bracketed(chars: &Vec<char>) -> (b: bool)
    ensures
        b == bracketed(chars@) is Some,
{
    let n = chars.len();
    let b = n >= 8 && chars[0] == 's' && chars[1] == 't' && chars[2] == 'a' && chars[3] == 's'
        && chars[4] == 'h' && chars[5] == '@' && chars[6] == '{' && chars[n - 1] == '}';
    proof {
        if b {
            assert(chars@.take(7) =~= bracket_open());
        }
    }
    b
}

/// Reads a stash reference: a bare position, or `stash@{N}` for the
/// position `N`. Anything else is reported as an invalid reference, with
/// the reference as it was given.
pub fn parse_stash_ref(stash_ref: &str) -> (r: Result<usize, String>)
    ensures
        match r {
            Ok(position) => stash_ref_position(stash_ref@) == Some(position),
            Err(report) => stash_ref_position(stash_ref@) is None && report@ == invalid_reference(
                stash_ref@,
            ),
        },
{
    let chars = chars_of(stash_ref);
    let n = chars.len();
    let found = if is_bracketed(&chars) {
        parse_position(&chars, 7, n - 1)
    } else {
        assert(chars@.subrange(0, n as int) =~= chars@);
        parse_position(&chars, 0, n)
    };
    match found {
        Some(position) => Ok(position),
        None => {
            let mut report = String::from_str("Invalid stash reference: ");
            report.append(stash_ref);
            Err(report)
        },
    }
}

} // verus!
