//! Reading an index out of text: an optional `+`, then decimal digits that
//! denote a number no larger than `usize::MAX`.

use vstd::prelude::*;
use vstd::std_specs::iter::IteratorSpec;
use vstd::string::*;
use crate::error::IntErrorKind;

verus! {

/// Whether `c` is one of the ten decimal digits.
pub open spec fn is_digit(c: char) -> bool {
    '0' <= c && c <= '9'
}

/// The number that the digit `c` stands for.
pub open spec fn digit_value(c: char) -> nat
    recommends
        is_digit(c),
{
    (c as nat - '0' as nat) as nat
}

/// The number that a run of digits denotes, read in base ten.
pub open spec fn decimal_value(digits: Seq<char>) -> nat
    decreases digits.len(),
{
    if digits.len() == 0 {
        0
    } else {
        10 * decimal_value(digits.drop_last()) + digit_value(digits.last())
    }
}

/// How many characters at the front of `s` are digits.
pub open spec fn digit_prefix_len(s: Seq<char>) -> nat
    decreases s.len(),
{
    if s.len() > 0 && is_digit(s[0]) {
        1 + digit_prefix_len(s.skip(1))
    } else {
        0
    }
}

/// The part of `s` that is read as digits: all of it, but for a leading `+`
/// that something follows.
pub open spec fn unsigned_part(s: Seq<char>) -> Seq<char> {
    if s.len() > 1 && s[0] == '+' {
        s.skip(1)
    } else {
        s
    }
}

/// The index that `s` denotes, or the reason why it denotes none.
///
/// Empty text is `Empty`. Otherwise the digits at the front of the unsigned
/// part are read: a number above `usize::MAX` is `PosOverflow`, and anything
/// left after the digits is `InvalidDigit`.
pub open spec fn parsed_index(s: Seq<char>) -> Result<usize, IntErrorKind> {
    if s.len() == 0 {
        Err(IntErrorKind::Empty)
    } else {
        let body = unsigned_part(s);
        let run = body.take(digit_prefix_len(body) as int);
        if decimal_value(run) > usize::MAX {
            Err(IntErrorKind::PosOverflow)
        } else if run.len() < body.len() {
            Err(IntErrorKind::InvalidDigit)
        } else {
            Ok(decimal_value(run) as usize)
        }
    }
}

/// The digit prefix is at least as long as any run of digits at the front,
/// and exactly that long where the run ends.
pub proof fn lemma_digit_prefix_len(s: Seq<char>, m: int)
    requires
        0 <= m <= s.len(),
        forall|j: int| 0 <= j < m ==> is_digit(#[trigger] s[j]),
    ensures
        digit_prefix_len(s) >= m,
        digit_prefix_len(s) <= s.len(),
        (m == s.len() || !is_digit(s[m])) ==> digit_prefix_len(s) == m,
    decreases s.len(),
{
    if s.len() > 0 && is_digit(s[0]) {
        let rest = s.skip(1);
        if m > 0 {
            assert forall|j: int| 0 <= j < m - 1 implies is_digit(#[trigger] rest[j]) by {
                assert(rest[j] == s[j + 1]);
            }
            if m < s.len() {
                assert(rest[m - 1] == s[m]);
            }
            lemma_digit_prefix_len(rest, m - 1);
        } else {
            lemma_digit_prefix_len(rest, 0);
        }
    }
}

/// Reading more digits never gives a smaller number.
pub proof fn lemma_decimal_value_monotone(s: Seq<char>, i: int, j: int)
    requires
        0 <= i <= j <= s.len(),
    ensures
        decimal_value(s.take(i)) <= decimal_value(s.take(j)),
    decreases j - i,
{
    if i < j {
        lemma_decimal_value_monotone(s, i, j - 1);
        assert(s.take(j).drop_last() =~= s.take(j - 1));
    }
}

/// Reads an index from `s`.
pub fn parse_index(s: &str) -> (r: Result<usize, IntErrorKind>)
    ensures
        r == parsed_index(s@),
{
    broadcast use {axiom_spec_iter, next_postcondition};

    let mut chars = s.chars();
    let first = chars.next();
    let mut current = match first {
        None => {
            return Err(IntErrorKind::Empty);
        },
        Some('+') => {
            match chars.next() {
                None => {
                    proof {
                        lemma_digit_prefix_len(s@, 0);
                    }
                    return Err(IntErrorKind::InvalidDigit);
                },
                following => following,
            }
        },
        other => other,
    };
    let ghost body = unsigned_part(s@);
    let ghost mut k: int = 0;
    let mut acc: usize = 0;
    while current.is_some()
        invariant
            s@.len() > 0,
            body == unsigned_part(s@),
            0 <= k <= body.len(),
            match current {
                Some(c) => k < body.len() && c == body[k] && chars.remaining() == body.skip(k + 1),
                None => k == body.len(),
            },
            forall|j: int| 0 <= j < k ==> is_digit(#[trigger] body[j]),
            acc == decimal_value(body.take(k)),
        decreases body.len() - k,
    {
        let c = current.unwrap();
        if !('0' <= c && c <= '9') {
            proof {
                lemma_digit_prefix_len(body, k);
            }
            return Err(IntErrorKind::InvalidDigit);
        }
        let v: usize = (c as u32 - '0' as u32) as usize;
        proof {
            assert(body.take(k + 1).drop_last() =~= body.take(k));
            assert(decimal_value(body.take(k + 1)) == 10 * acc + v);
        }
        let next = match acc.checked_mul(10) {
            Some(tens) => tens.checked_add(v),
            None => None,
        };
        match next {
            Some(value) => {
                acc = value;
            },
            None => {
                proof {
                    lemma_digit_prefix_len(body, k + 1);
                    lemma_decimal_value_monotone(body, k + 1, digit_prefix_len(body) as int);
                }
                return Err(IntErrorKind::PosOverflow);
            },
        }
        current = chars.next();
        proof {
            k = k + 1;
        }
    }
    proof {
        lemma_digit_prefix_len(body, body.len() as int);
        assert(body.take(body.len() as int) =~= body);
    }
    Ok(acc)
}

} // verus!
