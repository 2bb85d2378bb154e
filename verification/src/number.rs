use vstd::prelude::*;
use crate::error::LoadError;

verus! {

/// The byte `+`, which may stand before the digits of an index.
pub const PLUS: u8 = 43;

/// The byte `0`.
pub const DIGIT_ZERO: u8 = 48;

/// The byte `9`.
pub const DIGIT_NINE: u8 = 57;

/// Whether a byte is a decimal digit.
pub open spec fn is_digit(b: u8) -> bool {
    DIGIT_ZERO <= b <= DIGIT_NINE
}

/// Whether every byte of a run is a decimal digit.
pub open spec fn all_digits(s: Seq<u8>) -> bool {
    forall|k: int| 0 <= k < s.len() ==> is_digit(#[trigger] s[k])
}

/// The number that a run of decimal digits writes, most significant first.
pub open spec fn decimal_value(s: Seq<u8>) -> nat
    decreases s.len(),
{
    if s.len() == 0 {
        0
    } else {
        (decimal_value(s.drop_last()) * 10 + (s.last() - DIGIT_ZERO)) as nat
    }
}

/// The digits of a token: the token without one leading `+`.
pub open spec fn digits_of(token: Seq<u8>) -> Seq<u8> {
    if token.len() > 0 && token[0] == PLUS {
        token.skip(1)
    } else {
        token
    }
}

/// Whether a token writes a number: at least one digit and nothing but
/// digits, after an optional `+`.
pub open spec fn is_number(token: Seq<u8>) -> bool {
    digits_of(token).len() > 0 && all_digits(digits_of(token))
}

/// What an index field of a face corner stands for.
///
/// An empty field stands for index 0. A field that writes the number `n >= 1`
/// stands for index `n - 1`: files count from one. The number 0 names
/// nothing that a file can have declared. Note that an empty field and the
/// field `1` both stand for index 0.
pub open spec fn index_of_field(token: Seq<u8>) -> Result<usize, LoadError> {
    if token.len() == 0 {
        Ok(0usize)
    } else if !is_number(token) || decimal_value(digits_of(token)) > usize::MAX {
        Err(LoadError::Parse)
    } else if decimal_value(digits_of(token)) == 0 {
        Err(LoadError::IndexOutOfRange)
    } else {
        Ok((decimal_value(digits_of(token)) - 1) as usize)
    }
}

/// A longer run of digits writes a number at least as large as any of its
/// prefixes.
pub proof fn lemma_decimal_value_grows(s: Seq<u8>, n: int)
    requires
        0 <= n <= s.len(),
        all_digits(s),
    ensures
        decimal_value(s.take(n)) <= decimal_value(s),
    decreases s.len(),
{
    if n == s.len() {
        assert(s.take(n) =~= s);
    } else {
        let front = s.drop_last();
        assert(all_digits(front)) by {
            assert forall|k: int| 0 <= k < front.len() implies is_digit(#[trigger] front[k]) by {
                assert(front[k] == s[k]);
            }
        }
        lemma_decimal_value_grows(front, n);
        assert(front.take(n) =~= s.take(n));
        assert(is_digit(s[s.len() - 1]));
    }
}

/// Reads the decimal number that `token` writes, if it writes one that a
/// `usize` can hold.
pub fn parse_decimal(token: &[u8]) -> (r: Option<usize>)
    ensures
        r is Some <==> is_number(token@) && decimal_value(digits_of(token@)) <= usize::MAX,
        r matches Some(n) ==> n == decimal_value(digits_of(token@)),
{
    let first: usize = if token.len() > 0 && token[0] == PLUS {
        1
    } else {
        0
    };
    if first == token.len() {
        return None;
    }
    let ghost digits = digits_of(token@);
    assert(digits =~= token@.skip(first as int));
    let mut value: usize = 0;
    let mut i: usize = first;
    while i < token.len()
        invariant
            first <= i <= token.len(),
            first <= 1,
            digits == token@.skip(first as int),
            digits == digits_of(token@),
            all_digits(digits.take(i - first)),
            value == decimal_value(digits.take(i - first)),
        decreases token.len() - i,
    {
        let b = token[i];
        let ghost seen = digits.take(i - first);
        let ghost next = digits.take(i - first + 1);
        assert(next.drop_last() =~= seen);
        assert(next.last() == b);
        if b < DIGIT_ZERO || b > DIGIT_NINE {
            assert(!is_digit(digits[i - first]));
            return None;
        }
        assert(all_digits(next)) by {
            assert forall|k: int| 0 <= k < next.len() implies is_digit(#[trigger] next[k]) by {
                if k < seen.len() {
                    assert(next[k] == seen[k]);
                }
            }
        }
        let digit: usize = (b - DIGIT_ZERO) as usize;
        let grown = match value.checked_mul(10) {
            Some(tens) => tens.checked_add(digit),
            None => None,
        };
        match grown {
            Some(v) => {
                value = v;
            },
            None => {
                proof {
                    assert(decimal_value(next) > usize::MAX);
                    if all_digits(digits) {
                        lemma_decimal_value_grows(digits, i - first + 1);
                    }
                }
                return None;
            },
        }
        i += 1;
    }
    assert(digits.take(i - first) =~= digits);
    Some(value)
}

/// Reads one index field of a face corner.
pub fn parse_index(token: &[u8]) -> (r: Result<usize, LoadError>)
    ensures
        r == index_of_field(token@),
{
    if token.len() == 0 {
        return Ok(0);
    }
    match parse_decimal(token) {
        None => Err(LoadError::Parse),
        Some(n) => {
            if n == 0 {
                Err(LoadError::IndexOutOfRange)
            } else {
                Ok(n - 1)
            }
        },
    }
}

} // verus!
