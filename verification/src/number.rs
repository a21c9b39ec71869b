//! Decimal numbers as the command line writes them.
use vstd::prelude::*;

verus! {

/// Why a text is no number.
#[derive(Clone, Copy, Debug, PartialEq, Eq, Structural)]
pub enum NumberError {
    /// The text is empty.
    Empty,
    /// A byte of the text is no digit, or the text is a lone `+`.
    InvalidDigit,
    /// The number does not fit in a `usize`.
    Overflow,
}

/// Whether `byte` is one of the digits `0` to `9`.
pub open spec fn is_digit(byte: u8) -> bool {
    0x30 <= byte <= 0x39
}

/// The number that `digits` spell, read from the left: each byte takes the
/// number so far times ten and adds its digit. The first byte that is no digit,
/// or that takes the number past `usize::MAX`, decides the error.
pub open spec fn scan(digits: Seq<u8>) -> Result<usize, NumberError>
    decreases digits.len(),
{
    if digits.len() == 0 {
        Ok(0)
    } else {
        match scan(digits.drop_last()) {
            Err(error) => Err(error),
            Ok(value) => {
                if !is_digit(digits.last()) {
                    Err(NumberError::InvalidDigit)
                } else if value * 10 + (digits.last() - 0x30) > usize::MAX {
                    Err(NumberError::Overflow)
                } else {
                    Ok((value * 10 + (digits.last() - 0x30)) as usize)
                }
            },
        }
    }
}

/// The number that `text` stands for: digits, with a `+` before them or without.
pub open spec fn number(text: Seq<u8>) -> Result<usize, NumberError> {
    if text.len() == 0 {
        Err(NumberError::Empty)
    } else {
        let digits = if text[0] == 0x2b {
            text.skip(1)
        } else {
            text
        };
        if digits.len() == 0 {
            Err(NumberError::InvalidDigit)
        } else {
            scan(digits)
        }
    }
}

/// Once a prefix of the digits fails, the whole fails the same way.
proof fn lemma_scan_fails_on(digits: Seq<u8>, k: int)
    requires
        0 <= k <= digits.len(),
        scan(digits.take(k)) is Err,
    ensures
        scan(digits) == scan(digits.take(k)),
    decreases digits.len() - k,
{
    if k < digits.len() {
        assert(digits.take(k + 1).drop_last() == digits.take(k));
        lemma_scan_fails_on(digits, k + 1);
    } else {
        assert(digits.take(k) == digits);
    }
}

/// Reads `text` as a number.
pub fn parse_number(text: &[u8]) -> (result: Result<usize, NumberError>)
    ensures
        result == number(text@),
{
    if text.len() == 0 {
        return Err(NumberError::Empty);
    }
    let start: usize = if text[0] == 0x2b {
        1
    } else {
        0
    };
    if start == text.len() {
        return Err(NumberError::InvalidDigit);
    }
    let ghost digits = text@.skip(start as int);
    let mut value: usize = 0;
    let mut i: usize = start;
    proof {
        assert(digits.take(0) == Seq::<u8>::empty());
        assert(text@.skip(0) == text@);
        assert(number(text@) == scan(digits));
    }
    while i < text.len()
        invariant
            start <= i <= text@.len(),
            start < text@.len(),
            digits == text@.skip(start as int),
            number(text@) == scan(digits),
            scan(digits.take(i - start)) == Ok::<usize, NumberError>(value),
        decreases text@.len() - i,
    {
        let byte = text[i];
        proof {
            assert(digits.take(i - start + 1).drop_last() == digits.take(i - start));
            assert(digits.take(i - start + 1).last() == byte);
        }
        if byte < 0x30 || byte > 0x39 {
            proof {
                lemma_scan_fails_on(digits, i - start + 1);
            }
            return Err(NumberError::InvalidDigit);
        }
        let digit: usize = (byte - 0x30) as usize;
        let next = match value.checked_mul(10) {
            Some(tens) => tens.checked_add(digit),
            None => None,
        };
        match next {
            Some(n) => {
                value = n;
            },
            None => {
                proof {
                    lemma_scan_fails_on(digits, i - start + 1);
                }
                return Err(NumberError::Overflow);
            },
        }
        i += 1;
    }
    proof {
        assert(digits.take(i - start) == digits);
    }
    Ok(value)
}

} // verus!
