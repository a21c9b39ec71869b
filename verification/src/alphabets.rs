//! Alphabets: the sets of bytes that a password may be made of.
//!
//! The sampler takes any non-empty sequence of bytes. A byte that occurs twice
//! is drawn twice as often, so an alphabet is best kept *sanitized*: in strictly
//! rising order, which leaves no room for a duplicate. The alphabets of this
//! module are, and [`sanitize`] makes any other so.
use vstd::prelude::*;

verus! {

/// The characters of ASCII that show in print, but for `0`, `O`, `1`, `I`, `l` and `|`,
/// which are easily taken for one another.
pub const PASSWORD: [u8; 88] = [
    '!' as u8, '"' as u8, '#' as u8, '$' as u8, '%' as u8, '&' as u8, '\'' as u8, '(' as u8,
    ')' as u8, '*' as u8, '+' as u8, ',' as u8, '-' as u8, '.' as u8, '/' as u8, '2' as u8,
    '3' as u8, '4' as u8, '5' as u8, '6' as u8, '7' as u8, '8' as u8, '9' as u8, ':' as u8,
    ';' as u8, '<' as u8, '=' as u8, '>' as u8, '?' as u8, '@' as u8, 'A' as u8, 'B' as u8,
    'C' as u8, 'D' as u8, 'E' as u8, 'F' as u8, 'G' as u8, 'H' as u8, 'J' as u8, 'K' as u8,
    'L' as u8, 'M' as u8, 'N' as u8, 'P' as u8, 'Q' as u8, 'R' as u8, 'S' as u8, 'T' as u8,
    'U' as u8, 'V' as u8, 'W' as u8, 'X' as u8, 'Y' as u8, 'Z' as u8, '[' as u8, '\\' as u8,
    ']' as u8, '^' as u8, '_' as u8, '`' as u8, 'a' as u8, 'b' as u8, 'c' as u8, 'd' as u8,
    'e' as u8, 'f' as u8, 'g' as u8, 'h' as u8, 'i' as u8, 'j' as u8, 'k' as u8, 'm' as u8,
    'n' as u8, 'o' as u8, 'p' as u8, 'q' as u8, 'r' as u8, 's' as u8, 't' as u8, 'u' as u8,
    'v' as u8, 'w' as u8, 'x' as u8, 'y' as u8, 'z' as u8, '{' as u8, '}' as u8, '~' as u8,
];

/// The digits and the letters `A` to `Z` and `a` to `z`.
pub const LATIN_NUMBERS: [u8; 62] = [
    '0' as u8, '1' as u8, '2' as u8, '3' as u8, '4' as u8, '5' as u8, '6' as u8, '7' as u8,
    '8' as u8, '9' as u8, 'A' as u8, 'B' as u8, 'C' as u8, 'D' as u8, 'E' as u8, 'F' as u8,
    'G' as u8, 'H' as u8, 'I' as u8, 'J' as u8, 'K' as u8, 'L' as u8, 'M' as u8, 'N' as u8,
    'O' as u8, 'P' as u8, 'Q' as u8, 'R' as u8, 'S' as u8, 'T' as u8, 'U' as u8, 'V' as u8,
    'W' as u8, 'X' as u8, 'Y' as u8, 'Z' as u8, 'a' as u8, 'b' as u8, 'c' as u8, 'd' as u8,
    'e' as u8, 'f' as u8, 'g' as u8, 'h' as u8, 'i' as u8, 'j' as u8, 'k' as u8, 'l' as u8,
    'm' as u8, 'n' as u8, 'o' as u8, 'p' as u8, 'q' as u8, 'r' as u8, 's' as u8, 't' as u8,
    'u' as u8, 'v' as u8, 'w' as u8, 'x' as u8, 'y' as u8, 'z' as u8,
];

/// The characters of Base64: digits, letters, `+` and `/`.
pub const BASE64: [u8; 64] = [
    '+' as u8, '/' as u8, '0' as u8, '1' as u8, '2' as u8, '3' as u8, '4' as u8, '5' as u8,
    '6' as u8, '7' as u8, '8' as u8, '9' as u8, 'A' as u8, 'B' as u8, 'C' as u8, 'D' as u8,
    'E' as u8, 'F' as u8, 'G' as u8, 'H' as u8, 'I' as u8, 'J' as u8, 'K' as u8, 'L' as u8,
    'M' as u8, 'N' as u8, 'O' as u8, 'P' as u8, 'Q' as u8, 'R' as u8, 'S' as u8, 'T' as u8,
    'U' as u8, 'V' as u8, 'W' as u8, 'X' as u8, 'Y' as u8, 'Z' as u8, 'a' as u8, 'b' as u8,
    'c' as u8, 'd' as u8, 'e' as u8, 'f' as u8, 'g' as u8, 'h' as u8, 'i' as u8, 'j' as u8,
    'k' as u8, 'l' as u8, 'm' as u8, 'n' as u8, 'o' as u8, 'p' as u8, 'q' as u8, 'r' as u8,
    's' as u8, 't' as u8, 'u' as u8, 'v' as u8, 'w' as u8, 'x' as u8, 'y' as u8, 'z' as u8,
];

/// The characters of Base64 for URLs and file names: digits, letters, `-` and `_`.
pub const BASE64_URL: [u8; 64] = [
    '-' as u8, '0' as u8, '1' as u8, '2' as u8, '3' as u8, '4' as u8, '5' as u8, '6' as u8,
    '7' as u8, '8' as u8, '9' as u8, 'A' as u8, 'B' as u8, 'C' as u8, 'D' as u8, 'E' as u8,
    'F' as u8, 'G' as u8, 'H' as u8, 'I' as u8, 'J' as u8, 'K' as u8, 'L' as u8, 'M' as u8,
    'N' as u8, 'O' as u8, 'P' as u8, 'Q' as u8, 'R' as u8, 'S' as u8, 'T' as u8, 'U' as u8,
    'V' as u8, 'W' as u8, 'X' as u8, 'Y' as u8, 'Z' as u8, '_' as u8, 'a' as u8, 'b' as u8,
    'c' as u8, 'd' as u8, 'e' as u8, 'f' as u8, 'g' as u8, 'h' as u8, 'i' as u8, 'j' as u8,
    'k' as u8, 'l' as u8, 'm' as u8, 'n' as u8, 'o' as u8, 'p' as u8, 'q' as u8, 'r' as u8,
    's' as u8, 't' as u8, 'u' as u8, 'v' as u8, 'w' as u8, 'x' as u8, 'y' as u8, 'z' as u8,
];

/// The digits `0` to `9`.
pub const NUMBERS: [u8; 10] = [
    '0' as u8, '1' as u8, '2' as u8, '3' as u8, '4' as u8, '5' as u8, '6' as u8, '7' as u8,
    '8' as u8, '9' as u8,
];

/// The letters `A` to `Z` and `a` to `z`.
pub const LATIN: [u8; 52] = [
    'A' as u8, 'B' as u8, 'C' as u8, 'D' as u8, 'E' as u8, 'F' as u8, 'G' as u8, 'H' as u8,
    'I' as u8, 'J' as u8, 'K' as u8, 'L' as u8, 'M' as u8, 'N' as u8, 'O' as u8, 'P' as u8,
    'Q' as u8, 'R' as u8, 'S' as u8, 'T' as u8, 'U' as u8, 'V' as u8, 'W' as u8, 'X' as u8,
    'Y' as u8, 'Z' as u8, 'a' as u8, 'b' as u8, 'c' as u8, 'd' as u8, 'e' as u8, 'f' as u8,
    'g' as u8, 'h' as u8, 'i' as u8, 'j' as u8, 'k' as u8, 'l' as u8, 'm' as u8, 'n' as u8,
    'o' as u8, 'p' as u8, 'q' as u8, 'r' as u8, 's' as u8, 't' as u8, 'u' as u8, 'v' as u8,
    'w' as u8, 'x' as u8, 'y' as u8, 'z' as u8,
];

/// The letters `a` to `z`.
pub const LATIN_LOWER: [u8; 26] = [
    'a' as u8, 'b' as u8, 'c' as u8, 'd' as u8, 'e' as u8, 'f' as u8, 'g' as u8, 'h' as u8,
    'i' as u8, 'j' as u8, 'k' as u8, 'l' as u8, 'm' as u8, 'n' as u8, 'o' as u8, 'p' as u8,
    'q' as u8, 'r' as u8, 's' as u8, 't' as u8, 'u' as u8, 'v' as u8, 'w' as u8, 'x' as u8,
    'y' as u8, 'z' as u8,
];

/// The digits and the letters `a` to `z`.
pub const LATIN_LOWER_NUMBERS: [u8; 36] = [
    '0' as u8, '1' as u8, '2' as u8, '3' as u8, '4' as u8, '5' as u8, '6' as u8, '7' as u8,
    '8' as u8, '9' as u8, 'a' as u8, 'b' as u8, 'c' as u8, 'd' as u8, 'e' as u8, 'f' as u8,
    'g' as u8, 'h' as u8, 'i' as u8, 'j' as u8, 'k' as u8, 'l' as u8, 'm' as u8, 'n' as u8,
    'o' as u8, 'p' as u8, 'q' as u8, 'r' as u8, 's' as u8, 't' as u8, 'u' as u8, 'v' as u8,
    'w' as u8, 'x' as u8, 'y' as u8, 'z' as u8,
];

/// The letters `A` to `Z`.
pub const LATIN_UPPER: [u8; 26] = [
    'A' as u8, 'B' as u8, 'C' as u8, 'D' as u8, 'E' as u8, 'F' as u8, 'G' as u8, 'H' as u8,
    'I' as u8, 'J' as u8, 'K' as u8, 'L' as u8, 'M' as u8, 'N' as u8, 'O' as u8, 'P' as u8,
    'Q' as u8, 'R' as u8, 'S' as u8, 'T' as u8, 'U' as u8, 'V' as u8, 'W' as u8, 'X' as u8,
    'Y' as u8, 'Z' as u8,
];

/// The digits and the letters `A` to `Z`.
pub const LATIN_UPPER_NUMBERS: [u8; 36] = [
    '0' as u8, '1' as u8, '2' as u8, '3' as u8, '4' as u8, '5' as u8, '6' as u8, '7' as u8,
    '8' as u8, '9' as u8, 'A' as u8, 'B' as u8, 'C' as u8, 'D' as u8, 'E' as u8, 'F' as u8,
    'G' as u8, 'H' as u8, 'I' as u8, 'J' as u8, 'K' as u8, 'L' as u8, 'M' as u8, 'N' as u8,
    'O' as u8, 'P' as u8, 'Q' as u8, 'R' as u8, 'S' as u8, 'T' as u8, 'U' as u8, 'V' as u8,
    'W' as u8, 'X' as u8, 'Y' as u8, 'Z' as u8,
];

/// Whether `alphabet` is not empty and in strictly rising order.
pub open spec fn is_sanitized(alphabet: Seq<u8>) -> bool {
    &&& alphabet.len() > 0
    &&& forall|i: int, j: int| 0 <= i < j < alphabet.len() ==> alphabet[i] < alphabet[j]
}

/// Whether each byte of `bytes` is a character of ASCII.
pub open spec fn is_ascii(bytes: Seq<u8>) -> bool {
    forall|i: int| 0 <= i < bytes.len() ==> #[trigger] bytes[i] < 0x80
}

/// Whether each byte of `alphabet` is a character of ASCII that shows in print.
pub open spec fn is_visible_ascii(alphabet: Seq<u8>) -> bool {
    forall|i: int| 0 <= i < alphabet.len() ==> 0x21 <= #[trigger] alphabet[i] <= 0x7e
}

/// Whether each byte of `alphabet` but the last is less than the next.
pub open spec fn rises(alphabet: Seq<u8>) -> bool {
    forall|i: int| 0 <= i < alphabet.len() - 1 ==> #[trigger] alphabet[i] < alphabet[i + 1]
}

/// A non-empty alphabet that rises from each byte to the next is sanitized.
pub proof fn lemma_rising_is_sanitized(alphabet: Seq<u8>)
    requires
        alphabet.len() > 0,
        rises(alphabet),
    ensures
        is_sanitized(alphabet),
{
    assert forall|i: int, j: int| 0 <= i < j < alphabet.len() implies alphabet[i] < alphabet[j] by {
        lemma_rising_between(alphabet, i, j);
    }
}

proof fn lemma_rising_between(alphabet: Seq<u8>, i: int, j: int)
    requires
        rises(alphabet),
        0 <= i < j < alphabet.len(),
    ensures
        alphabet[i] < alphabet[j],
    decreases j - i,
{
    if i + 1 < j {
        lemma_rising_between(alphabet, i, j - 1);
    }
    assert(alphabet[j - 1] < alphabet[j - 1 + 1]);
}

proof fn lemma_password_is_sanitized()
    ensures
        is_sanitized(PASSWORD@),
        is_visible_ascii(PASSWORD@),
{
    assert(rises(PASSWORD@));
    lemma_rising_is_sanitized(PASSWORD@);
}

proof fn lemma_latin_numbers_is_sanitized()
    ensures
        is_sanitized(LATIN_NUMBERS@),
        is_visible_ascii(LATIN_NUMBERS@),
{
    assert(rises(LATIN_NUMBERS@));
    lemma_rising_is_sanitized(LATIN_NUMBERS@);
}

proof fn lemma_base64_is_sanitized()
    ensures
        is_sanitized(BASE64@),
        is_visible_ascii(BASE64@),
{
    assert(rises(BASE64@));
    lemma_rising_is_sanitized(BASE64@);
}

proof fn lemma_base64_url_is_sanitized()
    ensures
        is_sanitized(BASE64_URL@),
        is_visible_ascii(BASE64_URL@),
{
    assert(rises(BASE64_URL@));
    lemma_rising_is_sanitized(BASE64_URL@);
}

proof fn lemma_numbers_is_sanitized()
    ensures
        is_sanitized(NUMBERS@),
        is_visible_ascii(NUMBERS@),
{
    assert(rises(NUMBERS@));
    lemma_rising_is_sanitized(NUMBERS@);
}

proof fn lemma_latin_is_sanitized()
    ensures
        is_sanitized(LATIN@),
        is_visible_ascii(LATIN@),
{
    assert(rises(LATIN@));
    lemma_rising_is_sanitized(LATIN@);
}

proof fn lemma_latin_lower_is_sanitized()
    ensures
        is_sanitized(LATIN_LOWER@),
        is_visible_ascii(LATIN_LOWER@),
{
    assert(rises(LATIN_LOWER@));
    lemma_rising_is_sanitized(LATIN_LOWER@);
}

proof fn lemma_latin_lower_numbers_is_sanitized()
    ensures
        is_sanitized(LATIN_LOWER_NUMBERS@),
        is_visible_ascii(LATIN_LOWER_NUMBERS@),
{
    assert(rises(LATIN_LOWER_NUMBERS@));
    lemma_rising_is_sanitized(LATIN_LOWER_NUMBERS@);
}

proof fn lemma_latin_upper_is_sanitized()
    ensures
        is_sanitized(LATIN_UPPER@),
        is_visible_ascii(LATIN_UPPER@),
{
    assert(rises(LATIN_UPPER@));
    lemma_rising_is_sanitized(LATIN_UPPER@);
}

proof fn lemma_latin_upper_numbers_is_sanitized()
    ensures
        is_sanitized(LATIN_UPPER_NUMBERS@),
        is_visible_ascii(LATIN_UPPER_NUMBERS@),
{
    assert(rises(LATIN_UPPER_NUMBERS@));
    lemma_rising_is_sanitized(LATIN_UPPER_NUMBERS@);
}

/// [`PASSWORD`] is not empty and made of ASCII.
pub proof fn lemma_password_is_ascii()
    ensures
        PASSWORD@.len() == 88,
        is_ascii(PASSWORD@),
{
    lemma_password_is_sanitized();
}

/// Each alphabet of this module is sanitized and made of visible ASCII.
pub proof fn lemma_catalog_is_sanitized()
    ensures
        is_sanitized(PASSWORD@),
        is_visible_ascii(PASSWORD@),
        is_sanitized(LATIN_NUMBERS@),
        is_visible_ascii(LATIN_NUMBERS@),
        is_sanitized(BASE64@),
        is_visible_ascii(BASE64@),
        is_sanitized(BASE64_URL@),
        is_visible_ascii(BASE64_URL@),
        is_sanitized(NUMBERS@),
        is_visible_ascii(NUMBERS@),
        is_sanitized(LATIN@),
        is_visible_ascii(LATIN@),
        is_sanitized(LATIN_LOWER@),
        is_visible_ascii(LATIN_LOWER@),
        is_sanitized(LATIN_LOWER_NUMBERS@),
        is_visible_ascii(LATIN_LOWER_NUMBERS@),
        is_sanitized(LATIN_UPPER@),
        is_visible_ascii(LATIN_UPPER@),
        is_sanitized(LATIN_UPPER_NUMBERS@),
        is_visible_ascii(LATIN_UPPER_NUMBERS@),
{
    lemma_password_is_sanitized();
    lemma_latin_numbers_is_sanitized();
    lemma_base64_is_sanitized();
    lemma_base64_url_is_sanitized();
    lemma_numbers_is_sanitized();
    lemma_latin_is_sanitized();
    lemma_latin_lower_is_sanitized();
    lemma_latin_lower_numbers_is_sanitized();
    lemma_latin_upper_is_sanitized();
    lemma_latin_upper_numbers_is_sanitized();
}

/// Tells whether `byte` occurs in `alphabet`.
pub fn contains(alphabet: &[u8], byte: u8) -> (found: bool)
    ensures
        found == alphabet@.contains(byte),
{
    let mut i: usize = 0;
    while i < alphabet.len()
        invariant
            i <= alphabet@.len(),
            forall|j: int| 0 <= j < i ==> alphabet@[j] != byte,
        decreases alphabet@.len() - i,
    {
        if alphabet[i] == byte {
            return true;
        }
        i += 1;
    }
    false
}

/// The byte values below `bound` that occur in `bytes`, in rising order.
pub open spec fn sanitized_below(bytes: Seq<u8>, bound: nat) -> Seq<u8> {
    Seq::new(bound, |value: int| value as u8).filter(|b: u8| bytes.contains(b))
}

/// The bytes of `bytes` in rising order, each once.
pub open spec fn sanitized(bytes: Seq<u8>) -> Seq<u8> {
    sanitized_below(bytes, 256)
}

/// Puts the bytes of `bytes` in rising order and drops the duplicates.
pub fn sanitize(bytes: &[u8]) -> (alphabet: Vec<u8>)
    ensures
        alphabet@ == sanitized(bytes@),
        forall|b: u8| alphabet@.contains(b) <==> bytes@.contains(b),
        forall|i: int, j: int| 0 <= i < j < alphabet@.len() ==> alphabet@[i] < alphabet@[j],
        bytes@.len() > 0 ==> is_sanitized(alphabet@),
{
    let mut alphabet: Vec<u8> = Vec::new();
    let mut value: u8 = 0;
    proof {
        reveal(Seq::filter);
        assert(sanitized_below(bytes@, 0) == Seq::<u8>::empty());
    }
    loop
        invariant_except_break
            alphabet@ == sanitized_below(bytes@, value as nat),
        ensures
            alphabet@ == sanitized(bytes@),
        decreases 255 - value,
    {
        proof {
            let values = Seq::new(value as nat + 1, |v: int| v as u8);
            assert(values.drop_last() == Seq::new(value as nat, |v: int| v as u8));
            assert(values.last() == value);
            reveal(Seq::filter);
            assert(sanitized_below(bytes@, value as nat + 1) == if bytes@.contains(value) {
                alphabet@.push(value)
            } else {
                alphabet@
            });
        }
        if contains(bytes, value) {
            alphabet.push(value);
        }
        if value == 255 {
            break ;
        }
        value += 1;
    }
    proof {
        lemma_sanitized_is_sanitized(bytes@);
    }
    alphabet
}

/// What [`sanitized`] gives holds the bytes of `bytes` and no others, in
/// strictly rising order.
pub proof fn lemma_sanitized_is_sanitized(bytes: Seq<u8>)
    ensures
        forall|b: u8| sanitized(bytes).contains(b) <==> bytes.contains(b),
        forall|i: int, j: int|
            0 <= i < j < sanitized(bytes).len() ==> sanitized(bytes)[i] < sanitized(bytes)[j],
        bytes.len() > 0 ==> is_sanitized(sanitized(bytes)),
{
    lemma_sanitized_below(bytes, 256);
    if bytes.len() > 0 {
        assert(bytes.contains(bytes[0]));
        assert(sanitized(bytes).contains(bytes[0]));
    }
}

proof fn lemma_sanitized_below(bytes: Seq<u8>, bound: nat)
    requires
        bound <= 256,
    ensures
        forall|b: u8| sanitized_below(bytes, bound).contains(b) <==> b < bound && bytes.contains(b),
        forall|i: int, j: int|
            0 <= i < j < sanitized_below(bytes, bound).len() ==> sanitized_below(bytes, bound)[i]
                < sanitized_below(bytes, bound)[j],
    decreases bound,
{
    reveal(Seq::filter);
    if bound == 0 {
        assert(sanitized_below(bytes, 0) == Seq::<u8>::empty());
    } else {
        let below = (bound - 1) as nat;
        let value = below as u8;
        lemma_sanitized_below(bytes, below);
        let earlier = sanitized_below(bytes, below);
        let values = Seq::new(bound, |v: int| v as u8);
        assert(values.drop_last() == Seq::new(below, |v: int| v as u8));
        assert(values.last() == value);
        let now = sanitized_below(bytes, bound);
        assert(now == if bytes.contains(value) {
            earlier.push(value)
        } else {
            earlier
        });
        if bytes.contains(value) {
            assert(now.last() == value);
            assert forall|b: u8| now.contains(b) <==> b < bound && bytes.contains(b) by {
                if earlier.contains(b) {
                    let i = choose|i: int| 0 <= i < earlier.len() && earlier[i] == b;
                    assert(now[i] == b);
                }
                if now.contains(b) && b != value {
                    let i = choose|i: int| 0 <= i < now.len() && now[i] == b;
                    assert(earlier[i] == b);
                }
            }
            assert forall|i: int, j: int| 0 <= i < j < now.len() implies now[i] < now[j] by {
                if j == earlier.len() {
                    assert(earlier.contains(earlier[i]));
                }
            }
        }
    }
}

} // verus!
