//! Passwords as text.
use crate::alphabets::{is_ascii, lemma_password_is_ascii, PASSWORD};
use crate::sampler::{
    complete_run, generate, lemma_password_is_of_alphabet, outcome, GenerateError, DRAW_LIMIT,
};
use crate::source::Draw;
use vstd::prelude::*;
use vstd::utf8::{
    decode_utf8, encode_utf8, encode_utf8_decode_utf8, encode_utf8_valid_utf8, is_ascii_chars,
    is_ascii_chars_encode_utf8, valid_utf8,
};

verus! {

/// The characters that the bytes of `bytes` stand for in ASCII.
pub open spec fn ascii_chars(bytes: Seq<u8>) -> Seq<char> {
    Seq::new(bytes.len(), |i: int| bytes[i] as char)
}

/// Bytes of ASCII are valid UTF-8 and decode byte by byte.
pub proof fn lemma_ascii_is_utf8(bytes: Seq<u8>)
    requires
        is_ascii(bytes),
    ensures
        valid_utf8(bytes),
        decode_utf8(bytes) == ascii_chars(bytes),
{
    let chars = ascii_chars(bytes);
    assert(is_ascii_chars(chars)) by {
        assert forall|i: int| 0 <= i < chars.len() implies '\0' <= #[trigger] chars[i]
            <= '\u{7f}' by {
            assert(bytes[i] < 0x80);
        }
    }
    is_ascii_chars_encode_utf8(chars);
    assert(encode_utf8(chars) == bytes) by {
        assert forall|i: int| 0 <= i < bytes.len() implies encode_utf8(chars)[i] == bytes[i] by {
            assert(chars[i] as u8 == encode_utf8(chars)[i]);
            assert(bytes[i] < 0x80);
        }
    }
    encode_utf8_valid_utf8(chars);
    encode_utf8_decode_utf8(chars);
}

/// Over an alphabet of ASCII every password is valid UTF-8.
pub proof fn lemma_ascii_alphabet_gives_text(alphabet: Seq<u8>, length: nat, draws: Seq<Draw>)
    requires
        is_ascii(alphabet),
    ensures
        outcome(alphabet, length, draws) matches Ok(password) ==> valid_utf8(password),
{
    if let Ok(password) = outcome(alphabet, length, draws) {
        lemma_password_is_of_alphabet(alphabet, length, draws);
        lemma_made_of_ascii_is_ascii(alphabet, password);
        lemma_ascii_is_utf8(password);
    }
}

/// Bytes taken from an alphabet of ASCII are bytes of ASCII.
pub proof fn lemma_made_of_ascii_is_ascii(alphabet: Seq<u8>, bytes: Seq<u8>)
    requires
        is_ascii(alphabet),
        forall|i: int| 0 <= i < bytes.len() ==> alphabet.contains(#[trigger] bytes[i]),
    ensures
        is_ascii(bytes),
{
    assert forall|i: int| 0 <= i < bytes.len() implies #[trigger] bytes[i] < 0x80 by {
        assert(alphabet.contains(bytes[i]));
        let j = choose|j: int| 0 <= j < alphabet.len() && alphabet[j] == bytes[i];
        assert(alphabet[j] < 0x80);
    }
}

/// Calls `String::from_utf8`. The claim is that it gives a text for just the
/// bytes that are valid UTF-8, and that the text is what those bytes encode.
#[verifier::external_body]
fn string_from_utf8(bytes: Vec<u8>) -> (text: Option<String>)
    ensures
        text is Some <==> valid_utf8(bytes@),
        text matches Some(s) ==> s@ == decode_utf8(bytes@),
{
    match String::from_utf8(bytes) {
        Ok(s) => Some(s),
        Err(_) => None,
    }
}

/// Turns a password into text, if it is valid UTF-8.
pub fn into_text(password: Vec<u8>) -> (text: Option<String>)
    ensures
        text is Some <==> valid_utf8(password@),
        text matches Some(s) ==> s@ == decode_utf8(password@),
        is_ascii(password@) ==> (text matches Some(s) && s@ == ascii_chars(password@)),
{
    proof {
        if is_ascii(password@) {
            lemma_ascii_is_utf8(password@);
        }
    }
    string_from_utf8(password)
}

/// The text of a password over an alphabet of ASCII has a character for each
/// byte, and each character is of the alphabet.
pub proof fn lemma_text_is_of_alphabet(alphabet: Seq<u8>, password: Seq<u8>)
    requires
        is_ascii(alphabet),
        forall|i: int| 0 <= i < password.len() ==> alphabet.contains(#[trigger] password[i]),
    ensures
        ascii_chars(password).len() == password.len(),
        forall|i: int|
            0 <= i < password.len() ==> alphabet.contains(
                #[trigger] ascii_chars(password)[i] as u8,
            ),
{
    lemma_made_of_ascii_is_ascii(alphabet, password);
    assert forall|i: int| 0 <= i < password.len() implies alphabet.contains(
        #[trigger] ascii_chars(password)[i] as u8,
    ) by {
        assert(password[i] < 0x80);
        assert(alphabet.contains(password[i]));
    }
}

/// How many characters a password of [`mkpasswd`] has.
pub const QUICK_LENGTH: usize = 32;

/// Generates a password of 32 characters of [`PASSWORD`] from the random number
/// generator of the operating system.
///
/// The password is text, one character for each byte that
/// [`generate`](crate::sampler::generate) gives; a failure of the generator is
/// handed on.
pub fn mkpasswd() -> (result: Result<String, GenerateError>)
    ensures
        exists|draws: Seq<Draw>|
            #[trigger] complete_run(PASSWORD@, QUICK_LENGTH as nat, DRAW_LIMIT as nat, draws)
                && match result {
                Ok(text) => outcome(PASSWORD@, QUICK_LENGTH as nat, draws) matches Ok(password)
                    && text@ == ascii_chars(password),
                Err(error) => outcome(PASSWORD@, QUICK_LENGTH as nat, draws) == Err::<
                    Seq<u8>,
                    GenerateError,
                >(error),
            },
        result matches Ok(text) ==> text@.len() == QUICK_LENGTH && forall|i: int|
            0 <= i < text@.len() ==> PASSWORD@.contains(#[trigger] text@[i] as u8),
{
    let alphabet = PASSWORD.as_slice();
    proof {
        lemma_password_is_ascii();
    }
    let password = generate(alphabet, QUICK_LENGTH)?;
    proof {
        lemma_made_of_ascii_is_ascii(alphabet@, password@);
        lemma_text_is_of_alphabet(alphabet@, password@);
    }
    match into_text(password) {
        Some(text) => Ok(text),
        None => vstd::pervasive::unreached(),
    }
}

} // verus!
