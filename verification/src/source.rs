//! Randomness sources: where the sampler gets its raw bytes from.
//!
//! A source hands out words of eight bytes and may fail. The sampler reads a
//! source through [`Recorded`], which keeps a ghost record of every request, so
//! that a contract can say which bytes a result was made from.
use rand_core::RngCore;
use vstd::prelude::*;

verus! {

/// A randomness source could not produce data.
#[derive(Clone, Copy, Debug, PartialEq, Eq, Structural)]
pub struct Failure {
    /// The numeric code that the source gave for the failure, if it gave one.
    pub code: Option<u32>,
}

/// What one request for a word gave: eight raw bytes, or a failure.
pub type Draw = Result<[u8; 8], Failure>;

/// A source of random words, eight bytes at a time.
///
/// A password is only as good as its source: the bytes must be uniform,
/// independent and, for a secret, beyond anyone's guess. Nothing here can check
/// that, so the contracts speak of the words that a source gave, whatever they
/// were.
pub trait RandomSource {
    /// Asks the source for eight fresh bytes.
    fn next_word(&mut self) -> Draw;
}

/// A randomness source together with the record of what was asked of it.
pub struct Recorded<R> {
    source: R,
    record: Ghost<Seq<Draw>>,
}

impl<R: RandomSource> Recorded<R> {
    /// Every request made through this value so far, oldest first, with what it gave.
    pub closed spec fn history(&self) -> Seq<Draw> {
        self.record@
    }

    /// The source that is read through this value.
    pub closed spec fn source(&self) -> R {
        self.source
    }

    /// Starts an empty record for `source`.
    pub fn new(source: R) -> (recorded: Self)
        ensures
            recorded.history() == Seq::<Draw>::empty(),
            recorded.source() == source,
    {
        Recorded { source, record: Ghost(Seq::empty()) }
    }

    /// Asks the source for eight fresh bytes and records what it gave.
    pub fn next_word(&mut self) -> (draw: Draw)
        ensures
            final(self).history() == old(self).history().push(draw),
    {
        let draw = self.source.next_word();
        proof {
            self.record@ = self.record@.push(draw);
        }
        draw
    }

    /// Gives the source back and drops the record.
    pub fn into_inner(self) -> (source: R)
        ensures
            source == self.source(),
    {
        self.source
    }
}

/// `rand_os::OsRng`, carried through as a value of which nothing is known.
#[verifier::external_type_specification]
#[verifier::external_body]
pub struct ExOsRng(rand_os::OsRng);

/// `rand_core::Error`, carried through as a value of which nothing is known.
#[verifier::external_type_specification]
#[verifier::external_body]
pub struct ExRngError(rand_core::Error);

/// Makes a value of `rand_os::OsRng`, a struct without fields.
#[verifier::external_body]
fn os_rng() -> rand_os::OsRng {
    rand_os::OsRng
}

/// Calls `try_fill_bytes` of `rand_os::OsRng` on a buffer of eight bytes and hands
/// the buffer out once it is filled, or else the error. Nothing is claimed of the
/// bytes or of the error.
#[verifier::external_body]
fn os_fill_word(rng: &mut rand_os::OsRng) -> Result<[u8; 8], rand_core::Error> {
    let mut word = [0u8; 8];
    match rng.try_fill_bytes(&mut word) {
        Ok(()) => Ok(word),
        Err(e) => Err(e),
    }
}

/// Calls `rand_core::Error::code` and hands the code out as a plain integer. The
/// one claim is that the integer is not zero: the code is a `NonZeroU32`.
#[verifier::external_body]
fn os_error_code(error: &rand_core::Error) -> (code: Option<u32>)
    ensures
        code != Some(0u32),
{
    match error.code() {
        Some(c) => Some(c.get()),
        None => None,
    }
}

/// The random number generator of the operating system.
pub struct OsSource {
    rng: rand_os::OsRng,
}

impl OsSource {
    /// A handle on the operating system's generator. Making one costs nothing and
    /// cannot fail; a failure shows at the first draw.
    pub fn new() -> Self {
        OsSource { rng: os_rng() }
    }
}

impl RandomSource for OsSource {
    fn next_word(&mut self) -> (draw: Draw)
        ensures
            draw matches Err(failure) ==> failure.code != Some(0u32),
    {
        draw_of(os_fill_word(&mut self.rng))
    }
}

/// What the sampler makes of what a generator of the `rand` family gave: the
/// word that was filled, as it is, or a failure that keeps the error's code.
pub fn draw_of(filled: Result<[u8; 8], rand_core::Error>) -> (draw: Draw)
    ensures
        match filled {
            Ok(word) => draw == Ok::<[u8; 8], Failure>(word),
            Err(_) => draw matches Err(failure) && failure.code != Some(0u32),
        },
{
    match filled {
        Ok(word) => Ok(word),
        Err(error) => Err(Failure { code: os_error_code(&error) }),
    }
}

} // verus!
