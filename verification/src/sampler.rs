//! The sampler: rejection sampling of raw random bytes over an alphabet.
use crate::alphabets::contains;
use crate::source::{Draw, Failure, OsSource, RandomSource, Recorded};
use vstd::prelude::*;

verus! {

/// Why no password was made.
#[derive(Clone, Copy, Debug, PartialEq, Eq, Structural)]
pub enum GenerateError {
    /// The randomness source failed; the sampler asked nothing more of it.
    Source(Failure),
    /// The sampler made as many draws as it was allowed and still lacks bytes.
    Exhausted,
}

/// The bytes of `bytes` that `alphabet` holds, in the order in which they occur.
pub open spec fn accepted(alphabet: Seq<u8>, bytes: Seq<u8>) -> Seq<u8> {
    bytes.filter(|b: u8| alphabet.contains(b))
}

/// The raw bytes that one draw gave: none where it failed.
pub open spec fn draw_bytes(draw: Draw) -> Seq<u8> {
    match draw {
        Ok(word) => word@,
        Err(_) => Seq::empty(),
    }
}

/// The raw bytes that a run of draws gave, in the order in which they came.
pub open spec fn stream(draws: Seq<Draw>) -> Seq<u8>
    decreases draws.len(),
{
    if draws.len() == 0 {
        Seq::empty()
    } else {
        stream(draws.drop_last()) + draw_bytes(draws.last())
    }
}

/// Appends to `buf` the bytes of `word` that `alphabet` holds, in their order.
pub fn absorb(alphabet: &[u8], word: &[u8; 8], buf: &mut Vec<u8>)
    ensures
        final(buf)@ == old(buf)@ + accepted(alphabet@, word@),
{
    let mut i: usize = 0;
    proof {
        reveal(Seq::filter);
        assert(word@.take(0) == Seq::<u8>::empty());
    }
    while i < 8
        invariant
            i <= 8,
            buf@ == old(buf)@ + accepted(alphabet@, word@.take(i as int)),
        decreases 8 - i,
    {
        let byte = word[i];
        proof {
            reveal(Seq::filter);
            assert(word@.take(i + 1).drop_last() == word@.take(i as int));
        }
        if contains(alphabet, byte) {
            buf.push(byte);
        }
        i += 1;
    }
    assert(word@.take(8) == word@);
}

/// The most draws that [`generate_with_rng`] makes for one password.
pub const DRAW_LIMIT: u64 = 0xffff_ffff_ffff_ffff;

/// Whether the sampler, having made `draws` for a password of `length` bytes,
/// goes on to draw again: no draw failed, bytes are still missing, and the limit
/// leaves room for one more draw.
pub open spec fn unfinished(alphabet: Seq<u8>, length: nat, limit: nat, draws: Seq<Draw>) -> bool {
    &&& forall|i: int| 0 <= i < draws.len() ==> draws[i] is Ok
    &&& accepted(alphabet, stream(draws)).len() < length
    &&& draws.len() < limit
}

/// Whether `draws` is all that the sampler asks of its source for one password:
/// it drew again after each draw but the last, and not after the last.
pub open spec fn complete_run(alphabet: Seq<u8>, length: nat, limit: nat, draws: Seq<Draw>) -> bool {
    &&& forall|k: int|
        0 <= k < draws.len() ==> unfinished(alphabet, length, limit, #[trigger] draws.take(k))
    &&& !unfinished(alphabet, length, limit, draws)
}

/// What the sampler returns after the complete run `draws`: the failure of the
/// last draw; else the first `length` accepted bytes; else, where they are too
/// few, that the draws are used up.
pub open spec fn outcome(alphabet: Seq<u8>, length: nat, draws: Seq<Draw>) -> Result<
    Seq<u8>,
    GenerateError,
> {
    if draws.len() > 0 && draws.last() is Err {
        Err(GenerateError::Source(draws.last()->Err_0))
    } else if accepted(alphabet, stream(draws)).len() >= length {
        Ok(accepted(alphabet, stream(draws)).take(length as int))
    } else {
        Err(GenerateError::Exhausted)
    }
}

/// Whether `result` is `expected`, a password being taken by its view.
pub open spec fn is_outcome(
    result: Result<Vec<u8>, GenerateError>,
    expected: Result<Seq<u8>, GenerateError>,
) -> bool {
    match result {
        Ok(password) => expected == Ok::<Seq<u8>, GenerateError>(password@),
        Err(error) => expected == Err::<Seq<u8>, GenerateError>(error),
    }
}

/// Every byte of `accepted(alphabet, bytes)` occurs in `alphabet`.
pub proof fn lemma_accepted_in_alphabet(alphabet: Seq<u8>, bytes: Seq<u8>)
    ensures
        forall|i: int|
            0 <= i < accepted(alphabet, bytes).len() ==> alphabet.contains(
                #[trigger] accepted(alphabet, bytes)[i],
            ),
{
    let member = |b: u8| alphabet.contains(b);
    assert forall|i: int| 0 <= i < accepted(alphabet, bytes).len() implies alphabet.contains(
        #[trigger] accepted(alphabet, bytes)[i],
    ) by {
        bytes.lemma_filter_pred(member, i);
    }
}

/// Accepting bytes goes piece by piece.
pub proof fn lemma_accepted_concat(alphabet: Seq<u8>, a: Seq<u8>, b: Seq<u8>)
    ensures
        accepted(alphabet, a + b) == accepted(alphabet, a) + accepted(alphabet, b),
{
    Seq::filter_distributes_over_add(a, b, |x: u8| alphabet.contains(x));
}

/// Generates a password of `length` bytes of `alphabet` from the words of `rng`,
/// making at most `limit` draws.
///
/// Each byte that `rng` gives is kept if the alphabet holds it and dropped
/// otherwise; the password is the first `length` bytes kept. The sampler draws
/// whole words until it has enough bytes, stops at the first failure and hands
/// that failure on.
pub fn generate_within<R: RandomSource>(
    alphabet: &[u8],
    length: usize,
    limit: u64,
    rng: &mut Recorded<R>,
) -> (result: Result<Vec<u8>, GenerateError>)
    requires
        alphabet@.len() > 0,
    ensures
        old(rng).history().is_prefix_of(final(rng).history()),
        complete_run(
            alphabet@,
            length as nat,
            limit as nat,
            final(rng).history().skip(old(rng).history().len() as int),
        ),
        is_outcome(
            result,
            outcome(
                alphabet@,
                length as nat,
                final(rng).history().skip(old(rng).history().len() as int),
            ),
        ),
        result matches Ok(password) ==> password@.len() == length && forall|i: int|
            0 <= i < password@.len() ==> alphabet@.contains(#[trigger] password@[i]),
        length == 0 ==> result is Ok && *final(rng) == *old(rng),
{
    let ghost before = rng.history();
    let ghost mut fresh: Seq<Draw> = Seq::empty();
    let mut buf: Vec<u8> = Vec::new();
    let mut draws: u64 = 0;
    proof {
        reveal(Seq::filter);
        assert(before + fresh == before);
        assert(before.skip(before.len() as int) == fresh);
    }
    while buf.len() < length && draws < limit
        invariant
            before == old(rng).history(),
            draws == 0 ==> *rng == *old(rng),
            rng.history() == before + fresh,
            fresh.len() == draws,
            draws <= limit,
            forall|i: int| 0 <= i < fresh.len() ==> fresh[i] is Ok,
            forall|k: int|
                0 <= k < fresh.len() ==> unfinished(
                    alphabet@,
                    length as nat,
                    limit as nat,
                    #[trigger] fresh.take(k),
                ),
            buf@ == accepted(alphabet@, stream(fresh)),
        decreases limit - draws,
    {
        let ghost earlier = fresh;
        let draw = rng.next_word();
        proof {
            fresh = earlier.push(draw);
            assert(rng.history() == before + fresh);
            assert(fresh.drop_last() == earlier);
            assert(fresh.take(earlier.len() as int) == earlier);
            assert forall|k: int| 0 <= k < fresh.len() implies unfinished(
                alphabet@,
                length as nat,
                limit as nat,
                #[trigger] fresh.take(k),
            ) by {
                if k < earlier.len() {
                    assert(fresh.take(k) == earlier.take(k));
                }
            }
            lemma_accepted_concat(alphabet@, stream(earlier), draw_bytes(draw));
        }
        match draw {
            Ok(word) => {
                absorb(alphabet, &word, &mut buf);
                draws += 1;
            },
            Err(failure) => {
                proof {
                    assert((before + fresh).skip(before.len() as int) == fresh);
                    assert((before + fresh).subrange(0, before.len() as int) == before);
                }
                return Err(GenerateError::Source(failure));
            },
        }
    }
    proof {
        assert((before + fresh).skip(before.len() as int) == fresh);
        assert((before + fresh).subrange(0, before.len() as int) == before);
        lemma_accepted_in_alphabet(alphabet@, stream(fresh));
    }
    if buf.len() >= length {
        buf.truncate(length);
        Ok(buf)
    } else {
        Err(GenerateError::Exhausted)
    }
}

/// Generates a password of `length` bytes of `alphabet` from the words of `rng`.
///
/// This is [`generate_within`] with [`DRAW_LIMIT`] draws, more than a source
/// can serve in a lifetime.
pub fn generate_with_rng<R: RandomSource>(
    alphabet: &[u8],
    length: usize,
    rng: &mut Recorded<R>,
) -> (result: Result<Vec<u8>, GenerateError>)
    requires
        alphabet@.len() > 0,
    ensures
        old(rng).history().is_prefix_of(final(rng).history()),
        complete_run(
            alphabet@,
            length as nat,
            DRAW_LIMIT as nat,
            final(rng).history().skip(old(rng).history().len() as int),
        ),
        is_outcome(
            result,
            outcome(
                alphabet@,
                length as nat,
                final(rng).history().skip(old(rng).history().len() as int),
            ),
        ),
        result matches Ok(password) ==> password@.len() == length && forall|i: int|
            0 <= i < password@.len() ==> alphabet@.contains(#[trigger] password@[i]),
        length == 0 ==> result is Ok && *final(rng) == *old(rng),
{
    generate_within(alphabet, length, DRAW_LIMIT, rng)
}

/// Generates a password of `length` bytes of `alphabet` from the random number
/// generator of the operating system.
///
/// What the generator gives cannot be foretold, so the contract says what holds
/// of every result: it is what [`generate_with_rng`] makes of some complete run.
pub fn generate(alphabet: &[u8], length: usize) -> (result: Result<Vec<u8>, GenerateError>)
    requires
        alphabet@.len() > 0,
    ensures
        exists|draws: Seq<Draw>|
            #[trigger] complete_run(alphabet@, length as nat, DRAW_LIMIT as nat, draws)
                && is_outcome(result, outcome(alphabet@, length as nat, draws)),
        result matches Ok(password) ==> password@.len() == length && forall|i: int|
            0 <= i < password@.len() ==> alphabet@.contains(#[trigger] password@[i]),
        length == 0 ==> result is Ok,
{
    let mut rng = Recorded::new(OsSource::new());
    let result = generate_with_rng(alphabet, length, &mut rng);
    proof {
        assert(rng.history().skip(0) == rng.history());
    }
    result
}

/// A complete run for a password of no bytes is empty: nothing is asked of the
/// source.
pub proof fn lemma_empty_password_draws_nothing(alphabet: Seq<u8>, limit: nat, draws: Seq<Draw>)
    requires
        complete_run(alphabet, 0, limit, draws),
    ensures
        draws.len() == 0,
        outcome(alphabet, 0, draws) == Ok::<Seq<u8>, GenerateError>(Seq::empty()),
{
    if draws.len() > 0 {
        assert(unfinished(alphabet, 0, limit, draws.take(0)));
    }
    assert(accepted(alphabet, stream(draws)).take(0) == Seq::<u8>::empty());
}

/// A password has the length asked for, and each of its bytes occurs in the
/// alphabet.
pub proof fn lemma_password_is_of_alphabet(alphabet: Seq<u8>, length: nat, draws: Seq<Draw>)
    ensures
        outcome(alphabet, length, draws) matches Ok(password) ==> password.len() == length
            && forall|i: int| 0 <= i < password.len() ==> alphabet.contains(#[trigger] password[i]),
{
    lemma_accepted_in_alphabet(alphabet, stream(draws));
}

/// Over an alphabet of one byte a password is that byte, as often as asked for,
/// whatever the source gives.
pub proof fn lemma_one_byte_alphabet(byte: u8, length: nat, draws: Seq<Draw>)
    ensures
        outcome(seq![byte], length, draws) matches Ok(password) ==> password == Seq::new(
            length,
            |i: int| byte,
        ),
{
    let alphabet = seq![byte];
    if let Ok(password) = outcome(alphabet, length, draws) {
        lemma_password_is_of_alphabet(alphabet, length, draws);
        assert forall|i: int| 0 <= i < password.len() implies password[i] == byte by {
            assert(alphabet.contains(password[i]));
        }
        assert(password =~= Seq::new(length, |i: int| byte));
    }
}

/// The draws decide the password: of two complete runs over what one source has
/// to give, neither stops before the other, so they are one run with one result.
pub proof fn lemma_same_source_same_password(
    alphabet: Seq<u8>,
    length: nat,
    limit: nat,
    future: Seq<Draw>,
    first: Seq<Draw>,
    second: Seq<Draw>,
)
    requires
        first.is_prefix_of(future),
        second.is_prefix_of(future),
        complete_run(alphabet, length, limit, first),
        complete_run(alphabet, length, limit, second),
    ensures
        first == second,
        outcome(alphabet, length, first) == outcome(alphabet, length, second),
{
    if first.len() < second.len() {
        assert(second.take(first.len() as int) == first);
    } else if second.len() < first.len() {
        assert(first.take(second.len() as int) == second);
    }
    assert(first == second);
}

} // verus!
