use mkpasswd::alphabets::{LATIN_LOWER, NUMBERS, PASSWORD};
use mkpasswd::sampler::{absorb, DRAW_LIMIT};
use mkpasswd::source::draw_of;
use mkpasswd::{
    generate, generate_with_rng, generate_within, Draw, Failure, GenerateError, OsSource,
    RandomSource, Recorded,
};
use std::num::NonZeroU32;

/// A xorshift generator: the same seed gives the same words.
struct Seeded {
    state: u64,
    reads: usize,
}

impl Seeded {
    fn new(seed: u64) -> Self {
        Seeded { state: seed | 1, reads: 0 }
    }
}

impl RandomSource for Seeded {
    fn next_word(&mut self) -> Draw {
        self.reads += 1;
        let mut x = self.state;
        x ^= x << 13;
        x ^= x >> 7;
        x ^= x << 17;
        self.state = x;
        Ok(x.wrapping_mul(0x2545_f491_4f6c_dd1d).to_le_bytes())
    }
}

/// Gives the words it was made with, then fails with code 7.
struct Replay {
    words: Vec<[u8; 8]>,
    reads: usize,
}

impl Replay {
    fn new(words: &[[u8; 8]]) -> Self {
        Replay { words: words.to_vec(), reads: 0 }
    }
}

impl RandomSource for Replay {
    fn next_word(&mut self) -> Draw {
        let draw = match self.words.get(self.reads) {
            Some(word) => Ok(*word),
            None => Err(Failure { code: Some(7) }),
        };
        self.reads += 1;
        draw
    }
}

#[test]
fn password_has_the_length_and_the_bytes_asked_for() {
    let alphabets: [&[u8]; 5] = [b"ab", b"x", &NUMBERS, &PASSWORD, b"qwerty+asdfgh-zxcvbn"];
    for alphabet in alphabets {
        for length in [0usize, 1, 7, 8, 9, 16, 100] {
            let mut rng = Recorded::new(Seeded::new(length as u64 + 11));
            let password = generate_with_rng(alphabet, length, &mut rng).unwrap();
            assert_eq!(password.len(), length);
            assert!(password.iter().all(|b| alphabet.contains(b)));
        }
    }
}

#[test]
fn no_length_no_reads() {
    let mut rng = Recorded::new(Seeded::new(1));
    assert_eq!(generate_with_rng(b"ab", 0, &mut rng), Ok(vec![]));
    assert_eq!(rng.into_inner().reads, 0);
}

#[test]
fn no_length_does_not_see_a_broken_source() {
    let mut rng = Recorded::new(Replay::new(&[]));
    assert_eq!(generate_with_rng(b"ab", 0, &mut rng), Ok(vec![]));
    assert_eq!(rng.into_inner().reads, 0);
}

#[test]
fn keeps_the_bytes_of_the_alphabet_in_their_order() {
    let words = [[b'a', 0, b'b', b'z', b'c', b'a', 1, 2], [b'c', b'c', 9, b'b', 0, 0, 0, b'a']];
    let expected: [&[u8]; 9] =
        [b"", b"a", b"ab", b"abc", b"abca", b"abcac", b"abcacc", b"abcaccb", b"abcaccba"];
    for (length, password) in expected.iter().enumerate() {
        let mut rng = Recorded::new(Replay::new(&words));
        assert_eq!(generate_with_rng(b"abc", length, &mut rng), Ok(password.to_vec()));
        let reads = if length == 0 { 0 } else if length <= 4 { 1 } else { 2 };
        assert_eq!(rng.into_inner().reads, reads);
    }
}

#[test]
fn drops_what_the_last_word_gives_beyond_the_length() {
    let mut rng = Recorded::new(Replay::new(&[*b"abcdefgh"]));
    assert_eq!(generate_with_rng(&LATIN_LOWER, 3, &mut rng), Ok(b"abc".to_vec()));
    assert_eq!(generate_with_rng(&LATIN_LOWER, 3, &mut rng), Err(GenerateError::Source(Failure { code: Some(7) })));
}

#[test]
fn a_byte_that_occurs_twice_in_the_alphabet_is_still_kept_once() {
    let mut rng = Recorded::new(Replay::new(&[*b"a-b-a-b-"]));
    assert_eq!(generate_with_rng(b"aab", 4, &mut rng), Ok(b"abab".to_vec()));
}

#[test]
fn does_not_reduce_bytes_modulo_the_alphabet() {
    // 0x62 is `b`; 0x00 and 0x02 are no bytes of the alphabet, whatever they are modulo 2.
    let mut rng = Recorded::new(Replay::new(&[[0, 2, 4, 0x62, 1, 3, 5, 0x62]]));
    assert_eq!(generate_with_rng(b"ab", 2, &mut rng), Ok(b"bb".to_vec()));
}

#[test]
fn absorb_appends_what_the_alphabet_holds() {
    let mut buf = b"zz".to_vec();
    absorb(b"0123456789", b"a1b2c3d4", &mut buf);
    assert_eq!(buf, b"zz1234".to_vec());
    absorb(b"0123456789", b"abcdefgh", &mut buf);
    assert_eq!(buf, b"zz1234".to_vec());
    absorb(b"0123456789", b"99999999", &mut buf);
    assert_eq!(buf, b"zz123499999999".to_vec());
}

#[test]
fn one_byte_alphabet() {
    for seed in [1u64, 2, 3, 0xdead_beef] {
        let mut rng = Recorded::new(Seeded::new(seed));
        assert_eq!(generate_with_rng(b"x", 5, &mut rng), Ok(b"xxxxx".to_vec()));
    }
    assert_eq!(generate(b"x", 5), Ok(b"xxxxx".to_vec()));
}

#[test]
fn same_seed_same_password() {
    for seed in [5u64, 77, 1 << 40] {
        let mut first = Recorded::new(Seeded::new(seed));
        let mut second = Recorded::new(Seeded::new(seed));
        let a = generate_with_rng(&PASSWORD, 64, &mut first).unwrap();
        let b = generate_with_rng(&PASSWORD, 64, &mut second).unwrap();
        assert_eq!(a, b);
        assert_eq!(first.into_inner().reads, second.into_inner().reads);
    }
    let mut first = Recorded::new(Seeded::new(5));
    let mut second = Recorded::new(Seeded::new(6));
    assert_ne!(
        generate_with_rng(&PASSWORD, 64, &mut first),
        generate_with_rng(&PASSWORD, 64, &mut second)
    );
}

#[test]
fn two_letters_a_thousand_times() {
    let mut rng = Recorded::new(Seeded::new(2024));
    let password = generate_with_rng(b"ab", 1000, &mut rng).unwrap();
    assert_eq!(password.len(), 1000);
    assert!(password.iter().all(|b| *b == b'a' || *b == b'b'));
    let a = password.iter().filter(|b| **b == b'a').count();
    // The standard deviation is about 16: this leaves more than six of them.
    assert!(a > 400 && a < 600, "{} of 1000", a);
}

#[test]
fn no_byte_is_favoured() {
    // Alphabets whose size divides 256, and whose size does not.
    let alphabets: [&[u8]; 4] = [b"abcd", b"abc", b"0123456789", b"abcdefg"];
    for alphabet in alphabets {
        let n = 60_000usize;
        let mut rng = Recorded::new(Seeded::new(alphabet.len() as u64 * 977));
        let password = generate_with_rng(alphabet, n, &mut rng).unwrap();
        let k = alphabet.len();
        let mean = n / k;
        // Six standard deviations of a binomial count are below 6 * sqrt(n / k).
        let slack = 6 * ((mean as u64 as f64).sqrt() as usize + 1);
        for byte in alphabet {
            let count = password.iter().filter(|b| *b == byte).count();
            assert!(count + slack > mean && count < mean + slack, "{} of {}", count, n);
        }
    }
}

#[test]
fn a_failure_of_the_source_is_handed_on() {
    let mut rng = Recorded::new(Replay::new(&[*b"a.......", *b"b......."]));
    assert_eq!(
        generate_with_rng(b"ab", 3, &mut rng),
        Err(GenerateError::Source(Failure { code: Some(7) }))
    );
    // Two words, the failure, and nothing after it.
    assert_eq!(rng.into_inner().reads, 3);
}

#[test]
fn gives_up_at_the_draw_limit() {
    let words = [*b"a.......", *b"b.......", *b"a.......", *b"b......."];
    let mut rng = Recorded::new(Replay::new(&words));
    assert_eq!(generate_within(b"ab", 3, 2, &mut rng), Err(GenerateError::Exhausted));
    assert_eq!(rng.into_inner().reads, 2);
    let mut rng = Recorded::new(Replay::new(&words));
    assert_eq!(generate_within(b"ab", 3, 3, &mut rng), Ok(b"aba".to_vec()));
    assert_eq!(rng.into_inner().reads, 3);
    let mut rng = Recorded::new(Replay::new(&words));
    assert_eq!(generate_within(b"ab", 3, 0, &mut rng), Err(GenerateError::Exhausted));
    assert_eq!(generate_within(b"ab", 0, 0, &mut rng), Ok(vec![]));
    assert_eq!(rng.into_inner().reads, 0);
}

#[test]
fn the_draw_limit_is_the_largest_there_is() {
    assert_eq!(DRAW_LIMIT, u64::MAX);
}

#[test]
fn the_operating_system_gives_different_words() {
    let mut rng = OsSource::new();
    let a = rng.next_word().unwrap();
    let b = rng.next_word().unwrap();
    let c = rng.next_word().unwrap();
    assert!(a != b || b != c);
    assert!(a != [0u8; 8] || b != [0u8; 8]);
}

#[test]
fn generates_from_the_operating_system() {
    let password = generate(&PASSWORD, 10).unwrap();
    assert_eq!(password.len(), 10);
    assert!(password.iter().all(|b| PASSWORD.contains(b)));
    assert!(String::from_utf8(password).is_ok());
    assert_eq!(generate(&NUMBERS, 0), Ok(vec![]));
    let a = generate(&PASSWORD, 32).unwrap();
    let b = generate(&PASSWORD, 32).unwrap();
    assert_ne!(a, b);
}

#[test]
fn a_source_can_be_used_for_many_passwords() {
    let mut rng = Recorded::new(OsSource::new());
    for _ in 0..20 {
        let password = generate_with_rng(b"qwerty+asdfgh-zxcvbn", 16, &mut rng).unwrap();
        assert_eq!(password.len(), 16);
        assert!(password.iter().all(|b| b"qwerty+asdfgh-zxcvbn".contains(b)));
    }
}

#[test]
fn a_filled_word_is_the_draw() {
    assert_eq!(draw_of(Ok(*b"abcdefgh")), Ok(*b"abcdefgh"));
    assert_eq!(draw_of(Ok([0; 8])), Ok([0; 8]));
}

#[test]
fn a_failure_keeps_the_code_of_the_error() {
    for code in [1u32, 5, 1 << 31, u32::MAX] {
        let error = rand_core::Error::from(NonZeroU32::new(code).unwrap());
        assert_eq!(draw_of(Err(error)), Err(Failure { code: Some(code) }));
    }
}
