use mkpasswd::alphabets::{
    contains, sanitize, BASE64, BASE64_URL, LATIN, LATIN_LOWER, LATIN_LOWER_NUMBERS,
    LATIN_NUMBERS, LATIN_UPPER, LATIN_UPPER_NUMBERS, NUMBERS, PASSWORD,
};

fn catalog() -> [&'static [u8]; 10] {
    [
        &PASSWORD,
        &LATIN_NUMBERS,
        &BASE64,
        &BASE64_URL,
        &NUMBERS,
        &LATIN,
        &LATIN_LOWER,
        &LATIN_LOWER_NUMBERS,
        &LATIN_UPPER,
        &LATIN_UPPER_NUMBERS,
    ]
}

#[test]
fn every_alphabet_is_sanitized() {
    for alphabet in catalog() {
        assert!(!alphabet.is_empty());
        assert!(alphabet.windows(2).all(|pair| pair[0] < pair[1]));
        assert!(alphabet.iter().all(|b| (0x21..=0x7e).contains(b)));
        assert_eq!(sanitize(alphabet), alphabet.to_vec());
    }
}

#[test]
fn alphabets_hold_what_their_names_say() {
    assert_eq!(NUMBERS, *b"0123456789");
    assert_eq!(LATIN_LOWER, *b"abcdefghijklmnopqrstuvwxyz");
    assert_eq!(LATIN_UPPER, *b"ABCDEFGHIJKLMNOPQRSTUVWXYZ");
    assert_eq!(LATIN, *b"ABCDEFGHIJKLMNOPQRSTUVWXYZabcdefghijklmnopqrstuvwxyz");
    assert_eq!(LATIN_LOWER_NUMBERS, *b"0123456789abcdefghijklmnopqrstuvwxyz");
    assert_eq!(LATIN_UPPER_NUMBERS, *b"0123456789ABCDEFGHIJKLMNOPQRSTUVWXYZ");
    assert_eq!(
        LATIN_NUMBERS,
        *b"0123456789ABCDEFGHIJKLMNOPQRSTUVWXYZabcdefghijklmnopqrstuvwxyz"
    );
    assert_eq!(
        BASE64,
        *b"+/0123456789ABCDEFGHIJKLMNOPQRSTUVWXYZabcdefghijklmnopqrstuvwxyz"
    );
    assert_eq!(
        BASE64_URL,
        *b"-0123456789ABCDEFGHIJKLMNOPQRSTUVWXYZ_abcdefghijklmnopqrstuvwxyz"
    );
}

#[test]
fn password_alphabet_leaves_out_what_looks_alike() {
    assert_eq!(PASSWORD.len(), 88);
    for byte in 0x21u8..=0x7e {
        let ambiguous = b"0O1Il|".contains(&byte);
        assert_eq!(PASSWORD.contains(&byte), !ambiguous);
    }
}

#[test]
fn sanitize_sorts_and_drops_duplicates() {
    assert_eq!(sanitize(b"Hello world!"), b" !Hdelorw".to_vec());
    assert_eq!(sanitize(b"bbbaaa"), b"ab".to_vec());
    assert_eq!(sanitize(b"x"), b"x".to_vec());
    assert_eq!(sanitize(b""), Vec::<u8>::new());
    assert_eq!(sanitize(&[255, 0, 128, 0, 255]), vec![0, 128, 255]);
    let all: Vec<u8> = (0..=255u8).rev().collect();
    assert_eq!(sanitize(&all), (0..=255u8).collect::<Vec<u8>>());
}

#[test]
fn sanitize_is_sort_and_dedup() {
    let samples: [&[u8]; 4] = [b"qwerty+asdfgh-zxcvbn", b"mississippi", b"\xc3\xa9t\xc3\xa9", b"zyx"];
    for sample in samples {
        let mut expected = sample.to_vec();
        expected.sort();
        expected.dedup();
        assert_eq!(sanitize(sample), expected);
    }
}

#[test]
fn contains_finds_what_is_there() {
    assert!(contains(b"abc", b'a'));
    assert!(contains(b"abc", b'c'));
    assert!(!contains(b"abc", b'd'));
    assert!(!contains(b"", b'a'));
    for byte in 0..=255u8 {
        assert_eq!(contains(&NUMBERS, byte), byte.is_ascii_digit());
    }
}
