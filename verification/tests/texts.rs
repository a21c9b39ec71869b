use mkpasswd::alphabets::PASSWORD;
use mkpasswd::text::into_text;
use mkpasswd::{generate_with_rng, mkpasswd, Draw, RandomSource, Recorded};

#[test]
fn quick_passwords() {
    let first = mkpasswd().unwrap();
    let second = mkpasswd().unwrap();
    assert_eq!(first.len(), 32);
    assert_eq!(first.chars().count(), 32);
    assert!(first.bytes().all(|b| PASSWORD.contains(&b)));
    assert_ne!(first, second);
}

#[test]
fn ascii_becomes_the_same_text() {
    assert_eq!(into_text(b"abc".to_vec()), Some(String::from("abc")));
    assert_eq!(into_text(vec![]), Some(String::new()));
    assert_eq!(into_text(PASSWORD.to_vec()).unwrap().as_bytes(), &PASSWORD[..]);
}

#[test]
fn utf8_is_decoded_and_anything_else_refused() {
    assert_eq!(into_text(vec![0xc3, 0xa9]), Some(String::from("é")));
    assert_eq!(into_text(vec![0xe2, 0x82, 0xac, b'1']), Some(String::from("€1")));
    assert_eq!(into_text(vec![0xc3]), None);
    assert_eq!(into_text(vec![0xa9, 0xc3]), None);
    assert_eq!(into_text(vec![0xff]), None);
    assert_eq!(into_text(vec![b'a', 0x80]), None);
    // Too long an encoding, and half of a surrogate pair.
    assert_eq!(into_text(vec![0xc0, 0x80]), None);
    assert_eq!(into_text(vec![0xed, 0xa0, 0x80]), None);
}

/// Gives every byte value in turn.
struct Counter(u8);

impl RandomSource for Counter {
    fn next_word(&mut self) -> Draw {
        let mut word = [0u8; 8];
        for byte in word.iter_mut() {
            *byte = self.0;
            self.0 = self.0.wrapping_add(1);
        }
        Ok(word)
    }
}

#[test]
fn passwords_of_ascii_are_text() {
    let mut rng = Recorded::new(Counter(0));
    let password = generate_with_rng(&PASSWORD, 200, &mut rng).unwrap();
    let text = into_text(password.clone()).unwrap();
    assert_eq!(text.as_bytes(), &password[..]);
    assert_eq!(text.chars().count(), 200);
    assert!(text.starts_with("!\"#$%&'()*+,-./23456789:;<=>?@ABCDEFGHJKLMNPQ"));
}

#[test]
fn passwords_of_other_bytes_need_not_be_text() {
    let mut rng = Recorded::new(Counter(0));
    let password = generate_with_rng(&[0xa9, 0xc3], 2, &mut rng).unwrap();
    assert_eq!(password, vec![0xa9, 0xc3]);
    assert_eq!(into_text(password), None);
}
