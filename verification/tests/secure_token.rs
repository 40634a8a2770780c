use cargo_registry::util::token::{
    alphabet_char, byte_is_alphanumeric, constant_time_eq, NewSecureToken, SecureToken,
    SecureTokenKind, ALPHABET_SIZE, SECRET_LENGTH,
};

const SECRET: &[u8] = b"abcdefghijklmnopqrstuvwxyzABCD12";

fn made(kind: SecureTokenKind) -> NewSecureToken {
    SecureToken::from_secret(kind, SECRET).unwrap()
}

#[test]
fn generated_api_token_has_prefix_and_alphanumeric_secret() {
    let token = SecureToken::generate(SecureTokenKind::Api);
    let text = token.plaintext();
    assert_eq!(text.len(), 35);
    assert!(text.starts_with("cio"));
    assert!(text[3..].bytes().all(|b| b.is_ascii_alphanumeric()));
}

#[test]
fn generated_legacy_token_is_the_bare_secret() {
    let token = SecureToken::generate(SecureTokenKind::Legacy);
    let text = token.plaintext();
    assert_eq!(text.len(), 32);
    assert!(text.bytes().all(|b| b.is_ascii_alphanumeric()));
}

#[test]
fn generated_tokens_differ() {
    let a = SecureToken::generate(SecureTokenKind::Api);
    let b = SecureToken::generate(SecureTokenKind::Api);
    assert_ne!(a.plaintext(), b.plaintext());
    assert!(!a.inner().matches(b.inner()));
}

#[test]
fn generated_token_parses_to_its_digest() {
    for kind in [SecureTokenKind::Api, SecureTokenKind::Legacy] {
        let token = SecureToken::generate(kind);
        let parsed = SecureToken::parse(kind, token.plaintext()).unwrap();
        assert!(parsed.matches(token.inner()));
        assert_eq!(parsed.as_bytes(), token.inner().as_bytes());
    }
}

#[test]
fn token_of_one_kind_does_not_parse_as_another() {
    let api = SecureToken::generate(SecureTokenKind::Api);
    let legacy = SecureToken::generate(SecureTokenKind::Legacy);
    assert!(SecureToken::parse(SecureTokenKind::Legacy, api.plaintext()).is_none());
    assert!(SecureToken::parse(SecureTokenKind::Api, legacy.plaintext()).is_none());
}

#[test]
fn digest_is_sha256_of_the_secret_alone() {
    let token = made(SecureTokenKind::Api);
    assert_eq!(token.plaintext(), "cioabcdefghijklmnopqrstuvwxyzABCD12");
    let of_secret: [u8; 32] = [
        0x8f, 0x8a, 0x77, 0x26, 0xb7, 0xa6, 0x00, 0xef, 0xcb, 0x9b, 0xca, 0x8e, 0xb7, 0xd8, 0x9a,
        0x44, 0x20, 0x7b, 0x98, 0x4f, 0xc5, 0xd2, 0x2c, 0x81, 0xb0, 0x5e, 0x87, 0xb1, 0x35, 0x28,
        0x12, 0x06,
    ];
    let of_displayed: [u8; 32] = [
        0x81, 0xc4, 0xee, 0x65, 0x15, 0x67, 0x57, 0xdc, 0xf4, 0x7d, 0x95, 0x79, 0x1c, 0x86, 0xc1,
        0xb6, 0xa9, 0x74, 0x95, 0x97, 0xb4, 0xcb, 0xb6, 0x96, 0xac, 0x27, 0xa8, 0x76, 0xad, 0xcc,
        0xab, 0x48,
    ];
    assert_eq!(token.inner().as_bytes(), &of_secret[..]);
    assert_ne!(token.inner().as_bytes(), &of_displayed[..]);
    assert_eq!(SecureToken::hash(SECRET).as_slice(), &of_secret[..]);
}

#[test]
fn legacy_token_has_the_same_digest_as_the_prefixed_one() {
    let api = made(SecureTokenKind::Api);
    let legacy = made(SecureTokenKind::Legacy);
    assert_eq!(legacy.plaintext(), "abcdefghijklmnopqrstuvwxyzABCD12");
    assert!(api.inner().matches(legacy.inner()));
}

#[test]
fn sha256_of_empty_input_is_the_known_digest() {
    let digest = SecureToken::hash(b"");
    let expected: [u8; 32] = [
        0xe3, 0xb0, 0xc4, 0x42, 0x98, 0xfc, 0x1c, 0x14, 0x9a, 0xfb, 0xf4, 0xc8, 0x99, 0x6f, 0xb9,
        0x24, 0x27, 0xae, 0x41, 0xe4, 0x64, 0x9b, 0x93, 0x4c, 0xa4, 0x95, 0x99, 0x1b, 0x78, 0x52,
        0xb8, 0x55,
    ];
    assert_eq!(digest.as_slice(), &expected[..]);
}

#[test]
fn from_secret_refuses_malformed_secrets() {
    assert!(SecureToken::from_secret(SecureTokenKind::Api, b"short").is_none());
    assert!(SecureToken::from_secret(SecureTokenKind::Api, b"abcdefghijklmnopqrstuvwxyzABCD1_").is_none());
    assert!(SecureToken::from_secret(SecureTokenKind::Api, b"abcdefghijklmnopqrstuvwxyzABCD123").is_none());
    assert!(SecureToken::from_secret(SecureTokenKind::Api, SECRET).is_some());
}

#[test]
fn parse_checks_prefix_length_and_charset() {
    let kind = SecureTokenKind::Api;
    assert!(SecureToken::parse(kind, "cioabcdefghijklmnopqrstuvwxyzABCD12").is_some());
    assert!(SecureToken::parse(kind, "").is_none());
    assert!(SecureToken::parse(kind, "cio").is_none());
    assert!(SecureToken::parse(kind, "ciaabcdefghijklmnopqrstuvwxyzABCD12").is_none());
    assert!(SecureToken::parse(kind, "CIOabcdefghijklmnopqrstuvwxyzABCD12").is_none());
    assert!(SecureToken::parse(kind, "cioabcdefghijklmnopqrstuvwxyzABCD1").is_none());
    assert!(SecureToken::parse(kind, "cioabcdefghijklmnopqrstuvwxyzABCD123").is_none());
    assert!(SecureToken::parse(kind, "cioabcdefghijklmnopqrstuvwxyzABCD1-").is_none());
    assert!(SecureToken::parse(kind, "cioabcdefghijklmnopqrstuvwxyzABC\u{e9}").is_none());
    assert!(SecureToken::parse(kind, "abcdefghijklmnopqrstuvwxyzABCD12").is_none());
    assert!(SecureToken::parse(SecureTokenKind::Legacy, "abcdefghijklmnopqrstuvwxyzABCD12").is_some());
}

#[test]
fn parse_gives_the_digest_of_the_secret_part() {
    let parsed = SecureToken::parse(SecureTokenKind::Api, "cioabcdefghijklmnopqrstuvwxyzABCD12").unwrap();
    assert_eq!(parsed.as_bytes(), SecureToken::hash(SECRET).as_slice());
    let legacy = SecureToken::parse(SecureTokenKind::Legacy, "abcdefghijklmnopqrstuvwxyzABCD12").unwrap();
    assert!(legacy.matches(&parsed));
}

#[test]
fn constant_time_eq_compares_whole_strings() {
    assert!(constant_time_eq(b"", b""));
    assert!(constant_time_eq(b"abc", b"abc"));
    assert!(!constant_time_eq(b"abc", b"abd"));
    assert!(!constant_time_eq(b"abc", b"xbc"));
    assert!(!constant_time_eq(b"abc", b"abcd"));
    assert!(!constant_time_eq(b"abc", b""));
}

#[test]
fn stored_form_round_trips_through_its_digest() {
    let token = made(SecureTokenKind::Api);
    let copy = SecureToken::from_digest(token.inner().as_bytes().to_vec());
    assert!(copy.matches(token.inner()));
    assert!(copy.clone().matches(&copy));
    let (text, inner) = made(SecureTokenKind::Api).into_parts();
    assert_eq!(text, "cioabcdefghijklmnopqrstuvwxyzABCD12");
    assert!(inner.matches(&copy));
}

#[test]
fn kind_is_read_off_the_shape() {
    assert_eq!(
        SecureTokenKind::from_token("cioabcdefghijklmnopqrstuvwxyzABCD12"),
        Some(SecureTokenKind::Api)
    );
    assert_eq!(
        SecureTokenKind::from_token("abcdefghijklmnopqrstuvwxyzABCD12"),
        Some(SecureTokenKind::Legacy)
    );
    assert_eq!(SecureTokenKind::from_token("cio"), None);
    assert_eq!(SecureTokenKind::from_token(""), None);
    assert_eq!(SecureTokenKind::from_token("cio-bcdefghijklmnopqrstuvwxyzABCD12"), None);
    // 35 letters that start with the prefix are a token, 35 others are not.
    assert_eq!(SecureTokenKind::from_token("abcdefghijklmnopqrstuvwxyzABCD12345"), None);
}

#[test]
fn shape_is_checked_on_bytes() {
    let api = SecureTokenKind::Api;
    let legacy = SecureTokenKind::Legacy;
    assert!(api.is_shape_of(b"cioabcdefghijklmnopqrstuvwxyzABCD12"));
    assert!(!api.is_shape_of(b"abcdefghijklmnopqrstuvwxyzABCD12"));
    assert!(legacy.is_shape_of(b"abcdefghijklmnopqrstuvwxyzABCD12"));
    assert!(!legacy.is_shape_of(b"cioabcdefghijklmnopqrstuvwxyzABCD12"));
    assert!(!legacy.is_shape_of(b"abcdefghijklmnopqrstuvwxyzABCD1\xff"));
}

#[test]
fn prefixes_are_distinct() {
    assert_eq!(SecureTokenKind::Api.prefix(), b"cio".to_vec());
    assert_eq!(SecureTokenKind::Legacy.prefix(), Vec::<u8>::new());
}

#[test]
fn alphabet_is_letters_then_digits() {
    assert_eq!(ALPHABET_SIZE, 62);
    assert_eq!(SECRET_LENGTH, 32);
    assert_eq!(alphabet_char(0), b'a');
    assert_eq!(alphabet_char(25), b'z');
    assert_eq!(alphabet_char(26), b'A');
    assert_eq!(alphabet_char(51), b'Z');
    assert_eq!(alphabet_char(52), b'0');
    assert_eq!(alphabet_char(61), b'9');
    let mut seen = std::collections::BTreeSet::new();
    for index in 0..ALPHABET_SIZE {
        let c = alphabet_char(index);
        assert!(byte_is_alphanumeric(c));
        assert!(c.is_ascii_alphanumeric());
        seen.insert(c);
    }
    assert_eq!(seen.len(), 62);
}

#[test]
fn alphanumeric_bytes_are_exactly_the_ascii_letters_and_digits() {
    for b in 0..=255u8 {
        assert_eq!(byte_is_alphanumeric(b), b.is_ascii_alphanumeric());
    }
}
