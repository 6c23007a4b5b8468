//! Tests of the envelope's parts, of the key derivations and of the error texts.

use std::borrow::Cow;

use aes_gcm::aead::{Aead, KeyInit};
use aes_gcm::{Aes256Gcm, Key, Nonce};
use base64::engine::general_purpose::STANDARD_NO_PAD;
use base64::Engine;

use tokencrypt::envelope::{strip_header, trim_padding};
use tokencrypt::error::decimal_string;
use tokencrypt::{TokenCrypt, TokenCryptError, HEADER_V1};

const VECTORS: &[(&str, &str)] = &[
    ("a", "3ncr.org/1#I09Dwt6q05ZrH8GQ0cp+g9Jm0hD0BmCwEdylCh8"),
    ("test", "3ncr.org/1#Y3/v2PY7kYQgveAn4AJ8zP+oOuysbs5btYLZ9vl8DLc"),
    (
        "08019215-B205-4416-B2FB-132962F9952F",
        "3ncr.org/1#pHRufQld0SajqjHx+FmLMcORfNQi1d674ziOPpG52hqW5+0zfJD91hjXsBsvULVtB017mEghGy3Ohj+GgQY5MQ",
    ),
    (
        "перевірка",
        "3ncr.org/1#EPw7S5+BG6hn/9Sjf6zoYUCdwlzweeB+ahBIabUD6NogAcevXszOGHz9Jzv4vQ",
    ),
];

const SHA3_256_OF_ABC: [u8; 32] = [
    0x3a, 0x98, 0x5d, 0xa7, 0x4f, 0xe2, 0x25, 0xb2, 0x04, 0x5c, 0x17, 0x2d, 0x6b, 0xd3, 0x90, 0xbd,
    0x85, 0x5f, 0x08, 0x6e, 0x3e, 0x9d, 0x52, 0x5b, 0x46, 0xbf, 0xe2, 0x45, 0x11, 0x43, 0x15, 0x32,
];

fn legacy() -> TokenCrypt {
    TokenCrypt::from_pbkdf2_sha3(b"a", b"b", 1000)
}

fn iv_of(encrypted: &str) -> [u8; 12] {
    let payload = STANDARD_NO_PAD.decode(&encrypted[HEADER_V1.len()..]).unwrap();
    let mut iv = [0u8; 12];
    iv.copy_from_slice(&payload[..12]);
    iv
}

#[test]
fn header_is_the_v1_prefix() {
    assert_eq!(HEADER_V1, "3ncr.org/1#");
}

#[test]
fn canonical_vectors_are_reproduced_from_their_iv() {
    let tc = legacy();
    for (plaintext, encrypted) in VECTORS {
        let iv = iv_of(encrypted);
        assert_eq!(tc.encrypt_3ncr_with_iv(plaintext, iv), *encrypted);
    }
}

#[test]
fn encryption_with_a_fixed_iv_is_deterministic_and_decrypts() {
    let tc = TokenCrypt::from_raw_key([7u8; 32]);
    let a = tc.encrypt_3ncr_with_iv("hello", [1u8; 12]);
    let b = tc.encrypt_3ncr_with_iv("hello", [1u8; 12]);
    let c = tc.encrypt_3ncr_with_iv("hello", [2u8; 12]);
    assert_eq!(a, b);
    assert_ne!(a, c);
    assert!(a.starts_with(HEADER_V1));
    assert_eq!(tc.decrypt_if_3ncr(&a).unwrap().as_ref(), "hello");
    assert_eq!(tc.decrypt_if_3ncr(&c).unwrap().as_ref(), "hello");
}

#[test]
fn empty_plaintext_has_iv_and_tag_only() {
    let tc = TokenCrypt::from_raw_key([0u8; 32]);
    let enc = tc.encrypt_3ncr_with_iv("", [0u8; 12]);
    let payload = STANDARD_NO_PAD.decode(&enc[HEADER_V1.len()..]).unwrap();
    assert_eq!(payload.len(), 28);
    assert_eq!(&payload[..12], &[0u8; 12]);
    assert_eq!(tc.decrypt_if_3ncr(&enc).unwrap().as_ref(), "");
}

#[test]
fn strip_header_cases() {
    assert_eq!(strip_header("3ncr.org/1#abc"), Some("abc"));
    assert_eq!(strip_header("3ncr.org/1#"), Some(""));
    assert_eq!(strip_header("3ncr.org/1"), None);
    assert_eq!(strip_header("x3ncr.org/1#abc"), None);
    assert_eq!(strip_header("3NCR.org/1#abc"), None);
    assert_eq!(strip_header(""), None);
    assert_eq!(strip_header("3ncr.org/1#перевірка"), Some("перевірка"));
}

#[test]
fn trim_padding_cases() {
    assert_eq!(trim_padding(b"AB=="), b"AB");
    assert_eq!(trim_padding(b"===="), b"");
    assert_eq!(trim_padding(b"A=B"), b"A=B");
    assert_eq!(trim_padding(b"AB"), b"AB");
    assert_eq!(trim_padding(b""), b"");
}

#[test]
fn value_with_header_elsewhere_is_unchanged() {
    let tc = legacy();
    let v = "prefix 3ncr.org/1#I09Dwt6q05ZrH8GQ0cp+g9Jm0hD0BmCwEdylCh8";
    let out = tc.decrypt_if_3ncr(v).unwrap();
    assert_eq!(out.as_ref(), v);
    assert!(matches!(out, Cow::Borrowed(_)));
}

#[test]
fn decrypted_value_is_owned() {
    let tc = legacy();
    let out = tc.decrypt_if_3ncr(VECTORS[1].1).unwrap();
    assert!(matches!(out, Cow::Owned(_)));
    assert_eq!(out.as_ref(), "test");
}

#[test]
fn extra_padding_is_ignored() {
    let tc = legacy();
    for (plaintext, encrypted) in VECTORS {
        let padded = format!("{encrypted}=====");
        assert_eq!(tc.decrypt_if_3ncr(&padded).unwrap().as_ref(), *plaintext);
    }
}

#[test]
fn invalid_base64_is_rejected() {
    let tc = legacy();
    assert_eq!(
        tc.decrypt_if_3ncr("3ncr.org/1#@@@@@@@@").unwrap_err(),
        TokenCryptError::InvalidBase64
    );
    assert_eq!(
        tc.decrypt_if_3ncr("3ncr.org/1#A").unwrap_err(),
        TokenCryptError::InvalidBase64
    );
}

#[test]
fn empty_body_is_truncated() {
    let tc = legacy();
    assert_eq!(tc.decrypt_if_3ncr("3ncr.org/1#").unwrap_err(), TokenCryptError::Truncated);
}

#[test]
fn open_payload_errors() {
    let key = [9u8; 32];
    let tc = TokenCrypt::from_raw_key(key);
    assert_eq!(tc.open_payload(&[0u8; 27]).unwrap_err(), TokenCryptError::Truncated);
    assert_eq!(tc.open_payload(&[0u8; 28]).unwrap_err(), TokenCryptError::DecryptionFailed);

    let cipher = Aes256Gcm::new(Key::<Aes256Gcm>::from_slice(&key));
    let iv = [3u8; 12];
    let sealed = cipher.encrypt(Nonce::from_slice(&iv), &[0xffu8, 0xfe][..]).unwrap();
    let mut payload = iv.to_vec();
    payload.extend_from_slice(&sealed);
    assert_eq!(tc.open_payload(&payload).unwrap_err(), TokenCryptError::InvalidUtf8);

    let sealed = cipher.encrypt(Nonce::from_slice(&iv), "ok".as_bytes()).unwrap();
    let mut payload = iv.to_vec();
    payload.extend_from_slice(&sealed);
    assert_eq!(tc.open_payload(&payload).unwrap(), "ok");
}

#[test]
fn wrong_key_fails_on_canonical_vector() {
    let tc = TokenCrypt::from_pbkdf2_sha3(b"a", b"b", 999);
    assert_eq!(
        tc.decrypt_if_3ncr(VECTORS[0].1).unwrap_err(),
        TokenCryptError::DecryptionFailed
    );
}

#[test]
fn from_sha3_uses_the_digest_as_key() {
    let hashed = TokenCrypt::from_sha3(b"abc");
    let raw = TokenCrypt::from_raw_key(SHA3_256_OF_ABC);
    let iv = [5u8; 12];
    assert_eq!(hashed.encrypt_3ncr_with_iv("x", iv), raw.encrypt_3ncr_with_iv("x", iv));
}

#[test]
fn from_argon2id_is_deterministic_and_not_the_secret() {
    let secret = [0x42u8; 32];
    let salt = b"0123456789abcdef";
    let a = TokenCrypt::from_argon2id(&secret, salt).unwrap();
    let b = TokenCrypt::from_argon2id(&secret, salt).unwrap();
    let raw = TokenCrypt::from_raw_key(secret);
    let other_salt = TokenCrypt::from_argon2id(&secret, b"0123456789abcdeF").unwrap();
    let iv = [0u8; 12];
    let ea = a.encrypt_3ncr_with_iv("v", iv);
    assert_eq!(ea, b.encrypt_3ncr_with_iv("v", iv));
    assert_ne!(ea, raw.encrypt_3ncr_with_iv("v", iv));
    assert_ne!(ea, other_salt.encrypt_3ncr_with_iv("v", iv));
}

#[test]
fn from_argon2id_salt_length_boundary() {
    assert!(TokenCrypt::from_argon2id(b"secret", &[1u8; 16]).is_ok());
    match TokenCrypt::from_argon2id(b"secret", &[1u8; 15]) {
        Err(e) => assert_eq!(e, TokenCryptError::SaltTooShort(15)),
        Ok(_) => panic!("a 15-byte salt was accepted"),
    }
    match TokenCrypt::from_argon2id(b"secret", b"") {
        Err(e) => assert_eq!(e, TokenCryptError::SaltTooShort(0)),
        Ok(_) => panic!("an empty salt was accepted"),
    }
}

#[test]
fn pbkdf2_parameters_change_the_key() {
    let iv = [0u8; 12];
    let base = legacy().encrypt_3ncr_with_iv("v", iv);
    assert_ne!(base, TokenCrypt::from_pbkdf2_sha3(b"a", b"c", 1000).encrypt_3ncr_with_iv("v", iv));
    assert_ne!(base, TokenCrypt::from_pbkdf2_sha3(b"b", b"b", 1000).encrypt_3ncr_with_iv("v", iv));
}

#[test]
fn error_messages() {
    assert_eq!(TokenCryptError::SaltTooShort(5).message(), "salt must be at least 16 bytes, got 5");
    assert_eq!(TokenCryptError::SaltTooShort(0).message(), "salt must be at least 16 bytes, got 0");
    assert_eq!(TokenCryptError::InvalidBase64.message(), "invalid base64 payload");
    assert_eq!(TokenCryptError::Truncated.message(), "truncated 3ncr token");
    assert_eq!(
        TokenCryptError::DecryptionFailed.message(),
        "authentication tag verification failed"
    );
    assert_eq!(TokenCryptError::InvalidUtf8.message(), "decrypted bytes are not valid UTF-8");
    assert_eq!(TokenCryptError::Argon2.message(), "argon2id key derivation failed");
    assert_eq!(
        TokenCryptError::RandomUnavailable.message(),
        "system random number generator unavailable"
    );
}

#[test]
fn decimal_string_values() {
    assert_eq!(decimal_string(0), "0");
    assert_eq!(decimal_string(9), "9");
    assert_eq!(decimal_string(10), "10");
    assert_eq!(decimal_string(1234567), "1234567");
    assert_eq!(decimal_string(usize::MAX), usize::MAX.to_string());
}

#[test]
fn envelope_length_matches_the_formula() {
    let tc = TokenCrypt::from_raw_key([1u8; 32]);
    for n in 0..10usize {
        let p = "z".repeat(n);
        let enc = tc.encrypt_3ncr_with_iv(&p, [4u8; 12]);
        let m = n + 28;
        let b64 = 4 * (m / 3) + if m % 3 == 0 { 0 } else { m % 3 + 1 };
        assert_eq!(enc.len(), 11 + b64);
    }
}

#[test]
fn body_padding_gives_same_error() {
    let tc = legacy();
    let bad = "3ncr.org/1#AAAA";
    let padded = "3ncr.org/1#AAAA===";
    assert_eq!(tc.decrypt_if_3ncr(bad).unwrap_err(), TokenCryptError::Truncated);
    assert_eq!(tc.decrypt_if_3ncr(padded).unwrap_err(), TokenCryptError::Truncated);
}

#[test]
fn format_errors_are_the_same_under_any_key() {
    let a = TokenCrypt::from_raw_key([1u8; 32]);
    let b = TokenCrypt::from_raw_key([2u8; 32]);
    for v in ["3ncr.org/1#@@@@", "3ncr.org/1#AAAA", "3ncr.org/1#"] {
        assert_eq!(a.decrypt_if_3ncr(v).unwrap_err(), b.decrypt_if_3ncr(v).unwrap_err());
    }
}

#[test]
fn opened_payload_is_the_sealed_plaintext() {
    let tc = TokenCrypt::from_raw_key([8u8; 32]);
    let enc = tc.encrypt_3ncr_with_iv("payload text", [6u8; 12]);
    let payload = STANDARD_NO_PAD.decode(&enc[HEADER_V1.len()..]).unwrap();
    assert_eq!(&payload[..12], &[6u8; 12]);
    assert_eq!(tc.open_payload(&payload).unwrap(), "payload text");
}
