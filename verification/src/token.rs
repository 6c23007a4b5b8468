//! [`TokenCrypt`]: a 3ncr.org v1 encrypter/decrypter bound to a 32-byte AES key.

use std::borrow::Cow;

use vstd::prelude::*;
use vstd::utf8::*;

use crate::envelope::{
    decrypt_body_spec, decrypt_value, decrypting_is_base64_then_aead_open, envelope, envelope_len, has_header, value_iv, header, open_payload_spec,
    sealed_payload, strip_header, trim_padding, trim_padding_spec, AES_KEY_SIZE, HEADER_V1,
    IV_SIZE, TAG_SIZE,
};
use crate::error::TokenCryptError;
use crate::primitives::{
    aes256gcm_open, aes256gcm_seal, append_base64, argon2id, base64_decode, base64_encode,
    decode_base64, derive_argon2id, derive_pbkdf2_hmac_sha3_256, digest_sha3_256,
    is_base64_symbol, open_aes256gcm, pbkdf2_hmac_sha3_256, random_nonce, seal_aes256gcm,
    sha3_256, string_from_utf8, AES_GCM_MAX_PLAINTEXT,
};

verus! {

/// Argon2id memory cost in KiB recommended by 3ncr.org v1.
pub const ARGON2ID_MEMORY_KIB: u32 = 19456;

/// Argon2id time cost recommended by 3ncr.org v1.
pub const ARGON2ID_TIME_COST: u32 = 2;

/// Argon2id parallelism recommended by 3ncr.org v1.
pub const ARGON2ID_PARALLELISM: u32 = 1;

/// The shortest salt that `from_argon2id` accepts.
pub const ARGON2ID_MIN_SALT_BYTES: usize = 16;

/// A 3ncr.org v1 encrypter/decrypter bound to a 32-byte AES key.
pub struct TokenCrypt {
    key: [u8; AES_KEY_SIZE],
}

impl View for TokenCrypt {
    type V = Seq<u8>;

    /// The AES-256 key.
    closed spec fn view(&self) -> Seq<u8> {
        self.key@
    }
}

/// A plaintext that AES-GCM accepts in one message.
pub open spec fn encryptable(plaintext: Seq<char>) -> bool {
    encode_utf8(plaintext).len() <= AES_GCM_MAX_PLAINTEXT
}

impl TokenCrypt {
    /// The key is always 32 bytes.
    pub proof fn lemma_key_len(&self)
        ensures
            self@.len() == 32,
    {
    }

    /// Build a `TokenCrypt` from a raw 32-byte AES-256 key.
    ///
    /// Use this when your secret is already high-entropy and exactly 32 bytes
    /// (for example, loaded from a key-management service).
    pub fn from_raw_key(key: [u8; AES_KEY_SIZE]) -> (res: Self)
        ensures
            res@ == key@,
    {
        TokenCrypt { key }
    }

    /// Derive the AES key from a high-entropy secret via a single SHA3-256
    /// hash.
    ///
    /// Suitable for random pre-shared keys, UUIDs, or long random API tokens.
    /// For low-entropy inputs such as user passwords, prefer
    /// [`TokenCrypt::from_argon2id`].
    pub fn from_sha3(secret: &[u8]) -> (res: Self)
        ensures
            res@ == sha3_256(secret@),
    {
        let key = digest_sha3_256(secret);
        Self::from_raw_key(key)
    }

    /// Derive the AES key from a low-entropy secret via Argon2id using the
    /// 3ncr.org v1 recommended parameters (m=19456 KiB, t=2, p=1).
    ///
    /// `salt` must be at least 16 bytes. For deterministic derivation across
    /// implementations, pass the same salt.
    pub fn from_argon2id(secret: &[u8], salt: &[u8]) -> (res: Result<Self, TokenCryptError>)
        ensures
            salt@.len() < 16 ==> res == Err::<Self, TokenCryptError>(TokenCryptError::SaltTooShort(salt@.len() as usize)),
            salt@.len() >= 16 && salt@.len() <= 0xFFFF_FFFF && secret@.len() <= 0xFFFF_FFFF ==>
                (res matches Ok(tc) && tc@ == argon2id(secret@, salt@, 19456, 2, 1)),
            salt@.len() >= 16 && !(salt@.len() <= 0xFFFF_FFFF && secret@.len() <= 0xFFFF_FFFF) ==>
                res == Err::<Self, TokenCryptError>(TokenCryptError::Argon2),
    {
        let salt_len = salt.len();
        if salt_len < ARGON2ID_MIN_SALT_BYTES {
            return Err(TokenCryptError::SaltTooShort(salt_len));
        }
        match derive_argon2id(secret, salt, ARGON2ID_MEMORY_KIB, ARGON2ID_TIME_COST, ARGON2ID_PARALLELISM) {
            Ok(key) => Ok(Self::from_raw_key(key)),
            Err(_) => Err(TokenCryptError::Argon2),
        }
    }

    /// Derive the AES key via PBKDF2-HMAC-SHA3-256 (legacy KDF).
    ///
    /// Kept for backward compatibility with data encrypted by earlier 3ncr.org
    /// libraries. New callers should use [`TokenCrypt::from_argon2id`] for
    /// passwords or [`TokenCrypt::from_raw_key`] / [`TokenCrypt::from_sha3`]
    /// for high-entropy secrets. Deprecated since 1.0.0 as a legacy KDF.
    pub fn from_pbkdf2_sha3(secret: &[u8], salt: &[u8], iterations: u32) -> (res: Self)
        ensures
            res@ == pbkdf2_hmac_sha3_256(secret@, salt@, iterations),
    {
        let key = derive_pbkdf2_hmac_sha3_256(secret, salt, iterations);
        Self::from_raw_key(key)
    }

    /// Encrypt a UTF-8 string with the given IV and return a `3ncr.org/1#...`
    /// value. The value decrypts back to the plaintext under this key, and
    /// carries no base64 padding.
    ///
    /// Warning: never use one IV twice under one key. AES-GCM with a
    /// repeated nonce reveals the XOR of the two plaintexts and lets the
    /// authentication key be recovered, so forged values would be accepted.
    /// [`TokenCrypt::encrypt_3ncr`] draws a fresh random IV for each call;
    /// use this function only where the IV is known to be unique, such as
    /// reproducing fixed test vectors.
    pub fn encrypt_3ncr_with_iv(&self, plaintext: &str, iv: [u8; IV_SIZE]) -> (res: String)
        requires
            encryptable(plaintext@),
        ensures
            res@ == envelope(self@, iv@, plaintext@),
            res@ == header() + base64_encode(iv@ + aes256gcm_seal(self@, iv@, encode_utf8(plaintext@))),
            base64_decode(encode_utf8(res@.skip(11))) == Some(iv@ + aes256gcm_seal(self@, iv@, encode_utf8(plaintext@))),
            res@.len() == envelope_len(encode_utf8(plaintext@).len()),
            base64_decode(encode_utf8(res@.skip(11))) == Some(sealed_payload(self@, iv@, plaintext@)),
            value_iv(res@) == Some(iv@),
            decrypt_value(self@, res@) == Ok::<Seq<char>, TokenCryptError>(plaintext@),
            has_header(res@),
            forall|i: int| 11 <= i < res@.len() ==> is_base64_symbol(#[trigger] res@[i]),
    {
        let plain = plaintext.as_bytes();
        let sealed = seal_aes256gcm(&self.key, &iv, plain);
        let mut payload: Vec<u8> = Vec::new();
        payload.extend_from_slice(&iv);
        payload.extend_from_slice(sealed.as_slice());
        assert(payload@ =~= sealed_payload(self@, iv@, plaintext@));
        let mut out = String::from_str(HEADER_V1);
        proof {
            reveal_strlit("3ncr.org/1#");
        }
        assert(out@ =~= header());
        append_base64(payload.as_slice(), &mut out);
        proof {
            let ghost body = base64_encode(payload@);
            assert(out@.take(11) =~= header());
            assert(out@.skip(11) =~= body);
            assert(is_ascii_chars(body));
            is_ascii_chars_encode_utf8(body);
            let bytes = encode_utf8(body);
            if bytes.len() > 0 {
                assert(bytes.last() == body.last() as u8);
                assert(is_base64_symbol(out@[out@.len() - 1]));
            }
            assert(trim_padding_spec(bytes) == bytes);
            assert(payload@.take(12) =~= iv@);
            assert(payload@.skip(12) =~= sealed@);
            assert(out@.skip(11) =~= out@.skip(11 as int));
            encode_utf8_valid_utf8(plaintext@);
            encode_utf8_decode_utf8(plaintext@);
        }
        out
    }

    /// Encrypt a UTF-8 string and return a `3ncr.org/1#...` value, with a
    /// fresh IV from the operating system's random number generator.
    /// Fails only when that generator is unavailable.
    pub fn encrypt_3ncr(&self, plaintext: &str) -> (res: Result<String, TokenCryptError>)
        requires
            encryptable(plaintext@),
        ensures
            res matches Ok(s) ==> exists|iv: Seq<u8>|
                iv.len() == 12 && s@ == #[trigger] envelope(self@, iv, plaintext@) && value_iv(s@) == Some(iv),
            res matches Ok(s) ==> exists|iv: Seq<u8>|
                iv.len() == 12 && s@ == header() + base64_encode(
                    iv + #[trigger] aes256gcm_seal(self@, iv, encode_utf8(plaintext@)),
                ),
            res matches Ok(s) ==> s@.len() == envelope_len(encode_utf8(plaintext@).len()),
            res matches Ok(s) ==> decrypt_value(self@, s@) == Ok::<Seq<char>, TokenCryptError>(plaintext@),
            res matches Ok(s) ==> has_header(s@),
            res matches Ok(s) ==> forall|i: int| 11 <= i < s@.len() ==> is_base64_symbol(#[trigger] s@[i]),
            res matches Err(e) ==> e == TokenCryptError::RandomUnavailable,
    {
        self.encrypt_3ncr_with_outcome(plaintext, random_nonce())
    }

    /// Finish [`TokenCrypt::encrypt_3ncr`] once the random number generator
    /// has answered: an IV gives its envelope, a failure gives
    /// `RandomUnavailable`, whatever the plaintext.
    pub fn encrypt_3ncr_with_outcome(
        &self,
        plaintext: &str,
        outcome: Result<[u8; IV_SIZE], getrandom::Error>,
    ) -> (res: Result<String, TokenCryptError>)
        requires
            encryptable(plaintext@),
        ensures
            outcome is Ok <==> res is Ok,
            outcome matches Ok(iv) ==> (res matches Ok(s) && s@ == envelope(self@, iv@, plaintext@)
                && s@ == header() + base64_encode(iv@ + aes256gcm_seal(self@, iv@, encode_utf8(plaintext@)))
                && value_iv(s@) == Some(iv@)
                && s@.len() == envelope_len(encode_utf8(plaintext@).len())
                && decrypt_value(self@, s@) == Ok::<Seq<char>, TokenCryptError>(plaintext@)
                && has_header(s@)
                && forall|i: int| 11 <= i < s@.len() ==> is_base64_symbol(#[trigger] s@[i])),
            outcome is Err ==> res == Err::<String, TokenCryptError>(TokenCryptError::RandomUnavailable),
    {
        match outcome {
            Ok(iv) => {
                let s = self.encrypt_3ncr_with_iv(plaintext, iv);
                assert(iv@.len() == 12);
                Ok(s)
            },
            Err(_) => Err(TokenCryptError::RandomUnavailable),
        }
    }

    /// Decrypt `value` if it carries the `3ncr.org/1#` header; otherwise
    /// return it unchanged (borrowed). This makes it safe to route every
    /// configuration value through it regardless of whether it was encrypted.
    pub fn decrypt_if_3ncr<'a>(&self, value: &'a str) -> (res: Result<Cow<'a, str>, TokenCryptError>)
        ensures
            match res {
                Ok(out) => decrypt_value(self@, value@) == Ok::<Seq<char>, TokenCryptError>(out@)
                    && (out matches Cow::Borrowed(_) <==> !has_header(value@)),
                Err(e) => decrypt_value(self@, value@) == Err::<Seq<char>, TokenCryptError>(e),
            },
            res matches Ok(Cow::Owned(s)) ==> has_header(value@) && exists|payload: Seq<u8>|
                base64_decode(trim_padding_spec(encode_utf8(value@.skip(11)))) == Some(payload)
                && payload.len() >= 28
                && #[trigger] aes256gcm_open(self@, payload.take(12), payload.skip(12)) == Some(encode_utf8(s@)),
            res matches Ok(Cow::Borrowed(b)) ==> !has_header(value@) && b@ == value@,
    {
        match strip_header(value) {
            Some(body) => match self.decrypt(body) {
                Ok(s) => {
                    proof {
                        decrypting_is_base64_then_aead_open(self@, value@, s@);
                    }
                    Ok(Cow::Owned(s))
                },
                Err(e) => Err(e),
            },
            None => Ok(Cow::Borrowed(value)),
        }
    }

    /// Decrypt the text that follows the header.
    fn decrypt(&self, body: &str) -> (res: Result<String, TokenCryptError>)
        ensures
            match res {
                Ok(s) => decrypt_body_spec(self@, body@) == Ok::<Seq<char>, TokenCryptError>(s@),
                Err(e) => decrypt_body_spec(self@, body@) == Err::<Seq<char>, TokenCryptError>(e),
            },
    {
        // Spec emits no padding; decoders accept both for robustness.
        let stripped = trim_padding(body.as_bytes());
        match decode_base64(stripped) {
            Ok(payload) => self.open_payload(payload.as_slice()),
            Err(_) => Err(TokenCryptError::InvalidBase64),
        }
    }

    /// Decrypt a decoded payload `iv || ciphertext || tag` to its UTF-8
    /// plaintext.
    pub fn open_payload(&self, payload: &[u8]) -> (res: Result<String, TokenCryptError>)
        ensures
            match res {
                Ok(s) => open_payload_spec(self@, payload@) == Ok::<Seq<char>, TokenCryptError>(s@),
                Err(e) => open_payload_spec(self@, payload@) == Err::<Seq<char>, TokenCryptError>(e),
            },
            res matches Ok(s) ==> payload@ == sealed_payload(self@, payload@.take(12), s@),
            res matches Ok(s) ==> payload@.len() >= 28
                && aes256gcm_open(self@, payload@.take(12), payload@.skip(12)) == Some(encode_utf8(s@)),
            res matches Ok(s) ==> payload@ == payload@.take(12) + aes256gcm_seal(self@, payload@.take(12), encode_utf8(s@)),
            res is Ok <==> (payload@.len() >= 28 && (aes256gcm_open(self@, payload@.take(12), payload@.skip(12)) matches Some(p)
                && valid_utf8(p))),
    {
        if payload.len() < IV_SIZE + TAG_SIZE {
            return Err(TokenCryptError::Truncated);
        }
        let (iv, sealed) = payload.split_at(IV_SIZE);
        assert(iv@ =~= payload@.take(12));
        assert(sealed@ =~= payload@.skip(12));
        match open_aes256gcm(&self.key, iv, sealed) {
            Ok(plain) => match string_from_utf8(plain) {
                Ok(s) => {
                    proof {
                        decode_utf8_encode_utf8(plain@);
                        assert(payload@ =~= iv@ + sealed@);
                    }
                    Ok(s)
                },
                Err(_) => Err(TokenCryptError::InvalidUtf8),
            },
            Err(_) => Err(TokenCryptError::DecryptionFailed),
        }
    }
}

} // verus!
