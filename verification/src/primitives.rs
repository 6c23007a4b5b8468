//! Calls into the cryptographic and encoding crates, each behind a contract.
//!
//! Nothing in this file is proved: every function here is believed as stated.
//! The names declared here stand for what an outside function computes; the
//! contracts tie each call's result to them.

use vstd::prelude::*;
use vstd::utf8::*;

use aes_gcm::aead::{Aead, KeyInit};
use aes_gcm::{Aes256Gcm, Key, Nonce};
use argon2::{Algorithm, Argon2, Params, Version};
use base64::engine::general_purpose::STANDARD_NO_PAD;
use base64::Engine;
use hmac::Hmac;
use sha3::{Digest, Sha3_256};

verus! {

/// The largest plaintext, in bytes, that AES-GCM accepts (`aes_gcm::P_MAX`).
pub const AES_GCM_MAX_PLAINTEXT: u64 = 0x10_0000_0000;

#[verifier::external_type_specification]
#[verifier::external_body]
pub struct ExAeadError(aes_gcm::Error);

#[verifier::external_type_specification]
#[verifier::external_body]
pub struct ExArgon2Error(argon2::Error);

#[verifier::external_type_specification]
#[verifier::external_body]
pub struct ExDecodeError(base64::DecodeError);

#[verifier::external_type_specification]
#[verifier::external_body]
pub struct ExRandomError(getrandom::Error);

#[verifier::external_type_specification]
#[verifier::external_body]
pub struct ExFromUtf8Error(std::string::FromUtf8Error);

/// The AES-256-GCM ciphertext followed by its 16-byte tag, for a key, a
/// 12-byte nonce and a plaintext, with empty associated data.
pub uninterp spec fn aes256gcm_seal(key: Seq<u8>, nonce: Seq<u8>, plaintext: Seq<u8>) -> Seq<u8>;

/// What AES-256-GCM decryption with empty associated data yields: the
/// plaintext when the tag verifies, `None` otherwise.
pub uninterp spec fn aes256gcm_open(key: Seq<u8>, nonce: Seq<u8>, sealed: Seq<u8>) -> Option<Seq<u8>>;

/// The SHA3-256 digest of a byte string.
pub uninterp spec fn sha3_256(data: Seq<u8>) -> Seq<u8>;

/// The 32-byte PBKDF2 output with HMAC-SHA3-256 as its PRF.
pub uninterp spec fn pbkdf2_hmac_sha3_256(password: Seq<u8>, salt: Seq<u8>, rounds: u32) -> Seq<u8>;

/// The 32-byte Argon2id (version 0x13) output for a password, a salt and the
/// memory, time and parallelism costs.
pub uninterp spec fn argon2id(password: Seq<u8>, salt: Seq<u8>, m_cost: u32, t_cost: u32, p_cost: u32) -> Seq<u8>;

/// The base64 text of a byte string in the standard alphabet, without padding.
pub uninterp spec fn base64_encode(data: Seq<u8>) -> Seq<char>;

/// What the standard-alphabet base64 decoder that rejects padding makes of
/// a byte string: the decoded bytes, or `None` when the text is not valid.
pub uninterp spec fn base64_decode(text: Seq<u8>) -> Option<Seq<u8>>;

/// The length of unpadded base64 text for `n` bytes: four symbols for each
/// full group of three bytes, and one more symbol than bytes in a final
/// partial group.
pub open spec fn base64_encoded_len(n: nat) -> nat {
    4 * (n / 3) + if n % 3 == 0 { 0 } else { n % 3 + 1 }
}

/// A symbol of the standard base64 alphabet: `A`-`Z`, `a`-`z`, `0`-`9`, `+`, `/`.
pub open spec fn is_base64_symbol(c: char) -> bool {
    ||| ('A' <= c && c <= 'Z')
    ||| ('a' <= c && c <= 'z')
    ||| ('0' <= c && c <= '9')
    ||| c == '+'
    ||| c == '/'
}

/// Calls `Aes256Gcm::new` on the key and `Aead::encrypt` with the nonce and
/// the plaintext. The contract claims that the result is the sealed text
/// named `aes256gcm_seal`, that it is the plaintext's length plus the 16-byte
/// tag, and that decryption with the same key and nonce gives the plaintext
/// back. `encrypt` fails only above `P_MAX` bytes, which `requires` rules out.
#[verifier::external_body]
pub(crate) fn seal_aes256gcm(key: &[u8; 32], nonce: &[u8; 12], plaintext: &[u8]) -> (res: Vec<u8>)
    requires
        plaintext@.len() <= AES_GCM_MAX_PLAINTEXT,
    ensures
        res@ == aes256gcm_seal(key@, nonce@, plaintext@),
        res@.len() == plaintext@.len() + 16,
        aes256gcm_open(key@, nonce@, res@) == Some(plaintext@),
{
    let cipher = Aes256Gcm::new(Key::<Aes256Gcm>::from_slice(key));
    cipher.encrypt(Nonce::from_slice(nonce), plaintext).expect("plaintext within P_MAX")
}

/// Calls `Aes256Gcm::new` on the key and `Aead::decrypt` with the nonce and
/// the sealed text. The contract claims that the outcome is the one named
/// `aes256gcm_open`, and that a plaintext comes back only when the sealed
/// text is exactly what sealing that plaintext with the key and nonce gives
/// (the full 16-byte tag is compared, and the keystream is the one
/// encryption applies).
#[verifier::external_body]
pub(crate) fn open_aes256gcm(key: &[u8; 32], nonce: &[u8], sealed: &[u8]) -> (res: Result<Vec<u8>, aes_gcm::Error>)
    requires
        nonce@.len() == 12,
    ensures
        match res {
            Ok(p) => aes256gcm_open(key@, nonce@, sealed@) == Some(p@),
            Err(_) => aes256gcm_open(key@, nonce@, sealed@) is None,
        },
        res matches Ok(p) ==> sealed@ == aes256gcm_seal(key@, nonce@, p@),
{
    let cipher = Aes256Gcm::new(Key::<Aes256Gcm>::from_slice(key));
    cipher.decrypt(Nonce::from_slice(nonce), sealed)
}

/// Calls `Sha3_256::digest`. The contract claims the digest named `sha3_256`.
#[verifier::external_body]
pub(crate) fn digest_sha3_256(data: &[u8]) -> (res: [u8; 32])
    ensures
        res@ == sha3_256(data@),
{
    Sha3_256::digest(data).into()
}

/// Calls `pbkdf2::pbkdf2::<Hmac<Sha3_256>>` into a 32-byte buffer. The
/// contract claims the output named `pbkdf2_hmac_sha3_256`. The call's only
/// error comes from keying the PRF, and HMAC accepts keys of any length.
#[verifier::external_body]
pub(crate) fn derive_pbkdf2_hmac_sha3_256(password: &[u8], salt: &[u8], rounds: u32) -> (res: [u8; 32])
    ensures
        res@ == pbkdf2_hmac_sha3_256(password@, salt@, rounds),
{
    let mut out = [0u8; 32];
    pbkdf2::pbkdf2::<Hmac<Sha3_256>>(password, salt, rounds, &mut out).expect("HMAC takes any key length");
    out
}

/// Calls `argon2::Params::new` with the costs and a 32-byte output, then
/// `Argon2::hash_password_into` with `Algorithm::Argon2id` and
/// `Version::V0x13`. The contract claims the output named `argon2id` on
/// success, and success exactly when the parameters pass `Params::new` and
/// the password and salt lengths pass the hash's own input validation.
/// `Params::new` computes `p_cost * 8` in `u32`, which `requires` keeps from
/// overflowing.
#[verifier::external_body]
pub(crate) fn derive_argon2id(password: &[u8], salt: &[u8], m_cost: u32, t_cost: u32, p_cost: u32) -> (res: Result<[u8; 32], argon2::Error>)
    requires
        p_cost * 8 <= u32::MAX,
    ensures
        res is Ok <==> {
            &&& m_cost >= 8
            &&& m_cost >= p_cost * 8
            &&& t_cost >= 1
            &&& 1 <= p_cost <= 0xFF_FFFF
            &&& password@.len() <= 0xFFFF_FFFF
            &&& 8 <= salt@.len() <= 0xFFFF_FFFF
        },
        res matches Ok(k) ==> k@ == argon2id(password@, salt@, m_cost, t_cost, p_cost),
{
    let params = Params::new(m_cost, t_cost, p_cost, Some(32))?;
    let mut out = [0u8; 32];
    Argon2::new(Algorithm::Argon2id, Version::V0x13, params).hash_password_into(password, salt, &mut out)?;
    Ok(out)
}

/// Calls `STANDARD_NO_PAD.encode_string`, which appends to `out`. The
/// contract claims that what is appended is the text named `base64_encode`,
/// that its length is the unpadded encoded length (`base64::encoded_len`
/// with padding off), that it is made of standard-alphabet symbols only, and
/// that the decoder gives the input back from it.
#[verifier::external_body]
pub(crate) fn append_base64(data: &[u8], out: &mut String)
    ensures
        final(out)@ == old(out)@ + base64_encode(data@),
        final(out)@.len() == old(out)@.len() + base64_encoded_len(data@.len()),
        forall|i: int| old(out)@.len() <= i < final(out)@.len() ==> is_base64_symbol(#[trigger] final(out)@[i]),
        base64_decode(encode_utf8(final(out)@.skip(old(out)@.len() as int))) == Some(data@),
{
    STANDARD_NO_PAD.encode_string(data, out)
}

/// Calls `STANDARD_NO_PAD.decode`. The contract claims that the outcome is
/// the one named `base64_decode`.
#[verifier::external_body]
pub(crate) fn decode_base64(text: &[u8]) -> (res: Result<Vec<u8>, base64::DecodeError>)
    ensures
        match res {
            Ok(v) => base64_decode(text@) == Some(v@),
            Err(_) => base64_decode(text@) is None,
        },
{
    STANDARD_NO_PAD.decode(text)
}

/// Calls `getrandom::getrandom` on a 12-byte buffer. Nothing is claimed of
/// the bytes or of whether the system generator succeeds.
#[verifier::external_body]
pub(crate) fn random_nonce() -> (res: Result<[u8; 12], getrandom::Error>)
{
    let mut iv = [0u8; 12];
    getrandom::getrandom(&mut iv)?;
    Ok(iv)
}

/// Calls `String::from_utf8`. The contract claims success exactly on valid
/// UTF-8, with the decoded characters as the string.
#[verifier::external_body]
pub(crate) fn string_from_utf8(bytes: Vec<u8>) -> (res: Result<String, std::string::FromUtf8Error>)
    ensures
        res is Ok <==> valid_utf8(bytes@),
        res matches Ok(s) ==> s@ == decode_utf8(bytes@),
{
    String::from_utf8(bytes)
}

} // verus!
