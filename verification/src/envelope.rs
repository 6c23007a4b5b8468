//! The 3ncr.org v1 envelope as a mathematical object: what an encrypted
//! value looks like, and what decrypting a value gives.

use vstd::prelude::*;
use vstd::utf8::*;

use crate::error::TokenCryptError;
use crate::primitives::{
    aes256gcm_open, aes256gcm_seal, base64_decode, base64_encode, base64_encoded_len,
};

verus! {

/// 3ncr.org v1 envelope header.
pub const HEADER_V1: &'static str = "3ncr.org/1#";

/// Length of the header in characters (and in bytes: it is ASCII).
pub const HEADER_LEN: usize = 11;

/// Length of the AES-256 key.
pub const AES_KEY_SIZE: usize = 32;

/// Length of the random IV that starts every payload.
pub const IV_SIZE: usize = 12;

/// Length of the GCM tag that ends every payload.
pub const TAG_SIZE: usize = 16;

/// The characters of [`HEADER_V1`].
pub open spec fn header() -> Seq<char> {
    seq!['3', 'n', 'c', 'r', '.', 'o', 'r', 'g', '/', '1', '#']
}

/// A value carries the v1 header.
pub open spec fn has_header(value: Seq<char>) -> bool {
    value.len() >= 11 && value.take(11) == header()
}

/// A byte string with every trailing `=` removed.
pub open spec fn trim_padding_spec(text: Seq<u8>) -> Seq<u8>
    decreases text.len(),
{
    if text.len() > 0 && text.last() == 61u8 {
        trim_padding_spec(text.drop_last())
    } else {
        text
    }
}

/// What the decoded payload `iv || ciphertext || tag` decrypts to.
pub open spec fn open_payload_spec(key: Seq<u8>, payload: Seq<u8>) -> Result<Seq<char>, TokenCryptError> {
    if payload.len() < 28 {
        Err(TokenCryptError::Truncated)
    } else {
        match aes256gcm_open(key, payload.take(12), payload.skip(12)) {
            None => Err(TokenCryptError::DecryptionFailed),
            Some(plain) => if valid_utf8(plain) {
                Ok(decode_utf8(plain))
            } else {
                Err(TokenCryptError::InvalidUtf8)
            },
        }
    }
}

/// What the text after the header decrypts to: trailing padding is ignored,
/// the rest must be base64 of a payload.
pub open spec fn decrypt_body_spec(key: Seq<u8>, body: Seq<char>) -> Result<Seq<char>, TokenCryptError> {
    match base64_decode(trim_padding_spec(encode_utf8(body))) {
        None => Err(TokenCryptError::InvalidBase64),
        Some(payload) => open_payload_spec(key, payload),
    }
}

/// What a configuration value decrypts to under a key: a value with the
/// header is decrypted, any other value is itself.
pub open spec fn decrypt_value(key: Seq<u8>, value: Seq<char>) -> Result<Seq<char>, TokenCryptError> {
    if has_header(value) {
        decrypt_body_spec(key, value.skip(11))
    } else {
        Ok(value)
    }
}

/// The payload `iv || ciphertext || tag` for a plaintext.
pub open spec fn sealed_payload(key: Seq<u8>, iv: Seq<u8>, plaintext: Seq<char>) -> Seq<u8> {
    iv + aes256gcm_seal(key, iv, encode_utf8(plaintext))
}

/// The envelope that encrypting `plaintext` with `iv` produces.
pub open spec fn envelope(key: Seq<u8>, iv: Seq<u8>, plaintext: Seq<char>) -> Seq<char> {
    header() + base64_encode(sealed_payload(key, iv, plaintext))
}

/// The IV that a value carries: the first 12 bytes of the payload that its
/// text after the header decodes to, when it decodes to one that long.
pub open spec fn value_iv(value: Seq<char>) -> Option<Seq<u8>> {
    match base64_decode(encode_utf8(value.skip(11))) {
        Some(payload) => if payload.len() >= 12 {
            Some(payload.take(12))
        } else {
            None
        },
        None => None,
    }
}

/// The length in characters of the envelope of a plaintext of
/// `plain_len` UTF-8 bytes: the header, then the unpadded base64 of
/// IV, ciphertext (as long as the plaintext) and tag.
pub open spec fn envelope_len(plain_len: nat) -> nat {
    11 + base64_encoded_len(plain_len + 28)
}

/// `Seq` of `n` copies of `=`.
pub open spec fn padding(n: nat) -> Seq<char> {
    Seq::new(n, |i: int| '=')
}

/// UTF-8 encoding distributes over concatenation.
pub proof fn lemma_encode_utf8_concat(a: Seq<char>, b: Seq<char>)
    ensures
        encode_utf8(a + b) == encode_utf8(a) + encode_utf8(b),
    decreases a.len(),
{
    if a.len() == 0 {
        assert(a + b =~= b);
        assert(encode_utf8(a) + encode_utf8(b) =~= encode_utf8(b));
    } else {
        assert((a + b).drop_first() =~= a.drop_first() + b);
        lemma_encode_utf8_concat(a.drop_first(), b);
        assert(encode_utf8(a + b) =~= encode_scalar(a[0] as u32) + encode_utf8(a.drop_first() + b));
    }
}

/// Removing trailing `=` is unaffected by further trailing `=`.
pub proof fn lemma_trim_padding_extra(text: Seq<u8>, n: nat)
    ensures
        trim_padding_spec(text + Seq::new(n, |i: int| 61u8)) == trim_padding_spec(text),
    decreases n,
{
    let pads = Seq::new(n, |i: int| 61u8);
    if n > 0 {
        let shorter = Seq::new((n - 1) as nat, |i: int| 61u8);
        assert((text + pads).drop_last() =~= text + shorter);
        lemma_trim_padding_extra(text, (n - 1) as nat);
    } else {
        assert(text + pads =~= text);
    }
}

/// The UTF-8 encoding of `n` copies of `=` is `n` bytes `0x3D`.
pub proof fn lemma_encode_padding(n: nat)
    ensures
        encode_utf8(padding(n)) == Seq::new(n, |i: int| 61u8),
{
    assert(is_ascii_chars(padding(n)));
    is_ascii_chars_encode_utf8(padding(n));
    assert(encode_utf8(padding(n)) =~= Seq::new(n, |i: int| 61u8));
}

/// Any number of trailing `=` after the header is ignored: a padded and an
/// unpadded body decrypt to the same result, success or error.
pub proof fn body_padding_is_ignored(key: Seq<u8>, body: Seq<char>, n: nat)
    ensures
        decrypt_body_spec(key, body + padding(n)) == decrypt_body_spec(key, body),
{
    lemma_encode_utf8_concat(body, padding(n));
    lemma_encode_padding(n);
    lemma_trim_padding_extra(encode_utf8(body), n);
}

/// Decoders accept padded input: appending `=` characters to an encrypted
/// value does not change what it decrypts to.
pub proof fn padding_is_ignored(key: Seq<u8>, value: Seq<char>, n: nat)
    requires
        has_header(value),
    ensures
        decrypt_value(key, value + padding(n)) == decrypt_value(key, value),
{
    let padded = value + padding(n);
    assert(padded.take(11) =~= value.take(11));
    assert(padded.skip(11) =~= value.skip(11) + padding(n));
    body_padding_is_ignored(key, value.skip(11), n);
}

/// Format errors do not depend on the key: whether a body is rejected as
/// invalid base64, or as too short to hold IV and tag, is the same under
/// any two keys.
pub proof fn format_errors_do_not_depend_on_key(key1: Seq<u8>, key2: Seq<u8>, body: Seq<char>)
    ensures
        decrypt_body_spec(key1, body) == Err::<Seq<char>, TokenCryptError>(TokenCryptError::InvalidBase64)
            <==> decrypt_body_spec(key2, body) == Err::<Seq<char>, TokenCryptError>(TokenCryptError::InvalidBase64),
        decrypt_body_spec(key1, body) == Err::<Seq<char>, TokenCryptError>(TokenCryptError::Truncated)
            <==> decrypt_body_spec(key2, body) == Err::<Seq<char>, TokenCryptError>(TokenCryptError::Truncated),
{
}

/// Two values that encrypting one plaintext under one key produced, each
/// carrying the IV it was made with, are equal exactly when their IVs are:
/// fresh, distinct IVs give distinct values.
pub proof fn values_equal_iff_ivs_equal(
    key: Seq<u8>,
    plaintext: Seq<char>,
    a: Seq<char>,
    iv_a: Seq<u8>,
    b: Seq<char>,
    iv_b: Seq<u8>,
)
    requires
        a == envelope(key, iv_a, plaintext),
        value_iv(a) == Some(iv_a),
        b == envelope(key, iv_b, plaintext),
        value_iv(b) == Some(iv_b),
    ensures
        (a == b) <==> (iv_a == iv_b),
{
}

/// A value that does not start with the header decrypts to itself.
pub proof fn plain_value_is_unchanged(key: Seq<u8>, value: Seq<char>)
    requires
        !has_header(value),
    ensures
        decrypt_value(key, value) == Ok::<Seq<char>, TokenCryptError>(value),
{
}

/// Trimming removes exactly the trailing `=` bytes: the result is a prefix
/// of the text that does not end in `=`, and everything removed is `=`.
pub proof fn trim_padding_removes_trailing_padding(text: Seq<u8>)
    ensures
        trim_padding_spec(text).len() <= text.len(),
        trim_padding_spec(text) == text.take(trim_padding_spec(text).len() as int),
        trim_padding_spec(text).len() > 0 ==> trim_padding_spec(text).last() != 61u8,
        forall|i: int| trim_padding_spec(text).len() <= i < text.len() ==> text[i] == 61u8,
    decreases text.len(),
{
    if text.len() > 0 && text.last() == 61u8 {
        trim_padding_removes_trailing_padding(text.drop_last());
        let t = trim_padding_spec(text.drop_last());
        assert(text.drop_last().take(t.len() as int) =~= text.take(t.len() as int));
        assert forall|i: int| t.len() <= i < text.len() implies text[i] == 61u8 by {
            if i < text.len() - 1 {
                assert(text.drop_last()[i] == text[i]);
            }
        }
    } else {
        assert(text.take(text.len() as int) =~= text);
    }
}

/// The payload of an encrypted value is the IV followed by the AES-256-GCM
/// sealing of the plaintext's own UTF-8 bytes under that IV.
pub proof fn sealed_payload_is_aead_seal_of_utf8(key: Seq<u8>, iv: Seq<u8>, plaintext: Seq<char>)
    requires
        iv.len() == 12,
    ensures
        sealed_payload(key, iv, plaintext) == iv + aes256gcm_seal(key, iv, encode_utf8(plaintext)),
        sealed_payload(key, iv, plaintext).take(12) == iv,
        sealed_payload(key, iv, plaintext).skip(12) == aes256gcm_seal(key, iv, encode_utf8(plaintext)),
{
    let p = sealed_payload(key, iv, plaintext);
    assert(p.take(12) =~= iv);
    assert(p.skip(12) =~= aes256gcm_seal(key, iv, encode_utf8(plaintext)));
}

/// Opening a payload is AES-256-GCM and nothing else: it gives the text `s`
/// exactly when the payload holds IV and tag and AES-256-GCM opens the rest,
/// under the first 12 bytes as nonce, to the UTF-8 bytes of `s`.
pub proof fn opening_is_aead_open_of_utf8(key: Seq<u8>, payload: Seq<u8>, s: Seq<char>)
    ensures
        open_payload_spec(key, payload) == Ok::<Seq<char>, TokenCryptError>(s) <==> (
            payload.len() >= 28 && aes256gcm_open(key, payload.take(12), payload.skip(12)) == Some(encode_utf8(s))
        ),
{
    if payload.len() >= 28 {
        match aes256gcm_open(key, payload.take(12), payload.skip(12)) {
            Some(plain) => {
                if valid_utf8(plain) {
                    decode_utf8_encode_utf8(plain);
                }
                encode_utf8_valid_utf8(s);
                encode_utf8_decode_utf8(s);
            },
            None => {},
        }
    }
}

/// Each way opening a payload fails, and exactly when: too short for IV and
/// tag, rejected by AES-256-GCM, or an AEAD plaintext that is not UTF-8.
pub proof fn opening_errors(key: Seq<u8>, payload: Seq<u8>)
    ensures
        open_payload_spec(key, payload) == Err::<Seq<char>, TokenCryptError>(TokenCryptError::Truncated)
            <==> payload.len() < 28,
        open_payload_spec(key, payload) == Err::<Seq<char>, TokenCryptError>(TokenCryptError::DecryptionFailed)
            <==> (payload.len() >= 28 && aes256gcm_open(key, payload.take(12), payload.skip(12)) is None),
        open_payload_spec(key, payload) == Err::<Seq<char>, TokenCryptError>(TokenCryptError::InvalidUtf8)
            <==> (payload.len() >= 28 && (aes256gcm_open(key, payload.take(12), payload.skip(12)) matches Some(p)
                && !valid_utf8(p))),
{
}

/// A value with the header decrypts to `s` exactly when its text after the
/// header, with trailing `=` removed, is base64 of a payload that
/// AES-256-GCM opens to the UTF-8 bytes of `s`.
pub proof fn decrypting_is_base64_then_aead_open(key: Seq<u8>, value: Seq<char>, s: Seq<char>)
    requires
        has_header(value),
    ensures
        decrypt_value(key, value) == Ok::<Seq<char>, TokenCryptError>(s) <==> exists|payload: Seq<u8>|
            base64_decode(trim_padding_spec(encode_utf8(value.skip(11)))) == Some(payload)
            && payload.len() >= 28
            && #[trigger] aes256gcm_open(key, payload.take(12), payload.skip(12)) == Some(encode_utf8(s)),
{
    match base64_decode(trim_padding_spec(encode_utf8(value.skip(11)))) {
        Some(payload) => {
            opening_is_aead_open_of_utf8(key, payload, s);
        },
        None => {},
    }
}

/// Strips the v1 header: `Some` with the rest of the value when the value
/// starts with it, `None` otherwise.
pub fn strip_header(value: &str) -> (res: Option<&str>)
    ensures
        res is Some <==> has_header(value@),
        res matches Some(body) ==> body@ == value@.skip(11),
{
    let h = HEADER_V1;
    proof {
        reveal_strlit("3ncr.org/1#");
    }
    assert(h@ =~= header());
    let n = value.unicode_len();
    if n < HEADER_LEN {
        return None;
    }
    let mut i: usize = 0;
    while i < HEADER_LEN
        invariant
            i <= HEADER_LEN,
            n == value@.len(),
            n >= HEADER_LEN,
            h@ == header(),
            forall|j: int| 0 <= j < i ==> value@[j] == header()[j],
        decreases HEADER_LEN - i,
    {
        if value.get_char(i) != h.get_char(i) {
            assert(value@.take(11)[i as int] != header()[i as int]);
            return None;
        }
        i = i + 1;
    }
    assert(value@.take(11) =~= header());
    Some(value.substring_char(HEADER_LEN, n))
}

/// Removes every trailing `=` byte: the encoder emits no padding, decoders
/// accept both forms.
pub fn trim_padding(text: &[u8]) -> (res: &[u8])
    ensures
        res@ == trim_padding_spec(text@),
{
    let mut end = text.len();
    assert(text@.take(end as int) =~= text@);
    while end > 0 && text[end - 1] == 61u8
        invariant
            end <= text@.len(),
            trim_padding_spec(text@.take(end as int)) == trim_padding_spec(text@),
        decreases end,
    {
        assert(text@.take(end as int).drop_last() =~= text@.take(end - 1));
        end = end - 1;
    }
    let res = &text[0..end];
    assert(res@ =~= text@.take(end as int));
    res
}

} // verus!
