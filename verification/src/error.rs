//! The library's error type and the text that describes each error.

use vstd::prelude::*;

verus! {

/// Errors returned by [`crate::token::TokenCrypt`].
#[derive(Debug, Clone, Copy, PartialEq, Eq, Structural)]
pub enum TokenCryptError {
    /// Salt supplied to `from_argon2id` was shorter than 16 bytes.
    SaltTooShort(usize),
    /// Base64 payload after the header is not valid.
    InvalidBase64,
    /// Payload is shorter than `IV + TAG` and therefore cannot be a 3ncr token.
    Truncated,
    /// GCM authentication tag verification failed (wrong key or tampered data).
    DecryptionFailed,
    /// Decrypted bytes are not valid UTF-8.
    InvalidUtf8,
    /// Argon2id KDF reported an internal error (e.g. invalid parameters).
    Argon2,
    /// The operating system's random number generator could not supply an IV.
    RandomUnavailable,
}

/// The character of a decimal digit.
pub open spec fn digit_char(d: nat) -> char
    recommends
        d < 10,
{
    ((d + 48) as u8) as char
}

/// The decimal representation of a natural number, most significant digit
/// first, without leading zeros.
pub open spec fn decimal(n: nat) -> Seq<char>
    decreases n,
{
    if n < 10 {
        seq![digit_char(n)]
    } else {
        decimal(n / 10).push(digit_char(n % 10))
    }
}

/// The text that describes an error.
pub open spec fn error_message(e: TokenCryptError) -> Seq<char> {
    match e {
        TokenCryptError::SaltTooShort(n) => "salt must be at least 16 bytes, got "@ + decimal(n as nat),
        TokenCryptError::InvalidBase64 => "invalid base64 payload"@,
        TokenCryptError::Truncated => "truncated 3ncr token"@,
        TokenCryptError::DecryptionFailed => "authentication tag verification failed"@,
        TokenCryptError::InvalidUtf8 => "decrypted bytes are not valid UTF-8"@,
        TokenCryptError::Argon2 => "argon2id key derivation failed"@,
        TokenCryptError::RandomUnavailable => "system random number generator unavailable"@,
    }
}

/// The decimal representation of `n` as a string.
pub fn decimal_string(n: usize) -> (res: String)
    ensures
        res@ == decimal(n as nat),
    decreases n,
{
    let digits = "0123456789";
    proof {
        reveal_strlit("0123456789");
    }
    if n < 10 {
        let d = digits.substring_ascii(n, n + 1);
        assert(d@ =~= seq![digit_char(n as nat)]);
        String::from_str(d)
    } else {
        let mut s = decimal_string(n / 10);
        let r = n % 10;
        let d = digits.substring_ascii(r, r + 1);
        assert(d@ =~= seq![digit_char(r as nat)]);
        s.append(d);
        s
    }
}

impl TokenCryptError {
    /// The text that describes this error.
    pub fn message(&self) -> (res: String)
        ensures
            res@ == error_message(*self),
    {
        match self {
            TokenCryptError::SaltTooShort(n) => {
                let mut s = String::from_str("salt must be at least 16 bytes, got ");
                let d = decimal_string(*n);
                s.append(d.as_str());
                s
            },
            TokenCryptError::InvalidBase64 => String::from_str("invalid base64 payload"),
            TokenCryptError::Truncated => String::from_str("truncated 3ncr token"),
            TokenCryptError::DecryptionFailed => String::from_str("authentication tag verification failed"),
            TokenCryptError::InvalidUtf8 => String::from_str("decrypted bytes are not valid UTF-8"),
            TokenCryptError::Argon2 => String::from_str("argon2id key derivation failed"),
            TokenCryptError::RandomUnavailable => String::from_str("system random number generator unavailable"),
        }
    }
}

} // verus!
