//! Verified implementation of the 3ncr.org v1 string encryption envelope.
//!
//! The v1 envelope is `3ncr.org/1#<base64(iv[12] || ciphertext || tag[16])>`,
//! using AES-256-GCM with a 12-byte random IV and base64 without padding.

pub mod envelope;
pub mod error;
pub mod primitives;
pub mod token;

pub use error::TokenCryptError;
pub use envelope::HEADER_V1;
pub use token::TokenCrypt;
