//! Cryptographic primitives: the SHA-512 hash function and a codec between
//! bytes and hexadecimal text.
pub mod hex;
pub mod sha2;

pub use crate::hex::{
    decode, decode_to_slice, encode, encode_to_slice, encode_upper, FromHex, FromHexError, ToHex,
};
