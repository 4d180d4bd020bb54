//! The mathematical model of the hexadecimal codec: what encoding and decoding
//! give, over sequences of bytes.
use super::error::FromHexError;
use vstd::prelude::*;

verus! {

/// The encoding of `data`: two digits for each byte, the digit of the high
/// four bits before that of the low four, each digit taken from `table`.
pub open spec fn hex_digits(table: Seq<u8>, data: Seq<u8>) -> Seq<u8> {
    Seq::new(
        2 * data.len(),
        |i: int|
            if i % 2 == 0 {
                table[data[i / 2] as int / 16]
            } else {
                table[data[i / 2] as int % 16]
            },
    )
}

/// The text whose characters are the given bytes.
pub open spec fn as_chars(bytes: Seq<u8>) -> Seq<char> {
    Seq::new(bytes.len(), |i: int| bytes[i] as char)
}

/// The value of the hexadecimal digit `c`, in either case, where it is one.
pub open spec fn digit_value(c: u8) -> Option<u8> {
    if 0x30 <= c <= 0x39 {
        Some((c - 0x30) as u8)
    } else if 0x41 <= c <= 0x46 {
        Some((c - 0x41 + 10) as u8)
    } else if 0x61 <= c <= 0x66 {
        Some((c - 0x61 + 10) as u8)
    } else {
        None
    }
}

/// Whether `c` is a hexadecimal digit.
pub open spec fn is_digit(c: u8) -> bool {
    digit_value(c) is Some
}

/// Whether every byte of `text` is a hexadecimal digit.
pub open spec fn all_digits(text: Seq<u8>) -> bool {
    forall|i: int| 0 <= i < text.len() ==> is_digit(#[trigger] text[i])
}

/// Whether `i` is the place of the first byte of `text` that is no digit.
pub open spec fn is_first_invalid(text: Seq<u8>, i: int) -> bool {
    &&& 0 <= i < text.len()
    &&& !is_digit(text[i])
    &&& forall|j: int| 0 <= j < i ==> is_digit(#[trigger] text[j])
}

/// The place of the first byte of `text` that is no digit, where there is one.
pub open spec fn first_invalid(text: Seq<u8>) -> int {
    choose|i: int| is_first_invalid(text, i)
}

/// The byte that two digits stand for.
pub open spec fn pair_value(high: u8, low: u8) -> u8 {
    (digit_value(high).unwrap() * 16 + digit_value(low).unwrap()) as u8
}

/// The bytes that a text of digits stands for, two digits to the byte.
pub open spec fn decoded(text: Seq<u8>) -> Seq<u8> {
    Seq::new(text.len() / 2, |i: int| pair_value(text[2 * i], text[2 * i + 1]))
}

/// The error for the first byte of `text` that is no digit.
pub open spec fn invalid_character(text: Seq<u8>) -> FromHexError {
    FromHexError::InvalidHexCharacter {
        c: text[first_invalid(text)] as char,
        index: first_invalid(text) as usize,
    }
}

/// What decoding `text` gives: the bytes it stands for, or why it stands for
/// none. A text of odd length is refused before its bytes are looked at.
pub open spec fn decode_spec(text: Seq<u8>) -> Result<Seq<u8>, FromHexError> {
    if text.len() % 2 != 0 {
        Err(FromHexError::OddLength)
    } else if all_digits(text) {
        Ok(decoded(text))
    } else {
        Err(invalid_character(text))
    }
}

/// What decoding `text` into exactly `n` bytes gives. A text of odd length is
/// refused first, then one that stands for another number of bytes.
pub open spec fn decode_fixed_spec(text: Seq<u8>, n: nat) -> Result<Seq<u8>, FromHexError> {
    if text.len() % 2 != 0 {
        Err(FromHexError::OddLength)
    } else if text.len() / 2 != n {
        Err(FromHexError::InvalidStringLength)
    } else {
        decode_spec(text)
    }
}

} // verus!
