//! Facts about the model of the codec, and the law that decoding undoes
//! encoding.
use super::error::FromHexError;
use super::model::{
    all_digits, as_chars, decode_spec, decoded, digit_value, first_invalid, hex_digits, is_digit,
    is_first_invalid,
};
use super::{HEX_CHARS_LOWER, HEX_CHARS_UPPER};
use vstd::prelude::*;
use vstd::utf8::{encode_utf8, is_ascii_chars, is_ascii_chars_encode_utf8};

verus! {

/// The high four bits of a byte are its quotient by sixteen.
pub proof fn lemma_high_nibble(byte: u8)
    ensures
        byte >> 4 == byte / 16,
        (byte & 0xf0) >> 4 == byte / 16,
        byte / 16 < 16,
{
    assert(byte >> 4 == byte / 16) by (bit_vector);
    assert((byte & 0xf0) >> 4 == byte / 16) by (bit_vector);
}

/// The low four bits of a byte are its remainder by sixteen.
pub proof fn lemma_low_nibble(byte: u8)
    ensures
        byte & 0xf == byte % 16,
        byte % 16 < 16,
{
    assert(byte & 0xf == byte % 16) by (bit_vector);
}

/// Two values under sixteen, the first shifted by four bits, make up the byte
/// that has them as its high and low four bits.
pub proof fn lemma_join_nibbles(high: u8, low: u8)
    requires
        high < 16,
        low < 16,
    ensures
        high << 4 | low == high * 16 + low,
{
    assert(high << 4 | low == high * 16 + low) by (bit_vector)
        requires
            high < 16,
            low < 16,
    ;
}

/// The encoding starts with the two digits of the first byte and goes on with
/// the encoding of the rest.
pub proof fn lemma_hex_digits_step(table: Seq<u8>, data: Seq<u8>)
    requires
        data.len() > 0,
    ensures
        hex_digits(table, data) == seq![
            table[data[0] as int / 16],
            table[data[0] as int % 16],
        ] + hex_digits(table, data.skip(1)),
{
    let rest = hex_digits(table, data.skip(1));
    let head = seq![table[data[0] as int / 16], table[data[0] as int % 16]];
    assert forall|i: int| 0 <= i < 2 * data.len() implies hex_digits(table, data)[i] == (head
        + rest)[i] by {
        if i >= 2 {
            assert((head + rest)[i] == rest[i - 2]);
            assert(data.skip(1)[(i - 2) / 2] == data[i / 2]);
        }
    }
    assert(hex_digits(table, data) =~= head + rest);
}

/// Where a byte of a text is the first that is no digit, the text is not all
/// digits, and that byte's place is the one that the error names.
pub proof fn lemma_first_invalid(text: Seq<u8>, i: int)
    requires
        is_first_invalid(text, i),
    ensures
        first_invalid(text) == i,
        !all_digits(text),
{
    let k = first_invalid(text);
    assert(is_first_invalid(text, k));
    if k < i {
        assert(is_digit(text[k]));
    }
    if i < k {
        assert(is_digit(text[i]));
    }
}

/// Case: a letter digit has the same value in upper and in lower case, so a
/// text is decoded without regard to the case of its digits.
pub proof fn lemma_digit_value_case(upper: u8)
    requires
        0x41 <= upper <= 0x46,
    ensures
        digit_value(upper) == digit_value((upper + 0x20) as u8),
        digit_value(upper) is Some,
{
}

/// Entry `n` of either table of digits is a digit whose value is `n`.
pub proof fn lemma_table_values(n: int)
    requires
        0 <= n < 16,
    ensures
        digit_value(HEX_CHARS_LOWER[n]) == Some(n as u8),
        digit_value(HEX_CHARS_UPPER[n]) == Some(n as u8),
{
    if n == 0 {
    } else if n == 1 {
    } else if n == 2 {
    } else if n == 3 {
    } else if n == 4 {
    } else if n == 5 {
    } else if n == 6 {
    } else if n == 7 {
    } else if n == 8 {
    } else if n == 9 {
    } else if n == 10 {
    } else if n == 11 {
    } else if n == 12 {
    } else if n == 13 {
    } else if n == 14 {
    } else {
    }
}

/// The bytes of the text of an encoding, in lower or in upper case, are its
/// digits: each character of the text is one byte.
pub proof fn lemma_encoded_text_bytes(data: Seq<u8>)
    ensures
        encode_utf8(as_chars(hex_digits(HEX_CHARS_LOWER@, data))) == hex_digits(
            HEX_CHARS_LOWER@,
            data,
        ),
        encode_utf8(as_chars(hex_digits(HEX_CHARS_UPPER@, data))) == hex_digits(
            HEX_CHARS_UPPER@,
            data,
        ),
{
    let lower = hex_digits(HEX_CHARS_LOWER@, data);
    let upper = hex_digits(HEX_CHARS_UPPER@, data);
    assert forall|i: int| 0 <= i < lower.len() implies lower[i] < 0x80 && upper[i] < 0x80 by {
        lemma_table_values(data[i / 2] as int / 16);
        lemma_table_values(data[i / 2] as int % 16);
    }
    assert(is_ascii_chars(as_chars(lower)));
    assert(is_ascii_chars(as_chars(upper)));
    is_ascii_chars_encode_utf8(as_chars(lower));
    is_ascii_chars_encode_utf8(as_chars(upper));
    assert(encode_utf8(as_chars(lower)) =~= lower);
    assert(encode_utf8(as_chars(upper)) =~= upper);
}

/// Round trip: decoding the encoding of any bytes, in lower or in upper case,
/// succeeds and gives the bytes back; and so does decoding the bytes of the
/// encoding's text.
pub proof fn lemma_decode_encode(data: Seq<u8>)
    ensures
        decode_spec(hex_digits(HEX_CHARS_LOWER@, data)) == Ok::<Seq<u8>, FromHexError>(data),
        decode_spec(hex_digits(HEX_CHARS_UPPER@, data)) == Ok::<Seq<u8>, FromHexError>(data),
        decode_spec(encode_utf8(as_chars(hex_digits(HEX_CHARS_LOWER@, data)))) == Ok::<
            Seq<u8>,
            FromHexError,
        >(data),
        decode_spec(encode_utf8(as_chars(hex_digits(HEX_CHARS_UPPER@, data)))) == Ok::<
            Seq<u8>,
            FromHexError,
        >(data),
{
    lemma_encoded_text_bytes(data);
    let lower = hex_digits(HEX_CHARS_LOWER@, data);
    let upper = hex_digits(HEX_CHARS_UPPER@, data);
    assert forall|i: int| 0 <= i < lower.len() implies is_digit(#[trigger] lower[i]) && is_digit(
        #[trigger] upper[i],
    ) by {
        lemma_table_values(data[i / 2] as int / 16);
        lemma_table_values(data[i / 2] as int % 16);
    }
    assert forall|i: int| 0 <= i < data.len() implies decoded(lower)[i] == data[i] && decoded(
        upper,
    )[i] == data[i] by {
        lemma_table_values(data[i] as int / 16);
        lemma_table_values(data[i] as int % 16);
    }
    assert(decoded(lower) =~= data);
    assert(decoded(upper) =~= data);
}

} // verus!
