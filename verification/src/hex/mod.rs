//! A codec between bytes and hexadecimal text: two digits for each byte, the
//! high four bits first. Encoding writes lower-case or upper-case digits;
//! decoding reads both.
pub mod error;
pub mod lemmas;
pub mod model;

pub use crate::hex::error::FromHexError;

use crate::hex::lemmas::{
    lemma_first_invalid, lemma_hex_digits_step, lemma_high_nibble, lemma_join_nibbles,
    lemma_low_nibble,
};
use crate::hex::model::{
    all_digits, as_chars, decode_fixed_spec, decode_spec, decoded, digit_value, hex_digits,
    is_digit, pair_value,
};
use vstd::prelude::*;

verus! {

/// `String::push` appends the given character to the end of the string.
pub assume_specification[ std::string::String::push ](string: &mut String, character: char)
    ensures
        final(string)@ == old(string)@.push(character),
;

/// Encoding as hexadecimal text.
pub trait ToHex {
    /// The bytes that are encoded.
    spec fn bytes(&self) -> Seq<u8>;

    /// The bytes as lower-case hexadecimal text.
    fn encode_hex(&self) -> (text: String)
        ensures
            text@ == as_chars(hex_digits(HEX_CHARS_LOWER@, self.bytes())),
    ;

    /// The bytes as upper-case hexadecimal text.
    fn encode_hex_upper(&self) -> (text: String)
        ensures
            text@ == as_chars(hex_digits(HEX_CHARS_UPPER@, self.bytes())),
    ;
}

/// The lower-case digits, by value: `0123456789abcdef`.
pub const HEX_CHARS_LOWER: [u8; 16] = [
    0x30, 0x31, 0x32, 0x33, 0x34, 0x35, 0x36, 0x37, 0x38, 0x39, 0x61, 0x62, 0x63, 0x64, 0x65, 0x66,
];

/// The upper-case digits, by value: `0123456789ABCDEF`.
pub const HEX_CHARS_UPPER: [u8; 16] = [
    0x30, 0x31, 0x32, 0x33, 0x34, 0x35, 0x36, 0x37, 0x38, 0x39, 0x41, 0x42, 0x43, 0x44, 0x45, 0x46,
];

/// The characters of the encoding of a slice of bytes, handed out one at a
/// time.
pub struct BytesToHexChars<'a> {
    inner: &'a [u8],
    at: usize,
    table: [u8; 16],
    next: Option<char>,
}

impl<'a> BytesToHexChars<'a> {
    #[verifier::type_invariant]
    spec fn well_formed(self) -> bool {
        self.at <= self.inner@.len()
    }

    /// The characters that are still to come.
    pub closed spec fn remaining(self) -> Seq<char> {
        let rest = as_chars(hex_digits(self.table@, self.inner@.skip(self.at as int)));
        match self.next {
            Some(c) => seq![c] + rest,
            None => rest,
        }
    }

    /// The characters of the encoding of `inner` with the digits of `table`.
    pub fn new(inner: &'a [u8], table: &[u8; 16]) -> (chars: BytesToHexChars<'a>)
        ensures
            chars.remaining() == as_chars(hex_digits(table@, inner@)),
    {
        assert(inner@.skip(0) =~= inner@);
        BytesToHexChars { inner, at: 0, table: *table, next: None }
    }

    /// The next character, if one is left.
    pub fn next(&mut self) -> (item: Option<char>)
        ensures
            match item {
                Some(c) => old(self).remaining().len() > 0 && c == old(self).remaining()[0]
                    && final(self).remaining() == old(self).remaining().drop_first(),
                None => old(self).remaining().len() == 0
                    && final(self).remaining() == old(self).remaining(),
            },
    {
        proof {
            use_type_invariant(&*self);
        }
        match self.next {
            Some(current) => {
                self.next = None;
                assert(final(self).remaining() =~= old(self).remaining().drop_first());
                Some(current)
            },
            None => {
                if self.at < self.inner.len() {
                    let byte = self.inner[self.at];
                    let ghost rest = self.inner@.skip(self.at as int);
                    proof {
                        lemma_high_nibble(byte);
                        lemma_low_nibble(byte);
                        lemma_hex_digits_step(self.table@, rest);
                        assert(rest.skip(1) =~= self.inner@.skip(self.at + 1));
                    }
                    let current = self.table[(byte >> 4) as usize] as char;
                    self.next = Some(self.table[(byte & 0xf) as usize] as char);
                    self.at = self.at + 1;
                    assert(final(self).remaining() =~= old(self).remaining().drop_first());
                    Some(current)
                } else {
                    None
                }
            },
        }
    }

    /// The bounds on the number of characters that are left: both are that
    /// number.
    pub fn size_hint(&self) -> (bounds: (usize, Option<usize>))
        requires
            self.remaining().len() <= usize::MAX,
        ensures
            bounds.0 == self.remaining().len(),
            bounds.1 == Some(bounds.0),
    {
        let length = self.len();
        (length, Some(length))
    }

    /// The number of characters that are left.
    pub fn len(&self) -> (length: usize)
        requires
            self.remaining().len() <= usize::MAX,
        ensures
            length == self.remaining().len(),
    {
        proof {
            use_type_invariant(self);
        }
        let mut length = (self.inner.len() - self.at) * 2;
        if self.next.is_some() {
            length += 1;
        }
        length
    }
}

/// The encoding of `source` with the digits of `table`, as text.
fn encode_to_iter(table: &[u8; 16], source: &[u8]) -> (text: String)
    ensures
        text@ == as_chars(hex_digits(table@, source@)),
{
    let mut chars = BytesToHexChars::new(source, table);
    let mut text = String::new();
    loop
        invariant
            text@ + chars.remaining() == as_chars(hex_digits(table@, source@)),
        ensures
            text@ == as_chars(hex_digits(table@, source@)),
        decreases chars.remaining().len(),
    {
        let ghost before = chars.remaining();
        match chars.next() {
            Some(c) => {
                text.push(c);
                assert(text@ + chars.remaining() =~= (text@.drop_last() + before));
            },
            None => {
                assert(text@ + chars.remaining() =~= text@);
                break ;
            },
        }
    }
    text
}

impl ToHex for [u8] {
    open spec fn bytes(&self) -> Seq<u8> {
        self@
    }

    fn encode_hex(&self) -> (text: String) {
        encode_to_iter(&HEX_CHARS_LOWER, self)
    }

    fn encode_hex_upper(&self) -> (text: String) {
        encode_to_iter(&HEX_CHARS_UPPER, self)
    }
}

impl ToHex for Vec<u8> {
    open spec fn bytes(&self) -> Seq<u8> {
        self@
    }

    fn encode_hex(&self) -> (text: String) {
        encode_to_iter(&HEX_CHARS_LOWER, self.as_slice())
    }

    fn encode_hex_upper(&self) -> (text: String) {
        encode_to_iter(&HEX_CHARS_UPPER, self.as_slice())
    }
}

impl<const N: usize> ToHex for [u8; N] {
    open spec fn bytes(&self) -> Seq<u8> {
        self@
    }

    fn encode_hex(&self) -> (text: String) {
        encode_to_iter(&HEX_CHARS_LOWER, self.as_slice())
    }

    fn encode_hex_upper(&self) -> (text: String) {
        encode_to_iter(&HEX_CHARS_UPPER, self.as_slice())
    }
}

/// Decoding from hexadecimal text, given as its bytes.
pub trait FromHex: Sized {
    type Error;

    /// The value that the text stands for, or why it stands for none.
    fn from_hex(hex: &[u8]) -> Result<Self, Self::Error>;
}

/// The value of the digit `c`, which stands at place `idx` of a text.
fn val(c: u8, idx: usize) -> (r: Result<u8, FromHexError>)
    ensures
        match r {
            Ok(v) => digit_value(c) == Some(v),
            Err(e) => !is_digit(c) && e == (FromHexError::InvalidHexCharacter {
                c: c as char,
                index: idx,
            }),
        },
{
    match c {
        // 'A' to 'F'
        0x41..=0x46 => Ok(c - 0x41 + 10),
        // 'a' to 'f'
        0x61..=0x66 => Ok(c - 0x61 + 10),
        // '0' to '9'
        0x30..=0x39 => Ok(c - 0x30),
        _ => Err(FromHexError::InvalidHexCharacter { c: c as char, index: idx }),
    }
}

/// The byte that the digits at places `2 * i` and `2 * i + 1` of `data` stand
/// for, or the error for the first of the two that is no digit.
fn byte_at(data: &[u8], i: usize) -> (r: Result<u8, FromHexError>)
    requires
        2 * i + 1 < data.len(),
    ensures
        match r {
            Ok(byte) => is_digit(data@[2 * i]) && is_digit(data@[2 * i + 1]) && byte == pair_value(
                data@[2 * i],
                data@[2 * i + 1],
            ),
            Err(e) => if is_digit(data@[2 * i]) {
                !is_digit(data@[2 * i + 1]) && e == (FromHexError::InvalidHexCharacter {
                    c: data@[2 * i + 1] as char,
                    index: (2 * i + 1) as usize,
                })
            } else {
                e == (FromHexError::InvalidHexCharacter {
                    c: data@[2 * i] as char,
                    index: (2 * i) as usize,
                })
            },
        },
{
    let high = match val(data[2 * i], 2 * i) {
        Ok(v) => v,
        Err(e) => {
            return Err(e);
        },
    };
    let low = match val(data[2 * i + 1], 2 * i + 1) {
        Ok(v) => v,
        Err(e) => {
            return Err(e);
        },
    };
    proof {
        lemma_join_nibbles(high, low);
    }
    Ok(high << 4 | low)
}

impl FromHex for Vec<u8> {
    type Error = FromHexError;

    fn from_hex(hex: &[u8]) -> (r: Result<Self, Self::Error>)
        ensures
            match r {
                Ok(bytes) => decode_spec(hex@) == Ok::<Seq<u8>, FromHexError>(bytes@),
                Err(e) => decode_spec(hex@) == Err::<Seq<u8>, FromHexError>(e),
            },
    {
        if hex.len() % 2 != 0 {
            return Err(FromHexError::OddLength);
        }
        let mut bytes: Vec<u8> = Vec::new();
        let mut i: usize = 0;
        while i < hex.len() / 2
            invariant
                hex@.len() % 2 == 0,
                i <= hex@.len() / 2,
                bytes@.len() == i,
                forall|j: int| 0 <= j < 2 * i ==> is_digit(#[trigger] hex@[j]),
                forall|j: int|
                    0 <= j < i ==> bytes@[j] == pair_value(hex@[2 * j], hex@[2 * j + 1]),
            decreases hex@.len() / 2 - i,
        {
            match byte_at(hex, i) {
                Ok(byte) => {
                    bytes.push(byte);
                },
                Err(e) => {
                    proof {
                        if is_digit(hex@[2 * i]) {
                            lemma_first_invalid(hex@, 2 * i + 1);
                        } else {
                            lemma_first_invalid(hex@, 2 * i as int);
                        }
                    }
                    return Err(e);
                },
            }
            assert forall|j: int| 0 <= j < 2 * (i + 1) implies is_digit(#[trigger] hex@[j]) by {
                if j >= 2 * i {
                    assert(j == 2 * i || j == 2 * i + 1);
                }
            }
            i = i + 1;
        }
        assert(all_digits(hex@));
        assert(bytes@ =~= decoded(hex@));
        Ok(bytes)
    }
}

impl<const N: usize> FromHex for [u8; N] {
    type Error = FromHexError;

    fn from_hex(hex: &[u8]) -> (r: Result<Self, Self::Error>)
        ensures
            match r {
                Ok(bytes) => decode_fixed_spec(hex@, N as nat) == Ok::<Seq<u8>, FromHexError>(
                    bytes@,
                ),
                Err(e) => decode_fixed_spec(hex@, N as nat) == Err::<Seq<u8>, FromHexError>(e),
            },
    {
        let mut out = [0u8; N];
        match decode_to_slice(hex, &mut out) {
            Ok(()) => Ok(out),
            Err(e) => Err(e),
        }
    }
}

/// The bytes as lower-case hexadecimal text, two characters to the byte.
pub fn encode(data: &[u8]) -> (text: String)
    ensures
        text@ == as_chars(hex_digits(HEX_CHARS_LOWER@, data@)),
{
    data.encode_hex()
}

/// The bytes as upper-case hexadecimal text, two characters to the byte.
pub fn encode_upper(data: &[u8]) -> (text: String)
    ensures
        text@ == as_chars(hex_digits(HEX_CHARS_UPPER@, data@)),
{
    data.encode_hex_upper()
}

/// The bytes that the hexadecimal text `data` stands for. Digits of either
/// case are read. A text of odd length gives `OddLength`; otherwise the first
/// byte that is no digit gives `InvalidHexCharacter`, with the byte and its
/// place.
pub fn decode(data: &[u8]) -> (r: Result<Vec<u8>, FromHexError>)
    ensures
        match r {
            Ok(bytes) => decode_spec(data@) == Ok::<Seq<u8>, FromHexError>(bytes@),
            Err(e) => decode_spec(data@) == Err::<Seq<u8>, FromHexError>(e),
        },
{
    FromHex::from_hex(data)
}

/// Decodes the hexadecimal text `data` into `out`, which it must fill
/// exactly. A text of odd length gives `OddLength`, one for another number of
/// bytes than `out` holds gives `InvalidStringLength`; both leave `out` as it
/// was. Otherwise the first byte that is no digit gives `InvalidHexCharacter`,
/// and `out` then holds the bytes of the pairs of digits before that pair,
/// followed by what it held.
pub fn decode_to_slice(data: &[u8], out: &mut [u8]) -> (r: Result<(), FromHexError>)
    ensures
        final(out)@.len() == old(out)@.len(),
        match r {
            Ok(()) => decode_fixed_spec(data@, old(out)@.len()) == Ok::<Seq<u8>, FromHexError>(
                final(out)@,
            ),
            Err(e) => decode_fixed_spec(data@, old(out)@.len()) == Err::<Seq<u8>, FromHexError>(e)
                && final(out)@ == partly_decoded(data@, old(out)@, e),
        },
{
    if data.len() % 2 != 0 {
        return Err(FromHexError::OddLength);
    }
    if data.len() / 2 != out.len() {
        return Err(FromHexError::InvalidStringLength);
    }
    let mut i: usize = 0;
    while i < out.len()
        invariant
            data.len() % 2 == 0,
            data.len() / 2 == out.len(),
            out@.len() == old(out)@.len(),
            i <= out@.len(),
            forall|j: int| 0 <= j < 2 * i ==> is_digit(#[trigger] data@[j]),
            forall|j: int| 0 <= j < i ==> out@[j] == pair_value(data@[2 * j], data@[2 * j + 1]),
            forall|j: int| i <= j < out@.len() ==> out@[j] == old(out)@[j],
        decreases out@.len() - i,
    {
        match byte_at(data, i) {
            Ok(byte) => {
                out[i] = byte;
            },
            Err(e) => {
                proof {
                    if is_digit(data@[2 * i]) {
                        lemma_first_invalid(data@, 2 * i + 1);
                    } else {
                        lemma_first_invalid(data@, 2 * i as int);
                    }
                    assert(e->index as int / 2 == i);
                    assert(out@ =~= partly_decoded(data@, old(out)@, e));
                }
                return Err(e);
            },
        }
        assert forall|j: int| 0 <= j < 2 * (i + 1) implies is_digit(#[trigger] data@[j]) by {
            if j >= 2 * i {
                assert(j == 2 * i || j == 2 * i + 1);
            }
        }
        i = i + 1;
    }
    assert(all_digits(data@));
    assert(out@ =~= decoded(data@));
    Ok(())
}

/// What `decode_to_slice` leaves in its output where it fails with `error`:
/// the bytes of the pairs of digits before the pair with the byte that is no
/// digit, then what the output held; all that it held where no byte was
/// looked at.
pub open spec fn partly_decoded(text: Seq<u8>, before: Seq<u8>, error: FromHexError) -> Seq<u8> {
    match error {
        FromHexError::InvalidHexCharacter { c, index } => Seq::new(
            before.len(),
            |j: int|
                if j < index as int / 2 {
                    pair_value(text[2 * j], text[2 * j + 1])
                } else {
                    before[j]
                },
        ),
        _ => before,
    }
}

/// The places in an output of `len` bytes of the two digits of byte `k`.
fn generate_iter(len: usize, k: usize) -> (places: (usize, usize))
    requires
        2 * k + 1 < len,
    ensures
        places.0 == 2 * k,
        places.1 == 2 * k + 1,
{
    (2 * k, 2 * k + 1)
}

/// The two digits of `byte`, those of its high and of its low four bits; the
/// inverse of `val`.
fn byte2hex(byte: u8, table: &[u8; 16]) -> (digits: (u8, u8))
    ensures
        digits.0 == table[byte as int / 16],
        digits.1 == table[byte as int % 16],
{
    proof {
        lemma_high_nibble(byte);
        lemma_low_nibble(byte);
    }
    let high = table[((byte & 0xf0) >> 4) as usize];
    let low = table[(byte & 0x0f) as usize];

    (high, low)
}

/// Writes the lower-case digits of `input` to `output`, which they must fill
/// exactly: where `output` has another length than twice that of `input`, it
/// is left as it was and the error is `InvalidStringLength`.
pub fn encode_to_slice(input: &[u8], output: &mut [u8]) -> (r: Result<(), FromHexError>)
    ensures
        2 * input@.len() == old(output)@.len() ==> r == Ok::<(), FromHexError>(())
            && final(output)@ == hex_digits(HEX_CHARS_LOWER@, input@),
        2 * input@.len() != old(output)@.len() ==> r == Err::<(), FromHexError>(
            FromHexError::InvalidStringLength,
        ) && final(output)@ == old(output)@,
{
    if output.len() % 2 != 0 || output.len() / 2 != input.len() {
        return Err(FromHexError::InvalidStringLength);
    }
    let mut k: usize = 0;
    while k < input.len()
        invariant
            2 * input@.len() == output@.len(),
            k <= input@.len(),
            forall|j: int|
                0 <= j < 2 * k ==> output@[j] == hex_digits(HEX_CHARS_LOWER@, input@)[j],
        decreases input@.len() - k,
    {
        let (i, j) = generate_iter(output.len(), k);
        let (high, low) = byte2hex(input[k], &HEX_CHARS_LOWER);
        output[i] = high;
        output[j] = low;
        k = k + 1;
    }
    assert(output@ =~= hex_digits(HEX_CHARS_LOWER@, input@));
    Ok(())
}

} // verus!
