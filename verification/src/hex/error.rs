//! The errors of decoding, and their text.
use vstd::prelude::*;
use vstd::string::StringExecFns;

verus! {

/// Why a text could not be decoded.
#[derive(Debug, Clone, Copy, PartialEq)]
pub enum FromHexError {
    /// A byte that is no hexadecimal digit: the byte, as a character, and its
    /// place in the text.
    InvalidHexCharacter { c: char, index: usize },
    /// The text has an odd number of digits, so they do not pair up into bytes.
    OddLength,
    /// The text stands for another number of bytes than the output holds.
    InvalidStringLength,
}

/// The text that `char`'s `Debug` writes for `c`: the character between
/// single quotes, escaped where it would not show.
pub uninterp spec fn char_debug(c: char) -> Seq<char>;

/// `format!` of a `char` with `{:?}`: the text that `char`'s `Debug` writes.
#[verifier::external_body]
fn debug_char(c: char) -> (text: String)
    ensures
        text@ == char_debug(c),
{
    format!("{:?}", c)
}

/// The decimal digits of `n`, without leading zeros.
pub open spec fn decimal(n: nat) -> Seq<char>
    decreases n,
{
    if n < 10 {
        seq![(0x30 + n) as char]
    } else {
        decimal(n / 10).push((0x30 + n % 10) as char)
    }
}

/// The text of the error for a byte that is no digit; `quoted` is the byte as
/// a character in its quoted form.
pub open spec fn invalid_character_message(quoted: Seq<char>, index: usize) -> Seq<char> {
    "Invalid character "@ + quoted + " at position "@ + decimal(index as nat)
}

/// Appends the decimal digits of `n` to `text`.
fn push_decimal(text: &mut String, n: usize)
    ensures
        final(text)@ == old(text)@ + decimal(n as nat),
    decreases n,
{
    if n >= 10 {
        push_decimal(text, n / 10);
    }
    let digit: u8 = (n % 10) as u8;
    text.push((0x30u8 + digit) as char);
}

/// The text of the error for a byte that is no digit, from the byte as a
/// character in its quoted form and its place.
pub fn describe_invalid_character(quoted: &str, index: usize) -> (text: String)
    ensures
        text@ == invalid_character_message(quoted@, index),
{
    let mut text = String::from_str("Invalid character ");
    text.append(quoted);
    text.append(" at position ");
    push_decimal(&mut text, index);
    text
}

impl FromHexError {
    /// The text of the error.
    pub open spec fn message(self) -> Seq<char> {
        match self {
            FromHexError::InvalidHexCharacter { c, index } => invalid_character_message(
                char_debug(c),
                index,
            ),
            FromHexError::OddLength => "Odd number of digits"@,
            FromHexError::InvalidStringLength => "Invalid string length"@,
        }
    }

    /// The text of the error.
    pub fn to_string(&self) -> (text: String)
        ensures
            text@ == self.message(),
    {
        match *self {
            FromHexError::InvalidHexCharacter { c, index } => {
                let quoted = debug_char(c);
                describe_invalid_character(quoted.as_str(), index)
            },
            FromHexError::OddLength => String::from_str("Odd number of digits"),
            FromHexError::InvalidStringLength => String::from_str("Invalid string length"),
        }
    }
}

} // verus!
