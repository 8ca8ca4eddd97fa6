//! Decoder for GRIB edition 2 messages: a section walker, the records of the
//! supported templates, and the unpackers of the bit-packed data sections.
//!
//! Every function works on bytes already in memory. Contracts are stated over
//! the byte sequence a [`bytes::ByteReader`] was made from and its position.

use vstd::prelude::*;

pub mod bits;
pub mod bytes;
pub mod message;
pub mod reader;
pub mod templates;

pub use reader::MessageReader;

verus! {

/// The `std::io::Error` that the byte-order and bit-stream readers hand back.
/// Nothing inside it is visible to the contracts of this library.
#[verifier::external_type_specification]
#[verifier::external_body]
pub struct ExIoError(std::io::Error);

/// Why decoding stopped.
#[derive(Debug)]
pub enum Error {
    /// The bytes ended before a value was complete, or the bit reader
    /// refused a width.
    IO(std::io::Error),
    /// A field that was read breaks the format.
    InvalidData(String),
    /// A well-formed field asks for something outside the implemented subset.
    UnsupportedData(String),
}

/// An [`Error`] as the contracts speak of it: its kind, and the words of an
/// error that has words of its own.
pub enum Failure {
    Io,
    InvalidData(Seq<char>),
    Unsupported(Seq<char>),
}

impl Error {
    /// The kind of the error and what it says.
    pub open spec fn failure(self) -> Failure {
        match self {
            Error::IO(_) => Failure::Io,
            Error::InvalidData(said) => Failure::InvalidData(said@),
            Error::UnsupportedData(said) => Failure::Unsupported(said@),
        }
    }
}

/// The decimal digit for a number below ten.
pub open spec fn digit(d: nat) -> char {
    if d == 0 {
        '0'
    } else if d == 1 {
        '1'
    } else if d == 2 {
        '2'
    } else if d == 3 {
        '3'
    } else if d == 4 {
        '4'
    } else if d == 5 {
        '5'
    } else if d == 6 {
        '6'
    } else if d == 7 {
        '7'
    } else if d == 8 {
        '8'
    } else {
        '9'
    }
}

/// A number in decimal digits, without leading zeros.
pub open spec fn decimal(n: nat) -> Seq<char>
    decreases n,
{
    if n < 10 {
        seq![digit(n)]
    } else {
        decimal(n / 10).push(digit(n % 10))
    }
}

/// The digit for `d` as text.
fn digit_text(d: u8) -> (text: &'static str)
    requires
        d < 10,
    ensures
        text@ == seq![digit(d as nat)],
{
    proof {
        reveal_strlit("0");
        reveal_strlit("1");
        reveal_strlit("2");
        reveal_strlit("3");
        reveal_strlit("4");
        reveal_strlit("5");
        reveal_strlit("6");
        reveal_strlit("7");
        reveal_strlit("8");
        reveal_strlit("9");
    }
    let text = if d == 0 {
        "0"
    } else if d == 1 {
        "1"
    } else if d == 2 {
        "2"
    } else if d == 3 {
        "3"
    } else if d == 4 {
        "4"
    } else if d == 5 {
        "5"
    } else if d == 6 {
        "6"
    } else if d == 7 {
        "7"
    } else if d == 8 {
        "8"
    } else {
        "9"
    };
    text
}

/// The number as text, in decimal digits.
pub(crate) fn decimal_text(n: u8) -> (text: String)
    ensures
        text@ == decimal(n as nat),
    decreases n,
{
    if n < 10 {
        String::from_str(digit_text(n))
    } else {
        let text = decimal_text(n / 10).concat(digit_text(n % 10));
        text
    }
}

impl Error {
    /// The error in words: what kind it is, then what it says.
    pub fn message(&self) -> (text: String)
        ensures
            match *self {
                Error::IO(_) => text@.len() >= "IO: "@.len() && text@.take("IO: "@.len() as int)
                    == "IO: "@,
                Error::InvalidData(said) => text@ == "Invalid format: "@ + said@,
                Error::UnsupportedData(said) => text@ == "Unsupported: "@ + said@,
            },
    {
        match self {
            Error::IO(e) => {
                let said = e.to_string();
                let text = String::from_str("IO: ").concat(said.as_str());
                text
            },
            Error::InvalidData(said) => String::from_str("Invalid format: ").concat(said.as_str()),
            Error::UnsupportedData(said) => String::from_str("Unsupported: ").concat(said.as_str()),
        }
    }
}

/// An error for data that breaks the format, with the given text.
pub(crate) fn invalid_data(text: &str) -> (e: Error)
    ensures
        e.failure() == Failure::InvalidData(text@),
{
    Error::InvalidData(String::from_str(text))
}

/// An error for data outside the implemented subset, with the given text.
pub(crate) fn unsupported(text: &str) -> (e: Error)
    ensures
        e.failure() == Failure::Unsupported(text@),
{
    Error::UnsupportedData(String::from_str(text))
}

} // verus!
