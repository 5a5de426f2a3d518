//! Heuristic extraction of calendar fields from loosely formatted date and
//! time text, and composition of those fields into a resolved instant.

use vstd::prelude::*;
use vstd::string::*;

pub mod date_parser;

pub use date_parser::instant::Instant;
pub use date_parser::record::DateTime;
pub use date_parser::time::parse;
pub use date_parser::time::parse_with_custom_time_and_year;

verus! {

/// Why no instant could be made of a text.
#[derive(Debug)]
pub enum ParseError {
    /// The text, which is given, holds neither a date nor a time.
    MissingTimeInformationError(String),
    /// The field named first has the value given second, which is outside
    /// its range.
    OutOfRangeError(String, String),
    /// The fields do not make a date that can be represented.
    DateError(),
    /// A failure inside the library, with its description.
    InternalError(String),
    /// The offset from UTC is a day or more.
    OffsetOutOfBounds,
}

/// The mathematical value of a [`ParseError`]: the same cases, with texts as
/// sequences of characters.
pub enum Failure {
    MissingTimeInformation(Seq<char>),
    OutOfRange(Seq<char>, Seq<char>),
    Date,
    Internal(Seq<char>),
    OffsetOutOfBounds,
}

impl View for ParseError {
    type V = Failure;

    open spec fn view(&self) -> Failure {
        match self {
            ParseError::MissingTimeInformationError(text) => Failure::MissingTimeInformation(
                text@,
            ),
            ParseError::OutOfRangeError(field, value) => Failure::OutOfRange(field@, value@),
            ParseError::DateError() => Failure::Date,
            ParseError::InternalError(what) => Failure::Internal(what@),
            ParseError::OffsetOutOfBounds => Failure::OffsetOutOfBounds,
        }
    }
}

/// The message of a failure.
pub open spec fn message_of(f: Failure) -> Seq<char> {
    match f {
        Failure::MissingTimeInformation(text) => "no time information in "@ + text,
        Failure::OutOfRange(field, value) => field + " value "@ + value + " out of range"@,
        Failure::Date => "Error creating date"@,
        Failure::Internal(what) => "internal error: "@ + what,
        Failure::OffsetOutOfBounds => "offset out of bounds"@,
    }
}

impl ParseError {
    /// The message of this failure, for a reader.
    pub fn message(&self) -> (r: String)
        ensures
            r@ == message_of(self@),
    {
        match self {
            ParseError::MissingTimeInformationError(text) => {
                let mut out = String::from_str("no time information in ");
                out.append(text.as_str());
                out
            },
            ParseError::OutOfRangeError(field, value) => {
                let mut out = String::from_str(field.as_str());
                out.append(" value ");
                out.append(value.as_str());
                out.append(" out of range");
                out
            },
            ParseError::DateError() => String::from_str("Error creating date"),
            ParseError::InternalError(what) => {
                let mut out = String::from_str("internal error: ");
                out.append(what.as_str());
                out
            },
            ParseError::OffsetOutOfBounds => String::from_str("offset out of bounds"),
        }
    }
}

} // verus!
