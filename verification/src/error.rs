//! The one error type that every fallible operation returns.

use vstd::prelude::*;
use vstd::string::to_string_from_display_ensures;

verus! {

/// What an [`Error`] stands for in contracts.
pub enum Fault {
    /// The input ended before the value was complete.
    Io,
    /// A number does not fit the width it is converted to.
    TryFromInt,
    /// The given bytes were read as a string and are not UTF-8.
    InvalidUtf8(Seq<u8>),
    /// The given index was read where the string table has no entry.
    StrOutOfRange(nat),
    /// A failure reported by the code that describes a type, with its message.
    Custom(Seq<char>),
}

/// Why encoding or decoding stopped. The first error ends the whole call.
#[derive(Debug, PartialEq, Eq)]
pub enum Error {
    /// The input ended before the value was complete.
    Io,
    /// A number does not fit the width it is converted to.
    TryFromInt,
    /// The bytes held here were read as a string and are not UTF-8.
    InvalidUtf8(Vec<u8>),
    /// The index held here was read where the string table has no entry.
    StrOutOfRange(usize),
    /// A failure reported by the code that describes a type, with its message.
    Custom(String),
}

impl View for Error {
    type V = Fault;

    open spec fn view(&self) -> Fault {
        match self {
            Error::Io => Fault::Io,
            Error::TryFromInt => Fault::TryFromInt,
            Error::InvalidUtf8(bytes) => Fault::InvalidUtf8(bytes@),
            Error::StrOutOfRange(index) => Fault::StrOutOfRange(*index as nat),
            Error::Custom(message) => Fault::Custom(message@),
        }
    }
}

impl Error {
    /// The custom error whose message is the text that `s` displays as.
    pub fn custom<S: std::fmt::Display>(s: S) -> (e: Error)
        ensures
            e matches Error::Custom(message) && to_string_from_display_ensures::<S>(&s, message),
    {
        Error::Custom(s.to_string())
    }

    /// The custom error with the given message.
    pub fn message(text: &str) -> (e: Error)
        ensures
            e@ == Fault::Custom(text@),
    {
        Error::Custom(text.to_owned())
    }
}

} // verus!
