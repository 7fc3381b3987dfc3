//! Error values reported by the tokenizer and the parser.

use vstd::prelude::*;

verus! {

/// The kind of an error. `NoError` stands for "no error": functions that
/// report errors by value return it on success.
#[derive(Clone, Copy, Debug, PartialEq, Eq, Structural)]
pub enum ErrorType {
    NoError,
    Arguments,
    Type,
    Generic,
    Syntax,
    Todo,
}

/// An error value: a kind together with optional message text. The text,
/// when present, holds the bytes the error is about (the token that failed
/// to lex or to resolve).
#[derive(Debug)]
pub struct Error {
    pub kind: ErrorType,
    pub msg: Option<Vec<u8>>,
}

/// Mathematical model of an error value.
#[verifier::ext_equal]
pub struct ErrorV {
    pub kind: ErrorType,
    pub msg: Option<Seq<u8>>,
}

impl View for Error {
    type V = ErrorV;

    open spec fn view(&self) -> ErrorV {
        ErrorV {
            kind: self.kind,
            msg: match self.msg {
                Some(m) => Some(m@),
                None => None,
            },
        }
    }
}

/// The model of the "no error" value.
pub open spec fn no_error_v() -> ErrorV {
    ErrorV { kind: ErrorType::NoError, msg: None }
}

impl Error {
    /// The distinguished "no error" value.
    pub fn none() -> (e: Error)
        ensures
            e.kind == ErrorType::NoError,
            e.msg is None,
            e@ == no_error_v(),
    {
        Error { kind: ErrorType::NoError, msg: None }
    }
}

} // verus!
