//! The ways in which a URL or a response can be refused.

use vstd::prelude::*;

verus! {

/// Why a text was refused. Each kind carries the piece of the input that it
/// objects to, where there is one.
#[derive(Debug, PartialEq, Eq)]
pub enum ValidationError {
    /// The URL does not hold `http://`; `url` is the whole text.
    UnsupportedScheme { url: String },
    /// The status line lacks its version or its status code; `line` is the
    /// status line.
    MalformedStatusLine { line: String },
    /// The status code is no decimal number from 100 to 599; `token` is what
    /// stood in its place.
    InvalidStatusCode { token: String },
    /// A line of the header block holds no `:`; `line` is that line.
    MalformedHeader { line: String },
    /// The header block is not closed by a blank line.
    MissingBodySeparator,
    /// The bytes of the response are not UTF-8.
    InvalidEncoding,
}

/// A `ValidationError` with each string seen as its characters.
pub enum Refusal {
    UnsupportedScheme { url: Seq<char> },
    MalformedStatusLine { line: Seq<char> },
    InvalidStatusCode { token: Seq<char> },
    MalformedHeader { line: Seq<char> },
    MissingBodySeparator,
    InvalidEncoding,
}

impl View for ValidationError {
    type V = Refusal;

    open spec fn view(&self) -> Refusal {
        match self {
            ValidationError::UnsupportedScheme { url } => Refusal::UnsupportedScheme { url: url@ },
            ValidationError::MalformedStatusLine { line } => Refusal::MalformedStatusLine {
                line: line@,
            },
            ValidationError::InvalidStatusCode { token } => Refusal::InvalidStatusCode {
                token: token@,
            },
            ValidationError::MalformedHeader { line } => Refusal::MalformedHeader { line: line@ },
            ValidationError::MissingBodySeparator => Refusal::MissingBodySeparator,
            ValidationError::InvalidEncoding => Refusal::InvalidEncoding,
        }
    }
}

impl Clone for ValidationError {
    fn clone(&self) -> (copy: ValidationError)
        ensures
            copy@ == self@,
    {
        match self {
            ValidationError::UnsupportedScheme { url } => ValidationError::UnsupportedScheme {
                url: url.clone(),
            },
            ValidationError::MalformedStatusLine { line } => ValidationError::MalformedStatusLine {
                line: line.clone(),
            },
            ValidationError::InvalidStatusCode { token } => ValidationError::InvalidStatusCode {
                token: token.clone(),
            },
            ValidationError::MalformedHeader { line } => ValidationError::MalformedHeader {
                line: line.clone(),
            },
            ValidationError::MissingBodySeparator => ValidationError::MissingBodySeparator,
            ValidationError::InvalidEncoding => ValidationError::InvalidEncoding,
        }
    }
}

} // verus!
