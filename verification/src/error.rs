//! What can go wrong.
use crate::token::Span;
use vstd::prelude::*;

verus! {

#[derive(Debug, PartialEq, Eq)]
pub enum ParserError {
    /// One thing was expected, and the token at `span` is another.
    UnexpectedToken { expected: String, received: String, span: Span },
    /// No construct can be read at `span`.
    FailedToParse { message: String, span: Span },
    /// A call of a function that does not exist.
    UnknownBuiltIn { name: String, span: Span },
    /// A node that has to be there is missing.
    MemoryFailure,
    /// The tokens ended too early.
    TokenOutOfBounds,
}

pub type ParserResult<T> = Result<T, ParserError>;

impl ParserError {
    /// The two errors say the same.
    pub open spec fn says_the_same(self, other: ParserError) -> bool {
        match self {
            ParserError::UnexpectedToken { expected, received, span } => other.is_unexpected(
                expected@,
                received@,
                span,
            ),
            ParserError::FailedToParse { message, span } => other.is_failure(message@, span),
            ParserError::UnknownBuiltIn { name, span } => other.is_unknown(name@, span),
            _ => other == self,
        }
    }

    /// This is the report of an unexpected token with these contents.
    pub open spec fn is_unexpected(
        self,
        wanted: Seq<char>,
        got: Seq<char>,
        place: Span,
    ) -> bool {
        self matches ParserError::UnexpectedToken { expected, received, span } && expected@
            == wanted && received@ == got && span == place
    }

    /// This is the report of a failure with these contents.
    pub open spec fn is_failure(self, text: Seq<char>, place: Span) -> bool {
        self matches ParserError::FailedToParse { message, span } && message@ == text && span
            == place
    }

    /// This is the report of an unknown function with these contents.
    pub open spec fn is_unknown(self, text: Seq<char>, place: Span) -> bool {
        self matches ParserError::UnknownBuiltIn { name, span } && name@ == text && span == place
    }
}

} // verus!
