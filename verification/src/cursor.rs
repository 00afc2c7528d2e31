//! The parser's state in mathematical terms.
use crate::error::ParserError;
use crate::token::{Operator, Span, Token, TokenKind};
use vstd::prelude::*;

verus! {

/// The state of a parser: the tokens, and how far it has come.
pub struct Cursor<'arena> {
    pub tokens: Seq<Token<'arena>>,
    /// The index of the current token, or an index behind the last token once that has been
    /// passed. Every attempt to pass a token counts, also one that fails at the end.
    pub position: int,
    /// The last token has been passed at some time.
    pub done: bool,
    /// The number of closures around the current token.
    pub depth: int,
}

impl<'arena> Cursor<'arena> {
    /// A state that a parser can be in.
    pub open spec fn wf(self) -> bool {
        &&& 0 < self.tokens.len() <= usize::MAX
        &&& 0 <= self.position <= usize::MAX
        &&& self.position >= self.tokens.len() ==> self.done
        &&& 0 <= self.depth <= u8::MAX
    }

    /// The state in which parsing starts.
    pub open spec fn start(tokens: Seq<Token<'arena>>) -> Self {
        Cursor { tokens, position: 0, done: false, depth: 0 }
    }

    /// The token that the parser looks at. The last token stays in view when it has been passed.
    pub open spec fn current(self) -> Token<'arena> {
        if self.position < self.tokens.len() {
            self.tokens[self.position]
        } else {
            self.tokens.last()
        }
    }

    pub open spec fn kind(self) -> TokenKind {
        self.current().kind
    }

    pub open spec fn span(self) -> Span {
        self.current().span
    }

    /// The text of the current token.
    pub open spec fn value(self) -> &'arena str {
        self.current().value
    }

    /// The number of tokens that have not been passed.
    pub open spec fn remaining(self) -> nat {
        if self.position < self.tokens.len() {
            (self.tokens.len() - self.position) as nat
        } else {
            0
        }
    }

    /// The current token may be passed: the last one only once.
    pub open spec fn can_advance(self) -> bool {
        self.position + 1 < self.tokens.len() || !self.done
    }

    /// The next position. The largest that a machine word holds has none behind it.
    pub open spec fn next_position(self) -> int {
        if self.position < usize::MAX {
            self.position + 1
        } else {
            self.position
        }
    }

    /// The state after an attempt to pass the current token.
    pub open spec fn advance(self) -> Self {
        Cursor {
            position: self.next_position(),
            done: self.done || self.position + 1 >= self.tokens.len(),
            ..self
        }
    }

    /// The current token is of this kind and may be passed.
    pub open spec fn takes(self, kind: TokenKind) -> bool {
        self.kind() == kind && self.can_advance()
    }

    /// Where a token of this kind has to be passed and cannot be: the error, and the state.
    pub open spec fn refuses(self, kind: TokenKind, error: ParserError, after: Self) -> bool {
        if self.kind() != kind {
            after == self && error.is_unexpected(kind.name(), self.kind().name(), self.span())
        } else {
            !self.can_advance() && after == self.advance() && error is TokenOutOfBounds
        }
    }

    /// The state at another token, with nothing else changed.
    pub open spec fn moved_to(self, position: int) -> Self {
        Cursor { position, ..self }
    }

    /// The state inside one closure more.
    pub open spec fn entered(self) -> Self {
        Cursor { depth: self.depth + 1, ..self }
    }

    /// The state inside one closure less.
    pub open spec fn left(self) -> Self {
        Cursor { depth: self.depth - 1, ..self }
    }

    /// The tokens hold a range operator.
    pub open spec fn ranged(self) -> bool {
        exists|i: int|
            0 <= i < self.tokens.len() && (#[trigger] self.tokens[i]).kind == TokenKind::Operator(
                Operator::Range,
            )
    }

    /// Parsing can go from this state to the other: over the same tokens and never back.
    pub open spec fn leads_to(self, other: Self) -> bool {
        &&& other.wf()
        &&& other.tokens == self.tokens
        &&& self.position <= other.position
        &&& self.depth <= other.depth
        &&& self.done ==> other.done
    }
}

} // verus!
