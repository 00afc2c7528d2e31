//! The parser and its steps over single tokens.
use crate::arena::alloc_node;
use crate::ast::{Node, NodeRef};
use crate::cursor::Cursor;
use crate::error::{ParserError, ParserResult};
use crate::grammar::{answered, Replies};
use crate::token::{Operator, Token, TokenKind};
use bumpalo::Bump;
use core::marker::PhantomData;
use vstd::prelude::*;

verus! {

/// The flavor of a parser that has not been given one.
#[derive(Debug)]
pub struct BaseParser;

/// The flavor that parses expressions.
#[derive(Debug)]
pub struct Standard;

/// The flavor that parses unary tests.
#[derive(Debug)]
pub struct Unary;

/// A parser: the tokens, the arena for the nodes, and how far parsing has come.
#[derive(Debug)]
pub struct Parser<'arena, 'token_ref, Flavor> {
    tokens: &'token_ref [Token<'arena>],
    bump: &'arena Bump,
    is_done: bool,
    position: usize,
    depth: u8,
    marker_flavor: PhantomData<Flavor>,
    has_range_operator: bool,
}

impl<'arena, 'token_ref, Flavor> View for Parser<'arena, 'token_ref, Flavor> {
    type V = Cursor<'arena>;

    closed spec fn view(&self) -> Cursor<'arena> {
        Cursor {
            tokens: self.tokens@,
            position: self.position as int,
            done: self.is_done,
            depth: self.depth as int,
        }
    }
}

impl<'arena, 'token_ref, Flavor> Clone for Parser<'arena, 'token_ref, Flavor> {
    fn clone(&self) -> (copy: Self)
        ensures
            copy == *self,
    {
        *self
    }
}

impl<'arena, 'token_ref, Flavor> Copy for Parser<'arena, 'token_ref, Flavor> {

}

/// What a function answers as a parser of whole expressions.
pub open spec fn replies<'arena: 'token_ref, 'token_ref, Flavor, F>(
    expression_parser: F,
) -> Replies<'arena> where
    F: Fn(Parser<'arena, 'token_ref, Flavor>) -> (
        ParserResult<NodeRef<'arena>>,
        Parser<'arena, 'token_ref, Flavor>,
    ),
 {
    |before: Cursor<'arena>, reply: ParserResult<NodeRef<'arena>>, after: Cursor<'arena>|
        exists|
            parser: Parser<'arena, 'token_ref, Flavor>,
            moved: Parser<'arena, 'token_ref, Flavor>,
        |
            parser@ == before && moved@ == after && #[trigger] call_ensures(
                expression_parser,
                (parser,),
                (reply, moved),
            )
}

/// A function that can serve as the parser of whole expressions: it answers in every state, and
/// hands back a parser over the same tokens and arena that has not gone back.
pub open spec fn is_expression_parser<'arena: 'token_ref, 'token_ref, Flavor, F>(
    expression_parser: F,
) -> bool where
    F: Fn(Parser<'arena, 'token_ref, Flavor>) -> (
        ParserResult<NodeRef<'arena>>,
        Parser<'arena, 'token_ref, Flavor>,
    ),
 {
    &&& forall|parser: Parser<'arena, 'token_ref, Flavor>|
        parser@.wf() ==> #[trigger] call_requires(expression_parser, (parser,))
    &&& forall|
        parser: Parser<'arena, 'token_ref, Flavor>,
        reply: ParserResult<NodeRef<'arena>>,
        moved: Parser<'arena, 'token_ref, Flavor>,
    |
        parser@.wf() && #[trigger] call_ensures(expression_parser, (parser,), (reply, moved))
            ==> parser@.leads_to(moved@) && moved.arena() == parser.arena()
}

impl<'arena, 'token_ref> Parser<'arena, 'token_ref, BaseParser> {
    /// Makes a parser that stands at the first of the tokens. There has to be one.
    pub fn try_new(tokens: &'token_ref [Token<'arena>], bump: &'arena Bump) -> (made: Result<
        Self,
        ParserError,
    >)
        ensures
            match made {
                Ok(parser) => tokens@.len() > 0 && parser@ == Cursor::start(tokens@)
                    && parser.arena() == bump,
                Err(error) => tokens@.len() == 0 && error is TokenOutOfBounds,
            },
    {
        if tokens.len() == 0 {
            return Err(ParserError::TokenOutOfBounds);
        }
        let mut has_range_operator: bool = false;
        let mut i: usize = 0;
        while i < tokens.len()
            invariant
                i <= tokens@.len(),
                has_range_operator == exists|k: int|
                    0 <= k < i && (#[trigger] tokens@[k]).kind == TokenKind::Operator(
                        Operator::Range,
                    ),
            decreases tokens@.len() - i,
        {
            if tokens[i].kind == TokenKind::Operator(Operator::Range) {
                has_range_operator = true;
                assert(tokens@[i as int].kind == TokenKind::Operator(Operator::Range));
            }
            i = i + 1;
        }
        Ok(
            Parser {
                tokens,
                bump,
                is_done: false,
                position: 0,
                depth: 0,
                marker_flavor: PhantomData,
                has_range_operator,
            },
        )
    }

    /// Gives the parser the standard flavor.
    pub fn standard(self) -> (parser: Parser<'arena, 'token_ref, Standard>)
        ensures
            parser@ == self@,
            parser.arena() == self.arena(),
    {
        self.with_flavor()
    }

    /// Gives the parser the unary flavor.
    pub fn unary(self) -> (parser: Parser<'arena, 'token_ref, Unary>)
        ensures
            parser@ == self@,
            parser.arena() == self.arena(),
    {
        self.with_flavor()
    }
}

impl<'arena, 'token_ref, Flavor> Parser<'arena, 'token_ref, Flavor> {
    /// The arena that the nodes of this parser go to.
    pub closed spec fn arena(self) -> &'arena Bump {
        self.bump
    }

    #[verifier::type_invariant]
    spec fn inv(self) -> bool {
        &&& self@.wf()
        &&& self.has_range_operator == self@.ranged()
    }

    fn with_flavor<Other>(self) -> (parser: Parser<'arena, 'token_ref, Other>)
        ensures
            parser@ == self@,
            parser.arena() == self.arena(),
    {
        proof {
            use_type_invariant(&self);
        }
        Parser {
            tokens: self.tokens,
            bump: self.bump,
            is_done: self.is_done,
            position: self.position,
            depth: self.depth,
            marker_flavor: PhantomData,
            has_range_operator: self.has_range_operator,
        }
    }

    /// Returns the token that the parser looks at.
    pub fn current(&self) -> (token: &'token_ref Token<'arena>)
        ensures
            *token == self@.current(),
            self@.wf(),
    {
        proof {
            use_type_invariant(self);
        }
        if self.position < self.tokens.len() {
            &self.tokens[self.position]
        } else {
            &self.tokens[self.tokens.len() - 1]
        }
    }

    /// Returns the index of the current token, or one behind the last token once that has been
    /// passed.
    pub fn position(&self) -> (position: usize)
        ensures
            position == self@.position,
    {
        self.position
    }

    /// Goes to another token. Whether the last token has been passed before is not forgotten.
    pub fn set_position(&mut self, position: usize) -> (moved: ParserResult<()>)
        ensures
            match moved {
                Ok(_) => position < old(self)@.tokens.len() && final(self)@ == old(
                    self,
                )@.moved_to(position as int),
                Err(error) => position >= old(self)@.tokens.len() && error is TokenOutOfBounds
                    && final(self)@ == old(self)@,
            },
            final(self)@.wf(),
            final(self).arena() == old(self).arena(),
    {
        proof {
            use_type_invariant(&*self);
        }
        if position >= self.tokens.len() {
            return Err(ParserError::TokenOutOfBounds);
        }
        self.position = position;
        Ok(())
    }

    /// Returns the number of closures around the current token.
    pub fn depth(&self) -> (depth: u8)
        ensures
            depth == self@.depth,
    {
        self.depth
    }

    /// Tells whether the last token has been passed.
    pub fn is_done(&self) -> (done: bool)
        ensures
            done == self@.done,
    {
        self.is_done
    }

    /// Passes the current token. The last token can be passed once. The position goes up in any
    /// case.
    pub fn next(&mut self) -> (passed: ParserResult<()>)
        ensures
            final(self)@ == old(self)@.advance(),
            match passed {
                Ok(_) => old(self)@.can_advance(),
                Err(error) => !old(self)@.can_advance() && error is TokenOutOfBounds,
            },
            final(self)@.wf(),
            final(self).arena() == old(self).arena(),
    {
        proof {
            use_type_invariant(&*self);
        }
        let position: usize = self.position.saturating_add(1);
        if position < self.tokens.len() {
            self.position = position;
            return Ok(());
        }
        let was_done = self.is_done;
        self.is_done = true;
        self.position = position;
        if was_done {
            Err(ParserError::TokenOutOfBounds)
        } else {
            Ok(())
        }
    }

    /// Passes the current token, which has to be of the given kind.
    pub fn expect(&mut self, kind: TokenKind) -> (passed: Result<(), ParserError>)
        ensures
            match passed {
                Ok(_) => old(self)@.takes(kind) && final(self)@ == old(self)@.advance(),
                Err(error) => old(self)@.refuses(kind, error, final(self)@),
            },
            final(self)@.wf(),
            final(self).arena() == old(self).arena(),
    {
        let token = *self.current();
        if token.kind != kind {
            return Err(
                ParserError::UnexpectedToken {
                    expected: kind.to_string(),
                    received: token.kind.to_string(),
                    span: token.span,
                },
            );
        }
        self.next()
    }

    /// Returns the arena that the nodes go to.
    pub(crate) fn bump(&self) -> (bump: &'arena Bump)
        ensures
            bump == self.arena(),
    {
        self.bump
    }

    /// Tells whether the tokens hold a range operator.
    pub(crate) fn has_range_operator(&self) -> (ranged: bool)
        ensures
            ranged == self@.ranged(),
    {
        proof {
            use_type_invariant(self);
        }
        self.has_range_operator
    }

    /// Lets the parser of whole expressions go on from here.
    pub(crate) fn ask<F>(&mut self, expression_parser: &F) -> (reply: ParserResult<
        NodeRef<'arena>,
    >) where F: Fn(Self) -> (ParserResult<NodeRef<'arena>>, Self)
        requires
            is_expression_parser(*expression_parser),
        ensures
            answered(replies(*expression_parser), old(self)@, reply, final(self)@),
            final(self).arena() == old(self).arena(),
    {
        proof {
            use_type_invariant(&*self);
        }
        let (reply, moved) = expression_parser(*self);
        assert(call_ensures(*expression_parser, (*self,), (reply, moved)));
        *self = moved;
        reply
    }

    /// Goes into a closure.
    pub(crate) fn enter(&mut self)
        requires
            old(self)@.depth < u8::MAX,
        ensures
            final(self)@ == old(self)@.entered(),
            old(self)@.wf(),
            final(self)@.wf(),
            final(self).arena() == old(self).arena(),
    {
        proof {
            use_type_invariant(&*self);
        }
        self.depth = self.depth + 1;
    }

    /// Comes out of a closure.
    pub(crate) fn leave(&mut self)
        requires
            old(self)@.depth > 0,
        ensures
            final(self)@ == old(self)@.left(),
            final(self)@.wf(),
            final(self).arena() == old(self).arena(),
    {
        proof {
            use_type_invariant(&*self);
        }
        self.depth = self.depth - 1;
    }

    /// Puts a node into the arena.
    pub fn node(&self, node: Node<'arena>) -> (place: NodeRef<'arena>)
        ensures
            *place == node,
    {
        alloc_node(self.bump, node)
    }
}

} // verus!
