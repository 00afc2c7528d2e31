//! Member accesses, indices and slices.
use crate::ast::{Node, NodeRef};
use crate::error::{ParserError, ParserResult};
use crate::grammar::{postfix_run, slice_end_run, subscript_run, valid_property};
use crate::parser::{is_expression_parser, replies, Parser};
use crate::progress::subscript_never_goes_back;
use crate::token::{Bracket, ComparisonOperator, Operator, Token, TokenKind};
use vstd::prelude::*;

verus! {

/// What a token that stands behind a node starts.
#[derive(Debug, PartialEq, Eq, Structural)]
pub enum PostfixKind {
    MemberAccess,
    PropertyAccess,
    Other,
}

impl PostfixKind {
    /// What a token of the given kind starts behind a node.
    pub open spec fn of(kind: TokenKind) -> PostfixKind {
        match kind {
            TokenKind::Bracket(Bracket::LeftSquareBracket) => PostfixKind::PropertyAccess,
            TokenKind::Operator(Operator::Dot) => PostfixKind::MemberAccess,
            _ => PostfixKind::Other,
        }
    }
}

impl<'token> From<&Token<'token>> for PostfixKind {
    fn from(token: &Token<'token>) -> (kind: Self) {
        match &token.kind {
            TokenKind::Bracket(Bracket::LeftSquareBracket) => PostfixKind::PropertyAccess,
            TokenKind::Operator(Operator::Dot) => PostfixKind::MemberAccess,
            _ => PostfixKind::Other,
        }
    }
}

impl<'token> vstd::std_specs::convert::FromSpecImpl<&Token<'token>> for PostfixKind {
    open spec fn obeys_from_spec() -> bool {
        true
    }

    open spec fn from_spec(token: &Token<'token>) -> PostfixKind {
        PostfixKind::of(token.kind)
    }
}

/// Tells whether a token may stand behind a dot.
pub fn is_valid_property(token: &Token) -> (valid: bool)
    ensures
        valid == valid_property(token.kind),
{
    match &token.kind {
        TokenKind::Identifier(_) => true,
        TokenKind::Literal => true,
        TokenKind::Operator(operator) => match operator {
            Operator::Logical(_) => true,
            Operator::Comparison(comparison) => matches!(comparison, ComparisonOperator::In),
            _ => false,
        },
        _ => false,
    }
}

impl<'arena, 'token_ref, Flavor> Parser<'arena, 'token_ref, Flavor> {
    /// Reads the rest of a slice behind its colon.
    fn slice_end<F>(
        &mut self,
        node: NodeRef<'arena>,
        from: Option<NodeRef<'arena>>,
        expression_parser: &F,
    ) -> (result: ParserResult<NodeRef<'arena>>) where
        F: Fn(Self) -> (ParserResult<NodeRef<'arena>>, Self),

        requires
            is_expression_parser(*expression_parser),
        ensures
            slice_end_run(
                replies(*expression_parser),
                node,
                from,
                old(self)@,
                result,
                final(self)@,
            ),
            final(self).arena() == old(self).arena(),
    {
        let end = TokenKind::Bracket(Bracket::RightSquareBracket);
        let mut to: Option<NodeRef<'arena>> = None;
        if self.current().kind != end {
            to = Some(self.ask(expression_parser)?);
        }
        self.expect(end)?;
        Ok(self.node(Node::Slice { node, from, to }))
    }

    /// Reads what stands in square brackets behind a node.
    fn subscript<F>(&mut self, node: NodeRef<'arena>, expression_parser: &F) -> (result:
        ParserResult<NodeRef<'arena>>) where
        F: Fn(Self) -> (ParserResult<NodeRef<'arena>>, Self),

        requires
            is_expression_parser(*expression_parser),
        ensures
            subscript_run(replies(*expression_parser), node, old(self)@, result, final(self)@),
            final(self).arena() == old(self).arena(),
    {
        let colon = TokenKind::Operator(Operator::Slice);
        if self.current().kind == colon {
            self.next()?;
            return self.slice_end(node, None, expression_parser);
        }
        let from = self.ask(expression_parser)?;
        if self.current().kind == colon {
            self.next()?;
            return self.slice_end(node, Some(from), expression_parser);
        }
        self.expect(TokenKind::Bracket(Bracket::RightSquareBracket))?;
        Ok(self.node(Node::Member { node, property: from }))
    }

    /// Reads all the member accesses, indices and slices behind a node.
    pub fn with_postfix<F>(&mut self, node: NodeRef<'arena>, expression_parser: &F) -> (result:
        ParserResult<NodeRef<'arena>>) where
        F: Fn(Self) -> (ParserResult<NodeRef<'arena>>, Self),

        requires
            is_expression_parser(*expression_parser),
        ensures
            postfix_run(replies(*expression_parser), node, old(self)@, result, final(self)@),
            final(self).arena() == old(self).arena(),
        decreases old(self)@.remaining(),
    {
        let ghost ask = replies(*expression_parser);
        let postfix_token = *self.current();
        let processed_token: NodeRef<'arena> = match PostfixKind::from(&postfix_token) {
            PostfixKind::Other => return Ok(node),
            PostfixKind::MemberAccess => {
                self.next()?;
                let property_token = *self.current();
                self.next()?;
                if !is_valid_property(&property_token) {
                    return Err(
                        ParserError::UnexpectedToken {
                            expected: "valid property".to_string(),
                            received: postfix_token.kind.to_string(),
                            span: postfix_token.span,
                        },
                    );
                }
                let property = self.node(Node::String(property_token.value));
                self.node(Node::Member { node, property })
            },
            PostfixKind::PropertyAccess => {
                self.next()?;
                let ghost inside = self@;
                let accessed = self.subscript(node, expression_parser);
                proof {
                    subscript_never_goes_back(ask, node, inside, accessed, self@);
                }
                accessed?
            },
        };
        self.with_postfix(processed_token, expression_parser)
    }
}

} // verus!
