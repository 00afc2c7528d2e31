//! Intervals, conditionals, and the choice between all the constructs.
use crate::ast::{Node, NodeRef};
use crate::cursor::Cursor;
use crate::decimal::{decimal_from_str_exact, exact_decimal};
use crate::error::{ParserError, ParserResult};
use crate::grammar::{
    can_nest, conditional_run, gives, interval_end_run, interval_run, literal_run,
};
use crate::parser::{is_expression_parser, replies, Parser};
use crate::token::{Bracket, Identifier, Operator, QuotationMark, Span, TokenKind};
use rust_decimal::Decimal;
use vstd::prelude::*;

verus! {

/// Turns the lack of a construct into an error.
fn or_failed<'arena>(node: Option<NodeRef<'arena>>, message: &str, span: Span) -> (result:
    ParserResult<NodeRef<'arena>>)
    ensures
        match node {
            Some(node) => gives(result, node),
            None => result matches Err(error) && error.is_failure(message@, span),
        },
{
    match node {
        Some(node) => Ok(node),
        None => Err(ParserError::FailedToParse { message: message.to_string(), span }),
    }
}

impl<'arena, 'token_ref, Flavor> Parser<'arena, 'token_ref, Flavor> {
    /// Reads the right half of an interval that started at the token with the given text and
    /// position.
    fn interval_end<F>(
        &mut self,
        Ghost(start): Ghost<Cursor<'arena>>,
        initial_position: usize,
        left_bracket: &'arena str,
        left: NodeRef<'arena>,
        expression_parser: &F,
    ) -> (result: ParserResult<Option<NodeRef<'arena>>>) where
        F: Fn(Self) -> (ParserResult<NodeRef<'arena>>, Self),

        requires
            is_expression_parser(*expression_parser),
            initial_position == start.position,
            start.position < start.tokens.len(),
            start.leads_to(old(self)@),
            left_bracket == start.value(),
        ensures
            interval_end_run(
                replies(*expression_parser),
                start,
                left,
                old(self)@,
                result,
                final(self)@,
            ),
            final(self).arena() == old(self).arena(),
    {
        let right = match self.ask(expression_parser) {
            Ok(right) => right,
            Err(_) => {
                self.set_position(initial_position)?;
                return Ok(None);
            },
        };
        let right_bracket = *self.current();
        match right_bracket.kind {
            TokenKind::Bracket(_) => {},
            _ => {
                self.set_position(initial_position)?;
                return Ok(None);
            },
        }
        self.next()?;
        let interval_node = self.node(
            Node::Interval { left_bracket, left, right, right_bracket: right_bracket.value },
        );
        let node = self.with_postfix(interval_node, expression_parser)?;
        Ok(Some(node))
    }

    /// Reads an interval, with what stands behind it, if it is there.
    pub fn interval<F>(&mut self, expression_parser: &F) -> (result: ParserResult<
        Option<NodeRef<'arena>>,
    >) where F: Fn(Self) -> (ParserResult<NodeRef<'arena>>, Self)
        requires
            is_expression_parser(*expression_parser),
        ensures
            interval_run(replies(*expression_parser), old(self)@, result, final(self)@),
            final(self).arena() == old(self).arena(),
    {
        let ghost start = self@;
        let left_bracket = *self.current();
        // Without a range operator there is no interval to look for.
        if !self.has_range_operator() {
            return Ok(None);
        }
        match left_bracket.kind {
            TokenKind::Bracket(_) => {},
            _ => return Ok(None),
        }
        let initial_position = self.position();
        self.next()?;
        let left = match self.ask(expression_parser) {
            Ok(left) => left,
            Err(_) => {
                self.set_position(initial_position)?;
                return Ok(None);
            },
        };
        match self.expect(TokenKind::Operator(Operator::Range)) {
            Ok(_) => {},
            Err(_) => {
                self.set_position(initial_position)?;
                return Ok(None);
            },
        }
        self.interval_end(
            Ghost(start),
            initial_position,
            left_bracket.value,
            left,
            expression_parser,
        )
    }

    /// Reads the branches of a conditional behind its condition, if they are there.
    pub fn conditional<F>(&mut self, condition: NodeRef<'arena>, expression_parser: &F) -> (result:
        ParserResult<Option<NodeRef<'arena>>>) where
        F: Fn(Self) -> (ParserResult<NodeRef<'arena>>, Self),

        requires
            is_expression_parser(*expression_parser),
        ensures
            conditional_run(
                replies(*expression_parser),
                condition,
                old(self)@,
                result,
                final(self)@,
            ),
            final(self).arena() == old(self).arena(),
    {
        if self.current().kind != TokenKind::Operator(Operator::QuestionMark) {
            return Ok(None);
        }
        self.next()?;
        let on_true = self.ask(expression_parser)?;
        self.expect(TokenKind::Operator(Operator::Slice))?;
        let on_false = self.ask(expression_parser)?;
        Ok(Some(self.node(Node::Conditional { condition, on_true, on_false })))
    }

    /// Reads whatever can start with the current token: a number, a string, an array and so on.
    pub fn literal<F>(&mut self, expression_parser: &F) -> (result: ParserResult<
        NodeRef<'arena>,
    >) where F: Fn(Self) -> (ParserResult<NodeRef<'arena>>, Self)
        requires
            is_expression_parser(*expression_parser),
            can_nest(replies(*expression_parser), old(self)@),
        ensures
            literal_run(
                replies(*expression_parser),
                exact_decimal(old(self)@.value()@),
                old(self)@,
                result,
                final(self)@,
            ),
            final(self).arena() == old(self).arena(),
    {
        let current_token = *self.current();
        let parsed = match current_token.kind {
            TokenKind::Number => decimal_from_str_exact(current_token.value),
            _ => None,
        };
        self.literal_from(parsed, expression_parser)
    }

    /// Reads whatever can start with the current token. If that token is a number, its value is
    /// `parsed`.
    pub fn literal_from<F>(&mut self, parsed: Option<Decimal>, expression_parser: &F) -> (result:
        ParserResult<NodeRef<'arena>>) where
        F: Fn(Self) -> (ParserResult<NodeRef<'arena>>, Self),

        requires
            is_expression_parser(*expression_parser),
            can_nest(replies(*expression_parser), old(self)@),
        ensures
            literal_run(
                replies(*expression_parser),
                parsed,
                old(self)@,
                result,
                final(self)@,
            ),
            final(self).arena() == old(self).arena(),
    {
        let current_token = *self.current();
        let span = current_token.span;
        match current_token.kind {
            TokenKind::Identifier(identifier) => match identifier {
                Identifier::Null => or_failed(
                    self.null()?,
                    "Failed to parse null identifier",
                    span,
                ),
                _ => or_failed(
                    self.identifier(expression_parser)?,
                    "Failed to parse identifier",
                    span,
                ),
            },
            TokenKind::Literal => or_failed(
                self.identifier(expression_parser)?,
                "Failed to parse literal",
                span,
            ),
            TokenKind::Boolean(_) => or_failed(self.bool()?, "Failed to parse boolean", span),
            TokenKind::Number => or_failed(
                self.number_from(parsed)?,
                "Failed to parse number",
                span,
            ),
            TokenKind::QuotationMark(quote_mark) => match quote_mark {
                QuotationMark::SingleQuote | QuotationMark::DoubleQuote => self.simple_string(
                    &quote_mark,
                ),
                QuotationMark::Backtick => self.template_string(expression_parser),
            },
            TokenKind::Bracket(bracket) => match bracket {
                Bracket::LeftParenthesis
                | Bracket::RightParenthesis
                | Bracket::RightSquareBracket => or_failed(
                    self.interval(expression_parser)?,
                    "Failed to parse interval",
                    span,
                ),
                Bracket::LeftSquareBracket => {
                    let interval = self.interval(expression_parser)?;
                    match interval {
                        Some(node) => Ok(node),
                        None => or_failed(
                            self.array(expression_parser)?,
                            "Invalid bracket",
                            span,
                        ),
                    }
                },
                Bracket::LeftCurlyBracket => self.object(expression_parser),
                Bracket::RightCurlyBracket => Err(
                    ParserError::FailedToParse {
                        message: "Unexpected RightCurlyBracket token".to_string(),
                        span,
                    },
                ),
            },
            TokenKind::Operator(_) => Err(
                ParserError::FailedToParse {
                    message: "Unexpected Operator token".to_string(),
                    span,
                },
            ),
            TokenKind::TemplateString(_) => Err(
                ParserError::FailedToParse {
                    message: "Unexpected TemplateString token".to_string(),
                    span,
                },
            ),
        }
    }
}

} // verus!
