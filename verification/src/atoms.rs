//! Numbers, strings, booleans and `null`.
use crate::arena::{new_nodes, nodes_in, nodes_slice, push_node};
use crate::ast::{Node, NodeRef};
use crate::cursor::Cursor;
use crate::decimal::{decimal_from_str_exact, exact_decimal};
use crate::error::{ParserError, ParserResult};
use crate::grammar::{
    bool_run, null_run, number_run, pieces_run, simple_string_run, template_string_run,
};
use crate::parser::{is_expression_parser, replies, Parser};
use crate::token::{Identifier, QuotationMark, TemplateString, TokenKind};
use rust_decimal::Decimal;
use vstd::prelude::*;

verus! {

impl<'arena, 'token_ref, Flavor> Parser<'arena, 'token_ref, Flavor> {
    /// Reads the current token as a number, if it is one.
    pub fn number(&mut self) -> (result: ParserResult<Option<NodeRef<'arena>>>)
        ensures
            number_run(exact_decimal(old(self)@.value()@), old(self)@, result, final(self)@),
            final(self).arena() == old(self).arena(),
    {
        let decimal = decimal_from_str_exact(self.current().value);
        self.number_from(decimal)
    }

    /// Passes the current token if its text is a number, which it is if `parsed` holds one.
    pub fn number_from(&mut self, parsed: Option<Decimal>) -> (result: ParserResult<
        Option<NodeRef<'arena>>,
    >)
        ensures
            number_run(parsed, old(self)@, result, final(self)@),
            final(self).arena() == old(self).arena(),
    {
        match parsed {
            Some(decimal) => {
                self.next()?;
                Ok(Some(self.node(Node::Number(decimal))))
            },
            None => Ok(None),
        }
    }

    /// Reads a text between two quotation marks of the given sort.
    pub fn simple_string(&mut self, quote_mark: &QuotationMark) -> (result: ParserResult<
        NodeRef<'arena>,
    >)
        ensures
            simple_string_run(*quote_mark, old(self)@, result, final(self)@),
            final(self).arena() == old(self).arena(),
    {
        self.expect(TokenKind::QuotationMark(*quote_mark))?;
        let string_value = self.current().value;
        self.expect(TokenKind::Literal)?;
        self.expect(TokenKind::QuotationMark(*quote_mark))?;
        Ok(self.node(Node::String(string_value)))
    }

    /// Reads the pieces of a template string, up to the closing backtick.
    fn template_pieces<F>(&mut self, expression_parser: &F) -> (result: ParserResult<
        &'arena [NodeRef<'arena>],
    >) where F: Fn(Self) -> (ParserResult<NodeRef<'arena>>, Self)
        requires
            is_expression_parser(*expression_parser),
        ensures
            match result {
                Ok(pieces) => pieces_run(
                    replies(*expression_parser),
                    old(self)@,
                    Seq::empty(),
                    Ok(pieces@),
                    final(self)@,
                ),
                Err(error) => pieces_run(
                    replies(*expression_parser),
                    old(self)@,
                    Seq::empty(),
                    Err(error),
                    final(self)@,
                ),
            },
            final(self).arena() == old(self).arena(),
    {
        let ghost ask = replies(*expression_parser);
        let ghost start = self@;
        let mut nodes = new_nodes(self.bump());
        let mut current_token = *self.current();
        while TokenKind::QuotationMark(QuotationMark::Backtick) != current_token.kind
            invariant
                is_expression_parser(*expression_parser),
                ask == replies(*expression_parser),
                start == old(self)@,
                self.arena() == old(self).arena(),
                self@.wf(),
                current_token == self@.current(),
                forall|result: ParserResult<Seq<NodeRef<'arena>>>, t: Cursor<'arena>| #[trigger]
                    pieces_run(ask, self@, nodes_in(nodes), result, t) ==> pieces_run(
                        ask,
                        start,
                        Seq::empty(),
                        result,
                        t,
                    ),
            decreases self@.remaining(),
        {
            let ghost s = self@;
            let ghost pieces = nodes_in(nodes);
            match current_token.kind {
                TokenKind::TemplateString(template) => match template {
                    TemplateString::ExpressionStart => {
                        match self.next() {
                            Ok(_) => {},
                            Err(error) => {
                                assert(pieces_run(ask, s, pieces, Err(error), self@));
                                return Err(error);
                            },
                        }
                        match self.ask(expression_parser) {
                            Ok(piece) => push_node(&mut nodes, piece),
                            Err(error) => {
                                assert(pieces_run(ask, s, pieces, Err(error), self@));
                                return Err(error);
                            },
                        }
                    },
                    TemplateString::ExpressionEnd => {
                        match self.next() {
                            Ok(_) => {},
                            Err(error) => {
                                assert(pieces_run(ask, s, pieces, Err(error), self@));
                                return Err(error);
                            },
                        }
                    },
                },
                TokenKind::Literal => {
                    push_node(&mut nodes, self.node(Node::String(current_token.value)));
                    match self.next() {
                        Ok(_) => {},
                        Err(error) => {
                            assert(pieces_run(ask, s, pieces, Err(error), self@));
                            return Err(error);
                        },
                    }
                },
                _ => {
                    let error = ParserError::UnexpectedToken {
                        expected: "Valid TemplateString token".to_string(),
                        received: current_token.kind.to_string(),
                        span: current_token.span,
                    };
                    assert(pieces_run(ask, s, pieces, Err(error), self@));
                    return Err(error);
                },
            }
            assert forall|result: ParserResult<Seq<NodeRef<'arena>>>, t: Cursor<'arena>| #[trigger]
                pieces_run(ask, self@, nodes_in(nodes), result, t) implies pieces_run(
                ask,
                start,
                Seq::empty(),
                result,
                t,
            ) by {
                assert(pieces_run(ask, s, pieces, result, t));
            }
            current_token = *self.current();
        }
        assert(pieces_run(ask, self@, nodes_in(nodes), Ok(nodes_in(nodes)), self@));
        Ok(nodes_slice(nodes))
    }

    /// Reads a template string.
    pub fn template_string<F>(&mut self, expression_parser: &F) -> (result: ParserResult<
        NodeRef<'arena>,
    >) where F: Fn(Self) -> (ParserResult<NodeRef<'arena>>, Self)
        requires
            is_expression_parser(*expression_parser),
        ensures
            template_string_run(replies(*expression_parser), old(self)@, result, final(self)@),
            final(self).arena() == old(self).arena(),
    {
        self.expect(TokenKind::QuotationMark(QuotationMark::Backtick))?;
        let nodes = self.template_pieces(expression_parser)?;
        self.expect(TokenKind::QuotationMark(QuotationMark::Backtick))?;
        Ok(self.node(Node::TemplateString(nodes)))
    }

    /// Reads `true` or `false`, if it is there.
    pub fn bool(&mut self) -> (result: ParserResult<Option<NodeRef<'arena>>>)
        ensures
            bool_run(old(self)@, result, final(self)@),
            final(self).arena() == old(self).arena(),
    {
        match self.current().kind {
            TokenKind::Boolean(boolean) => {
                self.next()?;
                Ok(Some(self.node(Node::Bool(boolean))))
            },
            _ => Ok(None),
        }
    }

    /// Reads `null`, if it is there.
    pub fn null(&mut self) -> (result: ParserResult<Option<NodeRef<'arena>>>)
        ensures
            null_run(old(self)@, result, final(self)@),
            final(self).arena() == old(self).arena(),
    {
        if self.current().kind != TokenKind::Identifier(Identifier::Null) {
            return Ok(None);
        }
        self.next()?;
        Ok(Some(self.node(Node::Null)))
    }
}

} // verus!
