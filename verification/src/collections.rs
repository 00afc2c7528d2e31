//! Arrays and objects.
use crate::arena::{
    new_nodes, new_pairs, no_nodes, nodes_in, nodes_slice, pairs_in, pairs_slice, push_node,
    push_pair,
};
use crate::ast::{Node, NodeRef};
use crate::cursor::Cursor;
use crate::error::{ParserError, ParserResult};
use crate::grammar::{
    array_run, entries_run, entry_value_run, is_array, item_run, items_run, object_key_run,
    object_run,
};
use crate::parser::{is_expression_parser, replies, Parser};
use crate::progress::object_key_never_goes_back;
use crate::token::{Bracket, Operator, QuotationMark, TokenKind};
use vstd::prelude::*;

verus! {

impl<'arena, 'token_ref, Flavor> Parser<'arena, 'token_ref, Flavor> {
    /// Reads the items of an array, up to the closing bracket.
    fn array_items<F>(&mut self, expression_parser: &F) -> (result: ParserResult<
        &'arena [NodeRef<'arena>],
    >) where F: Fn(Self) -> (ParserResult<NodeRef<'arena>>, Self)
        requires
            is_expression_parser(*expression_parser),
        ensures
            match result {
                Ok(items) => items_run(
                    replies(*expression_parser),
                    old(self)@,
                    Seq::empty(),
                    Ok(items@),
                    final(self)@,
                ),
                Err(error) => items_run(
                    replies(*expression_parser),
                    old(self)@,
                    Seq::empty(),
                    Err(error),
                    final(self)@,
                ),
            },
            final(self).arena() == old(self).arena(),
    {
        let end = TokenKind::Bracket(Bracket::RightSquareBracket);
        let ghost ask = replies(*expression_parser);
        let ghost start = self@;
        let mut nodes = new_nodes(self.bump());
        loop
            invariant_except_break
                is_expression_parser(*expression_parser),
                ask == replies(*expression_parser),
                end == TokenKind::Bracket(Bracket::RightSquareBracket),
                start == old(self)@,
                self.arena() == old(self).arena(),
                forall|result: ParserResult<Seq<NodeRef<'arena>>>, t: Cursor<'arena>| #[trigger]
                    items_run(ask, self@, nodes_in(nodes), result, t) ==> items_run(
                        ask,
                        start,
                        Seq::empty(),
                        result,
                        t,
                    ),
            ensures
                items_run(ask, start, Seq::empty(), Ok(nodes_in(nodes)), self@),
                self.arena() == old(self).arena(),
            decreases
                    self@.remaining(),
                    (if nodes_in(nodes).len() == 0 {
                        1int
                    } else {
                        0int
                    }),
        {
            let ghost s = self@;
            let ghost items = nodes_in(nodes);
            if self.current().kind == end {
                assert(items_run(ask, s, items, Ok(items), s));
                break;
            }
            if !no_nodes(&nodes) {
                match self.expect(TokenKind::Operator(Operator::Comma)) {
                    Ok(_) => {},
                    Err(error) => {
                        assert(items_run(ask, s, items, Err(error), self@));
                        return Err(error);
                    },
                }
                if self.current().kind == end {
                    assert(items_run(ask, s, items, Ok(items), self@));
                    break;
                }
            }
            let ghost next = self@;
            match self.ask(expression_parser) {
                Ok(item) => push_node(&mut nodes, item),
                Err(error) => {
                    assert(item_run(ask, next, items, Err(error), self@));
                    assert(items_run(ask, s, items, Err(error), self@));
                    return Err(error);
                },
            }
            assert forall|result: ParserResult<Seq<NodeRef<'arena>>>, t: Cursor<'arena>| #[trigger]
                items_run(ask, self@, nodes_in(nodes), result, t) implies items_run(
                ask,
                start,
                Seq::empty(),
                result,
                t,
            ) by {
                assert(item_run(ask, next, items, result, t));
                assert(items_run(ask, s, items, result, t));
            }
        }
        Ok(nodes_slice(nodes))
    }

    /// Reads an array, with what stands behind it, if it is there.
    pub fn array<F>(&mut self, expression_parser: &F) -> (result: ParserResult<
        Option<NodeRef<'arena>>,
    >) where F: Fn(Self) -> (ParserResult<NodeRef<'arena>>, Self)
        requires
            is_expression_parser(*expression_parser),
        ensures
            array_run(replies(*expression_parser), old(self)@, result, final(self)@),
            final(self).arena() == old(self).arena(),
    {
        if self.current().kind != TokenKind::Bracket(Bracket::LeftSquareBracket) {
            return Ok(None);
        }
        self.next()?;
        let nodes = self.array_items(expression_parser)?;
        self.expect(TokenKind::Bracket(Bracket::RightSquareBracket))?;
        let array = self.node(Node::Array(nodes));
        assert(is_array(array, nodes@));
        let node = self.with_postfix(array, expression_parser)?;
        Ok(Some(node))
    }

    /// Reads the entries of an object, up to the closing bracket.
    fn object_entries<F>(&mut self, expression_parser: &F) -> (result: ParserResult<
        &'arena [(NodeRef<'arena>, NodeRef<'arena>)],
    >) where F: Fn(Self) -> (ParserResult<NodeRef<'arena>>, Self)
        requires
            is_expression_parser(*expression_parser),
            old(self)@.wf(),
        ensures
            match result {
                Ok(entries) => entries_run(
                    replies(*expression_parser),
                    old(self)@,
                    Seq::empty(),
                    Ok(entries@),
                    final(self)@,
                ),
                Err(error) => entries_run(
                    replies(*expression_parser),
                    old(self)@,
                    Seq::empty(),
                    Err(error),
                    final(self)@,
                ),
            },
            final(self).arena() == old(self).arena(),
    {
        let ghost ask = replies(*expression_parser);
        let ghost start = self@;
        let mut key_value_pairs = new_pairs(self.bump());
        loop
            invariant_except_break
                is_expression_parser(*expression_parser),
                ask == replies(*expression_parser),
                start == old(self)@,
                self.arena() == old(self).arena(),
                self@.wf(),
                forall|
                    result: ParserResult<Seq<(NodeRef<'arena>, NodeRef<'arena>)>>,
                    t: Cursor<'arena>,
                | #[trigger]
                    entries_run(ask, self@, pairs_in(key_value_pairs), result, t) ==> entries_run(
                        ask,
                        start,
                        Seq::empty(),
                        result,
                        t,
                    ),
            ensures
                entries_run(ask, start, Seq::empty(), Ok(pairs_in(key_value_pairs)), self@),
                self.arena() == old(self).arena(),
            decreases self@.remaining(),
        {
            let ghost s = self@;
            let ghost entries = pairs_in(key_value_pairs);
            let parsed_key = self.object_key(expression_parser);
            proof {
                object_key_never_goes_back(ask, s, parsed_key, self@);
            }
            let key = match parsed_key {
                Ok(key) => key,
                Err(error) => {
                    assert(entries_run(ask, s, entries, Err(error), self@));
                    return Err(error);
                },
            };
            match self.expect(TokenKind::Operator(Operator::Slice)) {
                Ok(_) => {},
                Err(error) => {
                    assert(entries_run(ask, s, entries, Err(error), self@));
                    return Err(error);
                },
            }
            let ghost inner = self@;
            let value = match self.ask(expression_parser) {
                Ok(value) => value,
                Err(error) => {
                    assert(entry_value_run(ask, inner, entries, key, Err(error), self@));
                    assert(entries_run(ask, s, entries, Err(error), self@));
                    return Err(error);
                },
            };
            push_pair(&mut key_value_pairs, (key, value));
            let current_token = *self.current();
            match current_token.kind {
                TokenKind::Operator(Operator::Comma) => {
                    match self.expect(TokenKind::Operator(Operator::Comma)) {
                        Ok(_) => {},
                        Err(error) => {
                            assert(entry_value_run(ask, inner, entries, key, Err(error), self@));
                            assert(entries_run(ask, s, entries, Err(error), self@));
                            return Err(error);
                        },
                    }
                },
                TokenKind::Bracket(Bracket::RightCurlyBracket) => {
                    let ghost all = pairs_in(key_value_pairs);
                    assert(entry_value_run(ask, inner, entries, key, Ok(all), self@));
                    assert(entries_run(ask, s, entries, Ok(all), self@));
                    break;
                },
                _ => {
                    let error = ParserError::UnexpectedToken {
                        expected: "RightCurlyBracket or Comma".to_string(),
                        received: current_token.kind.to_string(),
                        span: current_token.span,
                    };
                    assert(entry_value_run(ask, inner, entries, key, Err(error), self@));
                    assert(entries_run(ask, s, entries, Err(error), self@));
                    return Err(error);
                },
            }
            assert forall|
                result: ParserResult<Seq<(NodeRef<'arena>, NodeRef<'arena>)>>,
                t: Cursor<'arena>,
            | #[trigger]
                entries_run(ask, self@, pairs_in(key_value_pairs), result, t) implies entries_run(
                ask,
                start,
                Seq::empty(),
                result,
                t,
            ) by {
                assert(entry_value_run(ask, inner, entries, key, result, t));
                assert(entries_run(ask, s, entries, result, t));
            }
        }
        Ok(pairs_slice(key_value_pairs))
    }

    /// Reads an object.
    pub fn object<F>(&mut self, expression_parser: &F) -> (result: ParserResult<
        NodeRef<'arena>,
    >) where F: Fn(Self) -> (ParserResult<NodeRef<'arena>>, Self)
        requires
            is_expression_parser(*expression_parser),
        ensures
            object_run(replies(*expression_parser), old(self)@, result, final(self)@),
            final(self).arena() == old(self).arena(),
    {
        self.expect(TokenKind::Bracket(Bracket::LeftCurlyBracket))?;
        if self.current().kind == TokenKind::Bracket(Bracket::RightCurlyBracket) {
            self.next()?;
            let key_value_pairs = pairs_slice(new_pairs(self.bump()));
            return Ok(self.node(Node::Object(key_value_pairs)));
        }
        let key_value_pairs = self.object_entries(expression_parser)?;
        self.expect(TokenKind::Bracket(Bracket::RightCurlyBracket))?;
        Ok(self.node(Node::Object(key_value_pairs)))
    }

    /// Reads a key of an object.
    pub fn object_key<F>(&mut self, expression_parser: &F) -> (result: ParserResult<
        NodeRef<'arena>,
    >) where F: Fn(Self) -> (ParserResult<NodeRef<'arena>>, Self)
        requires
            is_expression_parser(*expression_parser),
        ensures
            object_key_run(replies(*expression_parser), old(self)@, result, final(self)@),
            final(self).arena() == old(self).arena(),
    {
        let key_token = *self.current();
        match key_token.kind {
            TokenKind::Identifier(identifier) => {
                self.next()?;
                Ok(self.node(Node::String(identifier.as_str())))
            },
            TokenKind::Boolean(boolean) => {
                self.next()?;
                if boolean {
                    Ok(self.node(Node::String("true")))
                } else {
                    Ok(self.node(Node::String("false")))
                }
            },
            TokenKind::Number => {
                self.next()?;
                Ok(self.node(Node::String(key_token.value)))
            },
            TokenKind::Literal => {
                self.next()?;
                Ok(self.node(Node::String(key_token.value)))
            },
            TokenKind::Bracket(bracket) => match bracket {
                Bracket::LeftSquareBracket => {
                    self.expect(TokenKind::Bracket(Bracket::LeftSquareBracket))?;
                    let token = self.ask(expression_parser)?;
                    self.expect(TokenKind::Bracket(Bracket::RightSquareBracket))?;
                    Ok(token)
                },
                _ => Err(
                    ParserError::FailedToParse {
                        message: "Operator is not supported as object key".to_string(),
                        span: key_token.span,
                    },
                ),
            },
            TokenKind::QuotationMark(quotation_mark) => match quotation_mark {
                QuotationMark::SingleQuote => self.simple_string(&QuotationMark::SingleQuote),
                QuotationMark::DoubleQuote => self.simple_string(&QuotationMark::DoubleQuote),
                QuotationMark::Backtick => Err(
                    ParserError::FailedToParse {
                        message: "TemplateString expression not supported as object key".to_string(),
                        span: key_token.span,
                    },
                ),
            },
            TokenKind::TemplateString(_) => Err(
                ParserError::FailedToParse {
                    message: "TemplateString expression not supported as object key".to_string(),
                    span: key_token.span,
                },
            ),
            TokenKind::Operator(_) => Err(
                ParserError::FailedToParse {
                    message: "Operator is not supported as object key".to_string(),
                    span: key_token.span,
                },
            ),
        }
    }
}

} // verus!
