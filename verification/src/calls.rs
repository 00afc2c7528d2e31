//! Identifiers and calls of built-in functions.
use crate::arena::alloc_nodes;
use crate::ast::{Node, NodeRef};
use crate::builtin::{Arity, BuiltInFunction};
use crate::error::{ParserError, ParserResult};
use crate::grammar::{
    arguments_run, call_run, can_nest, closure_run, has_room, identifier_run,
};
use crate::parser::{is_expression_parser, replies, Parser};
use crate::token::{Bracket, Identifier, Operator, TokenKind};
use vstd::prelude::*;

verus! {

impl<'arena, 'token_ref, Flavor> Parser<'arena, 'token_ref, Flavor> {
    /// Reads the body of a closure.
    pub fn closure<F>(&mut self, expression_parser: &F) -> (result: ParserResult<
        NodeRef<'arena>,
    >) where F: Fn(Self) -> (ParserResult<NodeRef<'arena>>, Self)
        requires
            is_expression_parser(*expression_parser),
            old(self)@.depth < u8::MAX,
        ensures
            closure_run(replies(*expression_parser), old(self)@, result, final(self)@),
            final(self).arena() == old(self).arena(),
    {
        self.enter();
        let node = self.ask(expression_parser)?;
        self.leave();
        Ok(self.node(Node::Closure(node)))
    }

    /// Reads the arguments of a call, from behind the opening parenthesis on.
    fn arguments<F>(&mut self, arity: Arity, expression_parser: &F) -> (result: ParserResult<
        &'arena [NodeRef<'arena>],
    >) where F: Fn(Self) -> (ParserResult<NodeRef<'arena>>, Self)
        requires
            is_expression_parser(*expression_parser),
            arity is Closure ==> has_room(replies(*expression_parser), old(self)@),
        ensures
            match result {
                Ok(arguments) => arguments_run(
                    replies(*expression_parser),
                    arity,
                    old(self)@,
                    Ok(arguments@),
                    final(self)@,
                ),
                Err(error) => arguments_run(
                    replies(*expression_parser),
                    arity,
                    old(self)@,
                    Err(error),
                    final(self)@,
                ),
            },
            final(self).arena() == old(self).arena(),
    {
        let close = TokenKind::Bracket(Bracket::RightParenthesis);
        let comma = TokenKind::Operator(Operator::Comma);
        match arity {
            Arity::Single => {
                let arg = self.ask(expression_parser)?;
                self.expect(close)?;
                let list = [arg];
                let arguments = alloc_nodes(self.bump(), &list);
                assert(arguments@ =~= seq![arg]);
                Ok(arguments)
            },
            Arity::Dual => {
                let arg1 = self.ask(expression_parser)?;
                self.expect(comma)?;
                let arg2 = self.ask(expression_parser)?;
                self.expect(close)?;
                let list = [arg1, arg2];
                let arguments = alloc_nodes(self.bump(), &list);
                assert(arguments@ =~= seq![arg1, arg2]);
                Ok(arguments)
            },
            Arity::Closure => {
                let arg1 = self.ask(expression_parser)?;
                self.expect(comma)?;
                let arg2 = self.closure(expression_parser)?;
                self.expect(close)?;
                let list = [arg1, arg2];
                let arguments = alloc_nodes(self.bump(), &list);
                assert(arguments@ =~= seq![arg1, arg2]);
                Ok(arguments)
            },
        }
    }

    /// Reads a call of a built-in function, from behind the opening parenthesis on, with what
    /// stands behind it.
    fn call<F>(&mut self, function: BuiltInFunction, expression_parser: &F) -> (result:
        ParserResult<NodeRef<'arena>>) where
        F: Fn(Self) -> (ParserResult<NodeRef<'arena>>, Self),

        requires
            is_expression_parser(*expression_parser),
            function.is_closure() ==> has_room(replies(*expression_parser), old(self)@),
        ensures
            call_run(replies(*expression_parser), function, old(self)@, result, final(self)@),
            final(self).arena() == old(self).arena(),
    {
        let arguments = self.arguments(function.arity(), expression_parser)?;
        let node = self.node(Node::BuiltIn { kind: function, arguments });
        self.with_postfix(node, expression_parser)
    }

    /// Reads an identifier or a call of a built-in function, with what stands behind it, if it is
    /// there.
    pub fn identifier<F>(&mut self, expression_parser: &F) -> (result: ParserResult<
        Option<NodeRef<'arena>>,
    >) where F: Fn(Self) -> (ParserResult<NodeRef<'arena>>, Self)
        requires
            is_expression_parser(*expression_parser),
            can_nest(replies(*expression_parser), old(self)@),
        ensures
            identifier_run(replies(*expression_parser), old(self)@, result, final(self)@),
            final(self).arena() == old(self).arena(),
    {
        let identifier_token = *self.current();
        match identifier_token.kind {
            TokenKind::Identifier(_) | TokenKind::Literal => {},
            _ => return Ok(None),
        }
        self.next()?;
        if self.current().kind != TokenKind::Bracket(Bracket::LeftParenthesis) {
            let identifier_node = match identifier_token.kind {
                TokenKind::Identifier(Identifier::RootReference) => self.node(Node::Root),
                _ => self.node(Node::Identifier(identifier_token.value)),
            };
            let node = self.with_postfix(identifier_node, expression_parser)?;
            return Ok(Some(node));
        }
        let builtin = match BuiltInFunction::from_name(identifier_token.value) {
            Some(builtin) => builtin,
            None => return Err(
                ParserError::UnknownBuiltIn {
                    name: identifier_token.value.to_string(),
                    span: identifier_token.span,
                },
            ),
        };
        self.next()?;
        let node = self.call(builtin, expression_parser)?;
        Ok(Some(node))
    }
}

} // verus!
