//! What each construct of the grammar is.
//!
//! A construct is a relation between the state `s` in which it is parsed, the result, and the
//! state `t` in which the parser is left. Parts that are whole expressions are read by another
//! parser, whose behaviour is the parameter `ask`.
use crate::ast::{Node, NodeRef};
use crate::builtin::{built_in, Arity, BuiltInFunction};
use crate::cursor::Cursor;
use crate::error::{ParserError, ParserResult};
use crate::token::{
    Bracket, ComparisonOperator, Identifier, Operator, QuotationMark, TemplateString, Token,
    TokenKind,
};
use rust_decimal::Decimal;
use vstd::prelude::*;

verus! {

/// The behaviour of a parser of whole expressions: the state before, the answer, the state after.
pub type Replies<'arena> = spec_fn(
    Cursor<'arena>,
    ParserResult<NodeRef<'arena>>,
    Cursor<'arena>,
) -> bool;

/// The parser of whole expressions, asked in one state, may answer so and leave the other state.
pub open spec fn answered<'arena>(
    ask: Replies<'arena>,
    before: Cursor<'arena>,
    reply: ParserResult<NodeRef<'arena>>,
    after: Cursor<'arena>,
) -> bool {
    ask(before, reply, after) && before.leads_to(after)
}

/// The parser of whole expressions, when it succeeds, comes out as deep as it went in.
pub open spec fn balanced<'arena>(ask: Replies<'arena>) -> bool {
    forall|before: Cursor<'arena>, node: NodeRef<'arena>, after: Cursor<'arena>| #[trigger]
        answered(ask, before, Ok(node), after) ==> after.depth == before.depth
}

/// The result is this value.
pub open spec fn gives<T>(result: ParserResult<T>, value: T) -> bool {
    result == Ok::<T, ParserError>(value)
}

/// The result is this error.
pub open spec fn fails<T>(result: ParserResult<T>, error: ParserError) -> bool {
    result == Err::<T, ParserError>(error)
}

/// The result of passing the current token where it cannot be passed.
pub open spec fn runs_out<'arena, T>(
    s: Cursor<'arena>,
    result: ParserResult<T>,
    t: Cursor<'arena>,
) -> bool {
    fails(result, ParserError::TokenOutOfBounds) && t == s.advance()
}

/// The result of passing a token of this kind where that is not possible.
pub open spec fn refused<'arena, T>(
    s: Cursor<'arena>,
    kind: TokenKind,
    result: ParserResult<T>,
    t: Cursor<'arena>,
) -> bool {
    result matches Err(error) && s.refuses(kind, error, t)
}

/// The result is the report that something else was expected than the current token.
pub open spec fn surprised<'arena, T>(
    expected: Seq<char>,
    s: Cursor<'arena>,
    result: ParserResult<T>,
) -> bool {
    result matches Err(error) && error.is_unexpected(expected, s.kind().name(), s.span())
}

/// The result is the report that nothing can be read at the current token, for this reason.
pub open spec fn rejected<'arena, T>(
    message: Seq<char>,
    s: Cursor<'arena>,
    result: ParserResult<T>,
) -> bool {
    result matches Err(error) && error.is_failure(message, s.span())
}

/// The result of a construct that was there.
pub open spec fn found<'arena>(result: ParserResult<NodeRef<'arena>>) -> ParserResult<
    Option<NodeRef<'arena>>,
> {
    match result {
        Ok(node) => Ok(Some(node)),
        Err(error) => Err(error),
    }
}

/// The construct is one token, which stands for this node.
pub open spec fn token_run<'arena>(
    node: Node<'arena>,
    s: Cursor<'arena>,
    result: ParserResult<NodeRef<'arena>>,
    t: Cursor<'arena>,
) -> bool {
    if s.can_advance() {
        gives(result, &node) && t == s.advance()
    } else {
        runs_out(s, result, t)
    }
}

/// The construct is one token, which is there and stands for this node.
pub open spec fn found_token_run<'arena>(
    node: Node<'arena>,
    s: Cursor<'arena>,
    result: ParserResult<Option<NodeRef<'arena>>>,
    t: Cursor<'arena>,
) -> bool {
    if s.can_advance() {
        gives(result, Some(&node)) && t == s.advance()
    } else {
        runs_out(s, result, t)
    }
}

/// A number, where `parsed` is what the text of the token says.
pub open spec fn number_run<'arena>(
    parsed: Option<Decimal>,
    s: Cursor<'arena>,
    result: ParserResult<Option<NodeRef<'arena>>>,
    t: Cursor<'arena>,
) -> bool {
    match parsed {
        Some(decimal) => found_token_run(Node::Number(decimal), s, result, t),
        None => gives(result, None) && t == s,
    }
}

/// `true` or `false`.
pub open spec fn bool_run<'arena>(
    s: Cursor<'arena>,
    result: ParserResult<Option<NodeRef<'arena>>>,
    t: Cursor<'arena>,
) -> bool {
    match s.kind() {
        TokenKind::Boolean(boolean) => found_token_run(Node::Bool(boolean), s, result, t),
        _ => gives(result, None) && t == s,
    }
}

/// `null`.
pub open spec fn null_run<'arena>(
    s: Cursor<'arena>,
    result: ParserResult<Option<NodeRef<'arena>>>,
    t: Cursor<'arena>,
) -> bool {
    match s.kind() {
        TokenKind::Identifier(Identifier::Null) => found_token_run(Node::Null, s, result, t),
        _ => gives(result, None) && t == s,
    }
}

/// A text between two quotation marks of the given sort.
pub open spec fn simple_string_run<'arena>(
    quote_mark: QuotationMark,
    s: Cursor<'arena>,
    result: ParserResult<NodeRef<'arena>>,
    t: Cursor<'arena>,
) -> bool {
    let quote = TokenKind::QuotationMark(quote_mark);
    let text = s.advance();
    let close = text.advance();
    if !s.takes(quote) {
        refused(s, quote, result, t)
    } else if !text.takes(TokenKind::Literal) {
        refused(text, TokenKind::Literal, result, t)
    } else if !close.takes(quote) {
        refused(close, quote, result, t)
    } else {
        gives(result, &Node::String(text.value())) && t == close.advance()
    }
}

/// The pieces of a template string from the state `s` on, behind those already read.
pub open spec fn pieces_run<'arena>(
    ask: Replies<'arena>,
    s: Cursor<'arena>,
    pieces: Seq<NodeRef<'arena>>,
    result: ParserResult<Seq<NodeRef<'arena>>>,
    t: Cursor<'arena>,
) -> bool
    decreases s.remaining(),
{
    if !s.wf() {
        false
    } else {
        match s.kind() {
            TokenKind::QuotationMark(QuotationMark::Backtick) => gives(result, pieces) && t == s,
            TokenKind::TemplateString(TemplateString::ExpressionStart) => if !s.can_advance() {
                runs_out(s, result, t)
            } else {
                exists|reply: ParserResult<NodeRef<'arena>>, after: Cursor<'arena>| #[trigger]
                    answered(ask, s.advance(), reply, after) && match reply {
                        Ok(piece) => pieces_run(ask, after, pieces.push(piece), result, t),
                        Err(error) => fails(result, error) && t == after,
                    }
            },
            TokenKind::TemplateString(TemplateString::ExpressionEnd) => if !s.can_advance() {
                runs_out(s, result, t)
            } else {
                pieces_run(ask, s.advance(), pieces, result, t)
            },
            TokenKind::Literal => if !s.can_advance() {
                runs_out(s, result, t)
            } else {
                pieces_run(ask, s.advance(), pieces.push(&Node::String(s.value())), result, t)
            },
            _ => surprised("Valid TemplateString token"@, s, result) && t == s,
        }
    }
}

/// The node is a template string of these pieces.
pub open spec fn is_template<'arena>(node: NodeRef<'arena>, list: Seq<NodeRef<'arena>>) -> bool {
    node matches Node::TemplateString(pieces) && pieces@ == list
}

/// A template string: pieces of text and embedded expressions between backticks.
pub open spec fn template_string_run<'arena>(
    ask: Replies<'arena>,
    s: Cursor<'arena>,
    result: ParserResult<NodeRef<'arena>>,
    t: Cursor<'arena>,
) -> bool {
    let quote = TokenKind::QuotationMark(QuotationMark::Backtick);
    if !s.takes(quote) {
        refused(s, quote, result, t)
    } else {
        exists|pieces: ParserResult<Seq<NodeRef<'arena>>>, close: Cursor<'arena>| #[trigger]
            pieces_run(ask, s.advance(), Seq::empty(), pieces, close) && match pieces {
                Ok(pieces) => if !close.takes(quote) {
                    refused(close, quote, result, t)
                } else {
                    (result matches Ok(node) && is_template(node, pieces)) && t == close.advance()
                },
                Err(error) => fails(result, error) && t == close,
            }
    }
}

/// The kinds of token that may stand behind a dot.
pub open spec fn valid_property(kind: TokenKind) -> bool {
    match kind {
        TokenKind::Identifier(_) => true,
        TokenKind::Literal => true,
        TokenKind::Operator(Operator::Logical(_)) => true,
        TokenKind::Operator(Operator::Comparison(ComparisonOperator::In)) => true,
        _ => false,
    }
}

/// The rest of a slice behind its colon.
pub open spec fn slice_end_run<'arena>(
    ask: Replies<'arena>,
    node: NodeRef<'arena>,
    from: Option<NodeRef<'arena>>,
    s: Cursor<'arena>,
    result: ParserResult<NodeRef<'arena>>,
    t: Cursor<'arena>,
) -> bool {
    let end = TokenKind::Bracket(Bracket::RightSquareBracket);
    if s.kind() == end {
        if !s.takes(end) {
            refused(s, end, result, t)
        } else {
            gives(result, &Node::Slice { node, from, to: None }) && t == s.advance()
        }
    } else {
        exists|reply: ParserResult<NodeRef<'arena>>, after: Cursor<'arena>| #[trigger]
            answered(ask, s, reply, after) && match reply {
                Ok(to) => if !after.takes(end) {
                    refused(after, end, result, t)
                } else {
                    gives(result, &Node::Slice { node, from, to: Some(to) }) && t
                        == after.advance()
                },
                Err(error) => fails(result, error) && t == after,
            }
    }
}

/// What stands in square brackets behind a node: an index, or a slice with its ends or without.
pub open spec fn subscript_run<'arena>(
    ask: Replies<'arena>,
    node: NodeRef<'arena>,
    s: Cursor<'arena>,
    result: ParserResult<NodeRef<'arena>>,
    t: Cursor<'arena>,
) -> bool {
    let end = TokenKind::Bracket(Bracket::RightSquareBracket);
    let colon = TokenKind::Operator(Operator::Slice);
    if s.kind() == colon {
        if !s.can_advance() {
            runs_out(s, result, t)
        } else {
            slice_end_run(ask, node, None, s.advance(), result, t)
        }
    } else {
        exists|reply: ParserResult<NodeRef<'arena>>, after: Cursor<'arena>| #[trigger]
            answered(ask, s, reply, after) && match reply {
                Ok(from) => if after.kind() == colon {
                    if !after.can_advance() {
                        runs_out(after, result, t)
                    } else {
                        slice_end_run(ask, node, Some(from), after.advance(), result, t)
                    }
                } else if !after.takes(end) {
                    refused(after, end, result, t)
                } else {
                    gives(result, &Node::Member { node, property: from }) && t == after.advance()
                },
                Err(error) => fails(result, error) && t == after,
            }
    }
}

/// A node with all the member accesses, indices and slices behind it.
pub open spec fn postfix_run<'arena>(
    ask: Replies<'arena>,
    node: NodeRef<'arena>,
    s: Cursor<'arena>,
    result: ParserResult<NodeRef<'arena>>,
    t: Cursor<'arena>,
) -> bool
    decreases s.remaining(),
{
    let property = s.advance();
    if !s.wf() {
        false
    } else if s.kind() == TokenKind::Operator(Operator::Dot) {
        if !s.can_advance() {
            runs_out(s, result, t)
        } else if !property.can_advance() {
            runs_out(property, result, t)
        } else if !valid_property(property.kind()) {
            surprised("valid property"@, s, result) && t == property.advance()
        } else {
            postfix_run(
                ask,
                &Node::Member { node, property: &Node::String(property.value()) },
                property.advance(),
                result,
                t,
            )
        }
    } else if s.kind() == TokenKind::Bracket(Bracket::LeftSquareBracket) {
        if !s.can_advance() {
            runs_out(s, result, t)
        } else {
            exists|inner: ParserResult<NodeRef<'arena>>, after: Cursor<'arena>| #[trigger]
                subscript_run(ask, node, s.advance(), inner, after) && s.advance().leads_to(after)
                    && match inner {
                    Ok(accessed) => postfix_run(ask, accessed, after, result, t),
                    Err(error) => fails(result, error) && t == after,
                }
        }
    } else {
        gives(result, node) && t == s
    }
}

/// The body of a closure. Where it cannot be read, the parser is left inside the closure.
pub open spec fn closure_run<'arena>(
    ask: Replies<'arena>,
    s: Cursor<'arena>,
    result: ParserResult<NodeRef<'arena>>,
    t: Cursor<'arena>,
) -> bool {
    exists|reply: ParserResult<NodeRef<'arena>>, after: Cursor<'arena>| #[trigger]
        answered(ask, s.entered(), reply, after) && match reply {
            Ok(body) => gives(result, &Node::Closure(body)) && t == after.left(),
            Err(error) => fails(result, error) && t == after,
        }
}

/// The second argument of a call, with the closing parenthesis.
pub open spec fn last_argument_run<'arena>(
    ask: Replies<'arena>,
    arity: Arity,
    first: NodeRef<'arena>,
    s: Cursor<'arena>,
    result: ParserResult<Seq<NodeRef<'arena>>>,
    t: Cursor<'arena>,
) -> bool {
    let close = TokenKind::Bracket(Bracket::RightParenthesis);
    exists|second: ParserResult<NodeRef<'arena>>, after: Cursor<'arena>|
        #![trigger closure_run(ask, s, second, after)]
        #![trigger answered(ask, s, second, after)]
        (if arity is Closure {
            closure_run(ask, s, second, after)
        } else {
            answered(ask, s, second, after)
        }) && match second {
            Ok(second) => if !after.takes(close) {
                refused(after, close, result, t)
            } else {
                gives(result, seq![first, second]) && t == after.advance()
            },
            Err(error) => fails(result, error) && t == after,
        }
}

/// The arguments of a call behind its opening parenthesis.
pub open spec fn arguments_run<'arena>(
    ask: Replies<'arena>,
    arity: Arity,
    s: Cursor<'arena>,
    result: ParserResult<Seq<NodeRef<'arena>>>,
    t: Cursor<'arena>,
) -> bool {
    let close = TokenKind::Bracket(Bracket::RightParenthesis);
    let comma = TokenKind::Operator(Operator::Comma);
    exists|reply: ParserResult<NodeRef<'arena>>, after: Cursor<'arena>| #[trigger]
        answered(ask, s, reply, after) && match reply {
            Ok(first) => if arity is Single {
                if !after.takes(close) {
                    refused(after, close, result, t)
                } else {
                    gives(result, seq![first]) && t == after.advance()
                }
            } else if !after.takes(comma) {
                refused(after, comma, result, t)
            } else {
                last_argument_run(ask, arity, first, after.advance(), result, t)
            },
            Err(error) => fails(result, error) && t == after,
        }
}

/// The node that an identifier stands for by itself.
pub open spec fn identifier_node<'arena>(token: Token<'arena>) -> Node<'arena> {
    if token.kind == TokenKind::Identifier(Identifier::RootReference) {
        Node::Root
    } else {
        Node::Identifier(token.value)
    }
}

/// A call of a built-in function, from its first argument on, and what stands behind it.
pub open spec fn call_run<'arena>(
    ask: Replies<'arena>,
    function: BuiltInFunction,
    s: Cursor<'arena>,
    result: ParserResult<NodeRef<'arena>>,
    t: Cursor<'arena>,
) -> bool {
    exists|arguments: ParserResult<Seq<NodeRef<'arena>>>, after: Cursor<'arena>| #[trigger]
        arguments_run(ask, function.arity_of(), s, arguments, after) && match arguments {
            Ok(list) => exists|node: NodeRef<'arena>|
                is_call(node, function, list) && #[trigger] postfix_run(
                    ask,
                    node,
                    after,
                    result,
                    t,
                ),
            Err(error) => fails(result, error) && t == after,
        }
}

/// The node is a call of this function with these arguments.
pub open spec fn is_call<'arena>(
    node: NodeRef<'arena>,
    function: BuiltInFunction,
    list: Seq<NodeRef<'arena>>,
) -> bool {
    node matches Node::BuiltIn { kind, arguments } && kind == function && arguments@ == list
}

/// The current token can start an identifier or a call.
pub open spec fn at_identifier(s: Cursor) -> bool {
    s.kind() is Identifier || s.kind() is Literal
}

/// An identifier or a call of a built-in function, with what stands behind it.
pub open spec fn identifier_run<'arena>(
    ask: Replies<'arena>,
    s: Cursor<'arena>,
    result: ParserResult<Option<NodeRef<'arena>>>,
    t: Cursor<'arena>,
) -> bool {
    let open = s.advance();
    if !at_identifier(s) {
        gives(result, None) && t == s
    } else if !s.can_advance() {
        runs_out(s, result, t)
    } else if open.kind() != TokenKind::Bracket(Bracket::LeftParenthesis) {
        exists|inner: ParserResult<NodeRef<'arena>>| #[trigger]
            postfix_run(ask, &identifier_node(s.current()), open, inner, t) && result == found(
                inner,
            )
    } else {
        match built_in(s.value()@) {
            Some(function) => if !open.can_advance() {
                runs_out(open, result, t)
            } else {
                exists|inner: ParserResult<NodeRef<'arena>>| #[trigger]
                    call_run(ask, function, open.advance(), inner, t) && result == found(inner)
            },
            None => (result matches Err(error) && error.is_unknown(s.value()@, s.span())) && t
                == open,
        }
    }
}

/// The current token starts a call of a function that takes a closure.
pub open spec fn at_closure_call(s: Cursor) -> bool {
    &&& at_identifier(s)
    &&& s.can_advance()
    &&& s.advance().takes(TokenKind::Bracket(Bracket::LeftParenthesis))
    &&& built_in(s.value()@) matches Some(function) && function.is_closure()
}

/// Whatever is read as the first argument here, the parser can count one closure more behind the
/// comma that follows.
pub open spec fn has_room<'arena>(ask: Replies<'arena>, s: Cursor<'arena>) -> bool {
    forall|first: NodeRef<'arena>, after: Cursor<'arena>|
        #[trigger] answered(ask, s, Ok(first), after) && after.takes(
            TokenKind::Operator(Operator::Comma),
        ) ==> after.depth < u8::MAX
}

/// Where the current token starts a call that takes a closure, the closure is not nested deeper
/// than the parser can count.
pub open spec fn can_nest<'arena>(ask: Replies<'arena>, s: Cursor<'arena>) -> bool {
    at_closure_call(s) ==> has_room(ask, s.advance().advance())
}

/// The right half of an interval, behind its range operator.
pub open spec fn interval_end_run<'arena>(
    ask: Replies<'arena>,
    start: Cursor<'arena>,
    left: NodeRef<'arena>,
    s: Cursor<'arena>,
    result: ParserResult<Option<NodeRef<'arena>>>,
    t: Cursor<'arena>,
) -> bool {
    exists|reply: ParserResult<NodeRef<'arena>>, after: Cursor<'arena>| #[trigger]
        answered(ask, s, reply, after) && match reply {
            Ok(right) => if !(after.kind() is Bracket) {
                gives_up(start, after, result, t)
            } else if !after.can_advance() {
                runs_out(after, result, t)
            } else {
                exists|inner: ParserResult<NodeRef<'arena>>| #[trigger]
                    postfix_run(
                        ask,
                        &Node::Interval {
                            left_bracket: start.value(),
                            left,
                            right,
                            right_bracket: after.value(),
                        },
                        after.advance(),
                        inner,
                        t,
                    ) && result == found(inner)
            },
            Err(_) => gives_up(start, after, result, t),
        }
}

/// There is no interval here: the parser returns to where it started.
pub open spec fn gives_up<'arena>(
    start: Cursor<'arena>,
    s: Cursor<'arena>,
    result: ParserResult<Option<NodeRef<'arena>>>,
    t: Cursor<'arena>,
) -> bool {
    gives(result, None) && t == s.moved_to(start.position)
}

/// The search for an interval: two expressions with a range operator between them, in brackets
/// of any sort. Where the tokens do not form one, there is none, and that is no error.
pub open spec fn interval_search_run<'arena>(
    ask: Replies<'arena>,
    s: Cursor<'arena>,
    result: ParserResult<Option<NodeRef<'arena>>>,
    t: Cursor<'arena>,
) -> bool {
    if !(s.kind() is Bracket) {
        gives(result, None) && t == s
    } else if !s.can_advance() {
        runs_out(s, result, t)
    } else {
        exists|reply: ParserResult<NodeRef<'arena>>, after: Cursor<'arena>| #[trigger]
            answered(ask, s.advance(), reply, after) && match reply {
                Ok(left) => if after.takes(TokenKind::Operator(Operator::Range)) {
                    interval_end_run(ask, s, left, after.advance(), result, t)
                } else {
                    gives_up(s, after, result, t)
                },
                Err(_) => gives_up(s, after, result, t),
            }
    }
}

/// An interval, with what stands behind it. It is searched for only if the tokens hold a range
/// operator.
pub open spec fn interval_run<'arena>(
    ask: Replies<'arena>,
    s: Cursor<'arena>,
    result: ParserResult<Option<NodeRef<'arena>>>,
    t: Cursor<'arena>,
) -> bool {
    if s.ranged() {
        interval_search_run(ask, s, result, t)
    } else {
        gives(result, None) && t == s
    }
}

/// The items of an array from the state `s` on, behind those already read. A comma may stand
/// behind the last one.
pub open spec fn items_run<'arena>(
    ask: Replies<'arena>,
    s: Cursor<'arena>,
    items: Seq<NodeRef<'arena>>,
    result: ParserResult<Seq<NodeRef<'arena>>>,
    t: Cursor<'arena>,
) -> bool
    decreases
            s.remaining(),
            (if items.len() == 0 {
                2int
            } else {
                0int
            }),
{
    let end = TokenKind::Bracket(Bracket::RightSquareBracket);
    let comma = TokenKind::Operator(Operator::Comma);
    if !s.wf() {
        false
    } else if s.kind() == end {
        gives(result, items) && t == s
    } else if items.len() == 0 {
        item_run(ask, s, items, result, t)
    } else if !s.takes(comma) {
        refused(s, comma, result, t)
    } else if s.advance().kind() == end {
        gives(result, items) && t == s.advance()
    } else {
        item_run(ask, s.advance(), items, result, t)
    }
}

/// The next item of an array, and what follows it.
pub open spec fn item_run<'arena>(
    ask: Replies<'arena>,
    s: Cursor<'arena>,
    items: Seq<NodeRef<'arena>>,
    result: ParserResult<Seq<NodeRef<'arena>>>,
    t: Cursor<'arena>,
) -> bool
    decreases s.remaining(), 1int,
{
    s.wf() && exists|reply: ParserResult<NodeRef<'arena>>, after: Cursor<'arena>| #[trigger]
        answered(ask, s, reply, after) && match reply {
            Ok(item) => items_run(ask, after, items.push(item), result, t),
            Err(error) => fails(result, error) && t == after,
        }
}

/// An array, with what stands behind it.
pub open spec fn array_run<'arena>(
    ask: Replies<'arena>,
    s: Cursor<'arena>,
    result: ParserResult<Option<NodeRef<'arena>>>,
    t: Cursor<'arena>,
) -> bool {
    let end = TokenKind::Bracket(Bracket::RightSquareBracket);
    if s.kind() != TokenKind::Bracket(Bracket::LeftSquareBracket) {
        gives(result, None) && t == s
    } else if !s.can_advance() {
        runs_out(s, result, t)
    } else {
        exists|items: ParserResult<Seq<NodeRef<'arena>>>, after: Cursor<'arena>| #[trigger]
            items_run(ask, s.advance(), Seq::empty(), items, after) && match items {
                Ok(list) => if !after.takes(end) {
                    refused(after, end, result, t)
                } else {
                    exists|node: NodeRef<'arena>, inner: ParserResult<NodeRef<'arena>>|
                        is_array(node, list) && #[trigger] postfix_run(
                            ask,
                            node,
                            after.advance(),
                            inner,
                            t,
                        ) && result == found(inner)
                },
                Err(error) => fails(result, error) && t == after,
            }
    }
}

/// The node is an array of these items.
pub open spec fn is_array<'arena>(node: NodeRef<'arena>, list: Seq<NodeRef<'arena>>) -> bool {
    node matches Node::Array(items) && items@ == list
}

/// A key of an object: one word, a text in quotation marks, or an expression in square brackets.
pub open spec fn object_key_run<'arena>(
    ask: Replies<'arena>,
    s: Cursor<'arena>,
    result: ParserResult<NodeRef<'arena>>,
    t: Cursor<'arena>,
) -> bool {
    let end = TokenKind::Bracket(Bracket::RightSquareBracket);
    match s.kind() {
        TokenKind::Identifier(identifier) => token_run(
            Node::String(identifier.text()),
            s,
            result,
            t,
        ),
        TokenKind::Boolean(true) => token_run(Node::String("true"), s, result, t),
        TokenKind::Boolean(false) => token_run(Node::String("false"), s, result, t),
        TokenKind::Number => token_run(Node::String(s.value()), s, result, t),
        TokenKind::Literal => token_run(Node::String(s.value()), s, result, t),
        TokenKind::Bracket(Bracket::LeftSquareBracket) => if !s.can_advance() {
            runs_out(s, result, t)
        } else {
            exists|reply: ParserResult<NodeRef<'arena>>, after: Cursor<'arena>| #[trigger]
                answered(ask, s.advance(), reply, after) && match reply {
                    Ok(key) => if !after.takes(end) {
                        refused(after, end, result, t)
                    } else {
                        gives(result, key) && t == after.advance()
                    },
                    Err(error) => fails(result, error) && t == after,
                }
        },
        TokenKind::QuotationMark(QuotationMark::SingleQuote) => simple_string_run(
            QuotationMark::SingleQuote,
            s,
            result,
            t,
        ),
        TokenKind::QuotationMark(QuotationMark::DoubleQuote) => simple_string_run(
            QuotationMark::DoubleQuote,
            s,
            result,
            t,
        ),
        TokenKind::QuotationMark(QuotationMark::Backtick) | TokenKind::TemplateString(_) => {
            rejected("TemplateString expression not supported as object key"@, s, result) && t == s
        },
        TokenKind::Bracket(_) | TokenKind::Operator(_) => {
            rejected("Operator is not supported as object key"@, s, result) && t == s
        },
    }
}

/// The entries of an object from the state `s` on, behind those already read.
pub open spec fn entries_run<'arena>(
    ask: Replies<'arena>,
    s: Cursor<'arena>,
    entries: Seq<(NodeRef<'arena>, NodeRef<'arena>)>,
    result: ParserResult<Seq<(NodeRef<'arena>, NodeRef<'arena>)>>,
    t: Cursor<'arena>,
) -> bool
    decreases s.remaining(), 1int,
{
    let colon = TokenKind::Operator(Operator::Slice);
    s.wf() && exists|key: ParserResult<NodeRef<'arena>>, after: Cursor<'arena>| #[trigger]
        object_key_run(ask, s, key, after) && s.leads_to(after) && match key {
            Ok(key) => if !after.takes(colon) {
                refused(after, colon, result, t)
            } else {
                entry_value_run(ask, after.advance(), entries, key, result, t)
            },
            Err(error) => fails(result, error) && t == after,
        }
}

/// The value of an entry, and what follows it.
pub open spec fn entry_value_run<'arena>(
    ask: Replies<'arena>,
    s: Cursor<'arena>,
    entries: Seq<(NodeRef<'arena>, NodeRef<'arena>)>,
    key: NodeRef<'arena>,
    result: ParserResult<Seq<(NodeRef<'arena>, NodeRef<'arena>)>>,
    t: Cursor<'arena>,
) -> bool
    decreases s.remaining(), 2int,
{
    let comma = TokenKind::Operator(Operator::Comma);
    s.wf() && exists|reply: ParserResult<NodeRef<'arena>>, after: Cursor<'arena>| #[trigger]
        answered(ask, s, reply, after) && match reply {
            Ok(value) => match after.kind() {
                TokenKind::Operator(Operator::Comma) => if !after.takes(comma) {
                    refused(after, comma, result, t)
                } else {
                    entries_run(ask, after.advance(), entries.push((key, value)), result, t)
                },
                TokenKind::Bracket(Bracket::RightCurlyBracket) => gives(
                    result,
                    entries.push((key, value)),
                ) && t == after,
                _ => surprised("RightCurlyBracket or Comma"@, after, result) && t == after,
            },
            Err(error) => fails(result, error) && t == after,
        }
}

/// The node is an object with these entries.
pub open spec fn is_object<'arena>(
    node: NodeRef<'arena>,
    list: Seq<(NodeRef<'arena>, NodeRef<'arena>)>,
) -> bool {
    node matches Node::Object(entries) && entries@ == list
}

/// An object: entries in curly brackets.
pub open spec fn object_run<'arena>(
    ask: Replies<'arena>,
    s: Cursor<'arena>,
    result: ParserResult<NodeRef<'arena>>,
    t: Cursor<'arena>,
) -> bool {
    let start = TokenKind::Bracket(Bracket::LeftCurlyBracket);
    let end = TokenKind::Bracket(Bracket::RightCurlyBracket);
    let first = s.advance();
    if !s.takes(start) {
        refused(s, start, result, t)
    } else if first.kind() == end {
        if !first.can_advance() {
            runs_out(first, result, t)
        } else {
            (result matches Ok(node) && is_object(node, Seq::empty())) && t == first.advance()
        }
    } else {
        exists|
            entries: ParserResult<Seq<(NodeRef<'arena>, NodeRef<'arena>)>>,
            after: Cursor<'arena>,
        | #[trigger]
            entries_run(ask, first, Seq::empty(), entries, after) && match entries {
                Ok(list) => if !after.takes(end) {
                    refused(after, end, result, t)
                } else {
                    (result matches Ok(node) && is_object(node, list)) && t == after.advance()
                },
                Err(error) => fails(result, error) && t == after,
            }
    }
}

/// The second branch of a conditional, behind its colon.
pub open spec fn on_false_run<'arena>(
    ask: Replies<'arena>,
    condition: NodeRef<'arena>,
    on_true: NodeRef<'arena>,
    s: Cursor<'arena>,
    result: ParserResult<Option<NodeRef<'arena>>>,
    t: Cursor<'arena>,
) -> bool {
    exists|reply: ParserResult<NodeRef<'arena>>| #[trigger]
        answered(ask, s, reply, t) && match reply {
            Ok(on_false) => gives(
                result,
                Some(&Node::Conditional { condition, on_true, on_false }),
            ),
            Err(error) => fails(result, error),
        }
}

/// The branches of a conditional behind its condition.
pub open spec fn conditional_run<'arena>(
    ask: Replies<'arena>,
    condition: NodeRef<'arena>,
    s: Cursor<'arena>,
    result: ParserResult<Option<NodeRef<'arena>>>,
    t: Cursor<'arena>,
) -> bool {
    let colon = TokenKind::Operator(Operator::Slice);
    if s.kind() != TokenKind::Operator(Operator::QuestionMark) {
        gives(result, None) && t == s
    } else if !s.can_advance() {
        runs_out(s, result, t)
    } else {
        exists|reply: ParserResult<NodeRef<'arena>>, after: Cursor<'arena>| #[trigger]
            answered(ask, s.advance(), reply, after) && match reply {
                Ok(on_true) => if !after.takes(colon) {
                    refused(after, colon, result, t)
                } else {
                    on_false_run(ask, condition, on_true, after.advance(), result, t)
                },
                Err(error) => fails(result, error) && t == after,
            }
    }
}

/// Whatever can start with the current token: a number, a string, an array and so on. `parsed`
/// is what the text of the token says as a number.
pub open spec fn literal_run<'arena>(
    ask: Replies<'arena>,
    parsed: Option<Decimal>,
    s: Cursor<'arena>,
    result: ParserResult<NodeRef<'arena>>,
    t: Cursor<'arena>,
) -> bool {
    match s.kind() {
        TokenKind::Identifier(Identifier::Null) => token_run(Node::Null, s, result, t),
        TokenKind::Identifier(_) | TokenKind::Literal => identifier_run(ask, s, found(result), t),
        TokenKind::Boolean(boolean) => token_run(Node::Bool(boolean), s, result, t),
        TokenKind::Number => match parsed {
            Some(decimal) => token_run(Node::Number(decimal), s, result, t),
            None => rejected("Failed to parse number"@, s, result) && t == s,
        },
        TokenKind::QuotationMark(QuotationMark::Backtick) => template_string_run(
            ask,
            s,
            result,
            t,
        ),
        TokenKind::QuotationMark(quote_mark) => simple_string_run(quote_mark, s, result, t),
        TokenKind::Bracket(Bracket::LeftSquareBracket) => {
            ||| interval_run(ask, s, found(result), t)
            ||| exists|back: Cursor<'arena>| #[trigger]
                interval_run(ask, s, Ok(None), back) && array_run(ask, back, found(result), t)
        },
        TokenKind::Bracket(Bracket::LeftCurlyBracket) => object_run(ask, s, result, t),
        TokenKind::Bracket(Bracket::RightCurlyBracket) => rejected(
            "Unexpected RightCurlyBracket token"@,
            s,
            result,
        ) && t == s,
        TokenKind::Bracket(_) => {
            ||| interval_run(ask, s, found(result), t)
            ||| interval_run(ask, s, Ok(None), t) && rejected(
                "Failed to parse interval"@,
                s,
                result,
            )
        },
        TokenKind::Operator(_) => rejected("Unexpected Operator token"@, s, result) && t == s,
        TokenKind::TemplateString(_) => rejected("Unexpected TemplateString token"@, s, result) && t
            == s,
    }
}

} // verus!
