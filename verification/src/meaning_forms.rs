//! What the parser does, in terms of tokens, of answers and of nodes alone: intervals,
//! conditionals, and the choice by the first token.
use crate::ast::{Node, NodeRef};
use crate::cursor::Cursor;
use crate::error::{ParserError, ParserResult};
use crate::grammar::{
    answered, array_run, bool_run, conditional_run, identifier_run, interval_end_run, interval_run,
    literal_run, null_run, number_run, object_run, on_false_run, postfix_run, simple_string_run,
    template_string_run, Replies,
};
use crate::laws::{postfix_keeps_the_node, rests_on};
use crate::meaning::{
    answers, complains, hands_on, is_there, lacks, out_of_tokens, passable, past, sees, token_at,
};
use crate::meaning_chains::{chain_is_read_to_its_end, goes_on};
use crate::token::{Bracket, Operator, TokenKind};
use rust_decimal::Decimal;
use vstd::prelude::*;

verus! {

/// One of the tokens is a range operator.
pub open spec fn holds_a_range(s: Cursor) -> bool {
    exists|i: int|
        0 <= i < s.tokens.len() && (#[trigger] s.tokens[i]).kind == TokenKind::Operator(
            Operator::Range,
        )
}

/// Nothing was found, and the parser stands where it stood, with what it has come to know since.
pub open spec fn nothing_there<'arena>(
    s: Cursor<'arena>,
    m: Cursor<'arena>,
    result: ParserResult<Option<NodeRef<'arena>>>,
    t: Cursor<'arena>,
) -> bool {
    (result matches Ok(None)) && t == Cursor { position: s.position, ..m }
}

/// From this state on, the tokens form an interval: a bracket of any sort, an expression up to
/// `m`, a range operator, an expression up to `n`, and a bracket of any sort.
pub open spec fn spells_an_interval<'arena>(
    ask: Replies<'arena>,
    s: Cursor<'arena>,
    left: NodeRef<'arena>,
    m: Cursor<'arena>,
    right: NodeRef<'arena>,
    n: Cursor<'arena>,
) -> bool {
    &&& token_at(s).kind is Bracket
    &&& passable(s)
    &&& answers(ask, past(s), Ok(left), m)
    &&& sees(m, TokenKind::Operator(Operator::Range))
    &&& answers(ask, past(m), Ok(right), n)
    &&& token_at(n).kind is Bracket
    &&& passable(n)
}

/// Where the tokens form an interval, it is found, whatever its brackets are: it has the texts of
/// its two brackets and its two ends, each on its side, and the chain of accesses behind it is put
/// around it.
pub proof fn spelled_interval_is_found<'arena>(
    ask: Replies<'arena>,
    s: Cursor<'arena>,
    left: NodeRef<'arena>,
    m: Cursor<'arena>,
    right: NodeRef<'arena>,
    n: Cursor<'arena>,
    result: ParserResult<Option<NodeRef<'arena>>>,
    t: Cursor<'arena>,
) -> (inner: ParserResult<NodeRef<'arena>>)
    requires
        s.wf(),
        holds_a_range(s),
        spells_an_interval(ask, s, left, m, right, n),
        interval_run(ask, s, result, t),
    ensures
        ({
            let interval = &Node::Interval {
                left_bracket: token_at(s).value,
                left,
                right,
                right_bracket: token_at(n).value,
            };
            &&& postfix_run(ask, interval, past(n), inner, t)
            &&& is_there(result, inner)
            &&& result matches Ok(option) ==> (option matches Some(node) && rests_on(
                node,
                interval,
            )) && !goes_on(t)
            &&& !goes_on(past(n)) ==> (result matches Ok(Some(node)) && node == interval) && t
                == past(n)
        }),
{
    let interval = &Node::Interval {
        left_bracket: token_at(s).value,
        left,
        right,
        right_bracket: token_at(n).value,
    };
    assert(interval_end_run(ask, s, left, past(m), result, t));
    let inner = choose|inner: ParserResult<NodeRef<'arena>>| #[trigger]
        postfix_run(ask, interval, past(n), inner, t) && is_there(result, inner);
    chain_is_read_to_its_end(ask, interval, past(n), inner, t);
    if let Ok(node) = inner {
        postfix_keeps_the_node(ask, interval, past(n), node, t);
    }
    inner
}

/// Whatever the parser of whole expressions is like, an interval that is found is spelled by the
/// tokens. Returns what it is made of, with the states behind its ends.
pub proof fn found_interval_is_spelled<'arena>(
    ask: Replies<'arena>,
    s: Cursor<'arena>,
    node: NodeRef<'arena>,
    t: Cursor<'arena>,
) -> (read: (NodeRef<'arena>, Cursor<'arena>, NodeRef<'arena>, Cursor<'arena>))
    requires
        s.wf(),
        interval_run(ask, s, Ok(Some(node)), t),
    ensures
        holds_a_range(s),
        token_at(s).kind is Bracket,
        passable(s),
        answered(ask, past(s), Ok(read.0), read.1),
        sees(read.1, TokenKind::Operator(Operator::Range)),
        answered(ask, past(read.1), Ok(read.2), read.3),
        token_at(read.3).kind is Bracket,
        passable(read.3),
        rests_on(
            node,
            &Node::Interval {
                left_bracket: token_at(s).value,
                left: read.0,
                right: read.2,
                right_bracket: token_at(read.3).value,
            },
        ),
        !goes_on(t),
{
    let result: ParserResult<Option<NodeRef<'arena>>> = Ok(Some(node));
    let (first, m) = choose|reply: ParserResult<NodeRef<'arena>>, m: Cursor<'arena>| #[trigger]
        answered(ask, past(s), reply, m) && reply is Ok && sees(
            m,
            TokenKind::Operator(Operator::Range),
        ) && interval_end_run(ask, s, reply->Ok_0, past(m), result, t);
    let left = first->Ok_0;
    assert(interval_end_run(ask, s, left, past(m), result, t));
    let inner: ParserResult<NodeRef<'arena>> = Ok(node);
    let (second, n) = choose|reply: ParserResult<NodeRef<'arena>>, n: Cursor<'arena>| #[trigger]
        answered(ask, past(m), reply, n) && reply is Ok && token_at(n).kind is Bracket && passable(
            n,
        ) && postfix_run(
            ask,
            &Node::Interval {
                left_bracket: token_at(s).value,
                left,
                right: reply->Ok_0,
                right_bracket: token_at(n).value,
            },
            past(n),
            inner,
            t,
        );
    let right = second->Ok_0;
    let interval = &Node::Interval {
        left_bracket: token_at(s).value,
        left,
        right,
        right_bracket: token_at(n).value,
    };
    postfix_keeps_the_node(ask, interval, past(n), node, t);
    chain_is_read_to_its_end(ask, interval, past(n), inner, t);
    (left, m, right, n)
}

/// Where the tokens hold no range operator, or do not start with a bracket, there is no interval
/// and nothing is read.
pub proof fn interval_needs_a_range_and_a_bracket<'arena>(
    ask: Replies<'arena>,
    s: Cursor<'arena>,
    result: ParserResult<Option<NodeRef<'arena>>>,
    t: Cursor<'arena>,
)
    requires
        s.wf(),
        interval_run(ask, s, result, t),
    ensures
        !holds_a_range(s) || !(token_at(s).kind is Bracket) ==> nothing_there(s, s, result, t),
        holds_a_range(s) && token_at(s).kind is Bracket && !passable(s) ==> out_of_tokens(
            s,
            result,
            t,
        ),
{
}

/// Where a part of an interval is missing, there is none: the parser goes back, and it is no
/// error, whatever was read in between. Only a closing bracket behind the end is out of bounds.
pub proof fn broken_interval_is_none<'arena>(
    ask: Replies<'arena>,
    s: Cursor<'arena>,
    result: ParserResult<Option<NodeRef<'arena>>>,
    t: Cursor<'arena>,
)
    requires
        s.wf(),
        holds_a_range(s),
        token_at(s).kind is Bracket,
        passable(s),
        interval_run(ask, s, result, t),
    ensures
        ({
            let range = TokenKind::Operator(Operator::Range);
            &&& forall|error: ParserError, m: Cursor<'arena>| #[trigger]
                answers(ask, past(s), Err(error), m) ==> nothing_there(s, m, result, t)
            &&& forall|left: NodeRef<'arena>, m: Cursor<'arena>| #[trigger]
                answers(ask, past(s), Ok(left), m) && !sees(m, range) ==> nothing_there(
                    s,
                    m,
                    result,
                    t,
                )
            &&& forall|
                left: NodeRef<'arena>,
                m: Cursor<'arena>,
                error: ParserError,
                n: Cursor<'arena>,
            | #[trigger]
                answers(ask, past(s), Ok(left), m) && sees(m, range) && #[trigger] answers(
                    ask,
                    past(m),
                    Err(error),
                    n,
                ) ==> nothing_there(s, n, result, t)
            &&& forall|
                left: NodeRef<'arena>,
                m: Cursor<'arena>,
                right: NodeRef<'arena>,
                n: Cursor<'arena>,
            | #[trigger]
                answers(ask, past(s), Ok(left), m) && sees(m, range) && #[trigger] answers(
                    ask,
                    past(m),
                    Ok(right),
                    n,
                ) && !(token_at(n).kind is Bracket) ==> nothing_there(s, n, result, t)
            &&& forall|
                left: NodeRef<'arena>,
                m: Cursor<'arena>,
                right: NodeRef<'arena>,
                n: Cursor<'arena>,
            | #[trigger]
                answers(ask, past(s), Ok(left), m) && sees(m, range) && #[trigger] answers(
                    ask,
                    past(m),
                    Ok(right),
                    n,
                ) && token_at(n).kind is Bracket && !passable(n) ==> out_of_tokens(n, result, t)
        }),
{
    let range = TokenKind::Operator(Operator::Range);
    assert forall|left: NodeRef<'arena>, m: Cursor<'arena>| #[trigger]
        answers(ask, past(s), Ok(left), m) && sees(m, range) implies interval_end_run(
        ask,
        s,
        left,
        past(m),
        result,
        t,
    ) by {}
}

/// A conditional is the condition that stands before the question mark, the answer behind the
/// question mark and the answer behind the colon, each as it is. Any other token starts none.
pub proof fn conditional_has_its_three_parts<'arena>(
    ask: Replies<'arena>,
    condition: NodeRef<'arena>,
    s: Cursor<'arena>,
    result: ParserResult<Option<NodeRef<'arena>>>,
    t: Cursor<'arena>,
)
    requires
        s.wf(),
        conditional_run(ask, condition, s, result, t),
    ensures
        ({
            let question = TokenKind::Operator(Operator::QuestionMark);
            let colon = TokenKind::Operator(Operator::Slice);
            &&& token_at(s).kind != question ==> (result matches Ok(None)) && t == s
            &&& token_at(s).kind == question && !passable(s) ==> out_of_tokens(s, result, t)
            &&& sees(s, question) ==> {
                &&& forall|error: ParserError, m: Cursor<'arena>| #[trigger]
                    answers(ask, past(s), Err(error), m) ==> hands_on(result, error) && t == m
                &&& forall|yes: NodeRef<'arena>, m: Cursor<'arena>| #[trigger]
                    answers(ask, past(s), Ok(yes), m) && !sees(m, colon) ==> lacks(
                        m,
                        colon,
                        result,
                        t,
                    )
                &&& forall|
                    yes: NodeRef<'arena>,
                    m: Cursor<'arena>,
                    error: ParserError,
                    n: Cursor<'arena>,
                | #[trigger]
                    answers(ask, past(s), Ok(yes), m) && sees(m, colon) && #[trigger] answers(
                        ask,
                        past(m),
                        Err(error),
                        n,
                    ) ==> hands_on(result, error) && t == n
                &&& forall|
                    yes: NodeRef<'arena>,
                    m: Cursor<'arena>,
                    no: NodeRef<'arena>,
                    n: Cursor<'arena>,
                | #[trigger]
                    answers(ask, past(s), Ok(yes), m) && sees(m, colon) && #[trigger] answers(
                        ask,
                        past(m),
                        Ok(no),
                        n,
                    ) ==> (result matches Ok(Some(node)) && (node matches Node::Conditional {
                        condition: tested,
                        on_true,
                        on_false,
                    } && tested == condition && on_true == yes && on_false == no)) && t == n
            }
        }),
{
    let colon = TokenKind::Operator(Operator::Slice);
    assert forall|yes: NodeRef<'arena>, m: Cursor<'arena>| #[trigger]
        answers(ask, past(s), Ok(yes), m) && sees(m, colon) && sees(
            s,
            TokenKind::Operator(Operator::QuestionMark),
        ) implies on_false_run(ask, condition, yes, past(m), result, t) by {}
}

/// Whatever the parser of whole expressions is like, the branches of a conditional that is found
/// are its answers behind the question mark and behind the colon. Returns the state between them.
pub proof fn found_conditional_is_spelled<'arena>(
    ask: Replies<'arena>,
    condition: NodeRef<'arena>,
    s: Cursor<'arena>,
    node: NodeRef<'arena>,
    t: Cursor<'arena>,
) -> (middle: Cursor<'arena>)
    requires
        s.wf(),
        conditional_run(ask, condition, s, Ok(Some(node)), t),
    ensures
        sees(s, TokenKind::Operator(Operator::QuestionMark)),
        sees(middle, TokenKind::Operator(Operator::Slice)),
        node matches Node::Conditional { condition: tested, on_true, on_false } && *tested
            == condition && answered(ask, past(s), Ok(*on_true), middle) && answered(
            ask,
            past(middle),
            Ok(*on_false),
            t,
        ),
{
    let result: ParserResult<Option<NodeRef<'arena>>> = Ok(Some(node));
    let (first, m) = choose|reply: ParserResult<NodeRef<'arena>>, m: Cursor<'arena>| #[trigger]
        answered(ask, past(s), reply, m) && reply is Ok && sees(
            m,
            TokenKind::Operator(Operator::Slice),
        ) && on_false_run(ask, condition, reply->Ok_0, past(m), result, t);
    assert(on_false_run(ask, condition, first->Ok_0, past(m), result, t));
    m
}

/// No literal starts with a closing curly bracket, an operator or a mark inside a template: each
/// is reported as such, and nothing is read.
pub proof fn no_literal_starts_there<'arena>(
    ask: Replies<'arena>,
    parsed: Option<Decimal>,
    s: Cursor<'arena>,
    result: ParserResult<NodeRef<'arena>>,
    t: Cursor<'arena>,
)
    requires
        s.wf(),
        literal_run(ask, parsed, s, result, t),
    ensures
        token_at(s).kind is Operator ==> complains(result, "Unexpected Operator token"@, s) && t
            == s,
        token_at(s).kind is TemplateString ==> complains(
            result,
            "Unexpected TemplateString token"@,
            s,
        ) && t == s,
        token_at(s).kind == TokenKind::Bracket(Bracket::RightCurlyBracket) ==> complains(
            result,
            "Unexpected RightCurlyBracket token"@,
            s,
        ) && t == s,
{
}

/// What a literal is, goes by its first token alone: each token starts one construct, and the
/// literal is what that construct is there.
pub proof fn first_token_chooses_the_construct<'arena>(
    ask: Replies<'arena>,
    parsed: Option<Decimal>,
    s: Cursor<'arena>,
    result: ParserResult<NodeRef<'arena>>,
    t: Cursor<'arena>,
) -> (option: ParserResult<Option<NodeRef<'arena>>>)
    requires
        s.wf(),
        literal_run(ask, parsed, s, result, t),
    ensures
        is_there(option, result),
        match token_at(s).kind {
            TokenKind::Identifier(identifier) => if identifier is Null {
                null_run(s, option, t)
            } else {
                identifier_run(ask, s, option, t)
            },
            TokenKind::Literal => identifier_run(ask, s, option, t),
            TokenKind::Boolean(_) => bool_run(s, option, t),
            TokenKind::Number => if parsed is Some {
                number_run(parsed, s, option, t)
            } else {
                complains(result, "Failed to parse number"@, s) && t == s
            },
            TokenKind::QuotationMark(mark) => if mark is Backtick {
                template_string_run(ask, s, result, t)
            } else {
                simple_string_run(mark, s, result, t)
            },
            TokenKind::Bracket(bracket) => bracket is LeftCurlyBracket ==> object_run(
                ask,
                s,
                result,
                t,
            ),
            _ => true,
        },
{
    match result {
        Ok(node) => Ok(Some(node)),
        Err(error) => Err(error),
    }
}

/// Where a round bracket or a closing square bracket stands first, a literal is the interval that
/// the tokens form there, and where they form none, an error says so.
pub proof fn bracket_starts_an_interval<'arena>(
    ask: Replies<'arena>,
    parsed: Option<Decimal>,
    s: Cursor<'arena>,
    result: ParserResult<NodeRef<'arena>>,
    t: Cursor<'arena>,
) -> (option: ParserResult<Option<NodeRef<'arena>>>)
    requires
        s.wf(),
        ({
            let kind = token_at(s).kind;
            ||| kind == TokenKind::Bracket(Bracket::LeftParenthesis)
            ||| kind == TokenKind::Bracket(Bracket::RightParenthesis)
            ||| kind == TokenKind::Bracket(Bracket::RightSquareBracket)
        }),
        literal_run(ask, parsed, s, result, t),
    ensures
        is_there(option, result),
        interval_run(ask, s, option, t) || (interval_run(ask, s, Ok(None), t) && complains(
            result,
            "Failed to parse interval"@,
            s,
        )),
        result is Ok ==> holds_a_range(s),
        !holds_a_range(s) ==> complains(result, "Failed to parse interval"@, s) && t == s,
        forall|left: NodeRef<'arena>, m: Cursor<'arena>, right: NodeRef<'arena>, n: Cursor<'arena>|
            holds_a_range(s) && #[trigger] spells_an_interval(ask, s, left, m, right, n)
                ==> interval_run(ask, s, option, t),
        forall|left: NodeRef<'arena>, m: Cursor<'arena>, right: NodeRef<'arena>, n: Cursor<'arena>|
            holds_a_range(s) && #[trigger] spells_an_interval(ask, s, left, m, right, n)
                && !goes_on(past(n)) ==> (result matches Ok(node) && node == Node::Interval {
                left_bracket: token_at(s).value,
                left,
                right,
                right_bracket: token_at(n).value,
            }) && t == past(n),
{
    let option: ParserResult<Option<NodeRef<'arena>>> = match result {
        Ok(node) => Ok(Some(node)),
        Err(error) => Err(error),
    };
    assert forall|
        left: NodeRef<'arena>,
        m: Cursor<'arena>,
        right: NodeRef<'arena>,
        n: Cursor<'arena>,
    |
        holds_a_range(s) && #[trigger] spells_an_interval(ask, s, left, m, right, n) implies (
    interval_run(ask, s, option, t)) && (!goes_on(past(n)) ==> (result matches Ok(node) && node
        == Node::Interval {
        left_bracket: token_at(s).value,
        left,
        right,
        right_bracket: token_at(n).value,
    }) && t == past(n)) by {
        if interval_run(ask, s, option, t) {
            spelled_interval_is_found(ask, s, left, m, right, n, option, t);
        } else {
            spelled_interval_is_found(ask, s, left, m, right, n, Ok(None), t);
        }
    }    option
}

/// Where an opening square bracket stands first, a literal is the interval that the tokens form
/// there; where the search for one finds nothing, it is the array there.
pub proof fn square_bracket_starts_an_interval_or_an_array<'arena>(
    ask: Replies<'arena>,
    parsed: Option<Decimal>,
    s: Cursor<'arena>,
    result: ParserResult<NodeRef<'arena>>,
    t: Cursor<'arena>,
) -> (read: (ParserResult<Option<NodeRef<'arena>>>, Cursor<'arena>))
    requires
        s.wf(),
        token_at(s).kind == TokenKind::Bracket(Bracket::LeftSquareBracket),
        literal_run(ask, parsed, s, result, t),
    ensures
        is_there(read.0, result),
        interval_run(ask, s, read.0, t) || (interval_run(ask, s, Ok(None), read.1) && array_run(
            ask,
            read.1,
            read.0,
            t,
        )),
        !holds_a_range(s) ==> array_run(ask, s, read.0, t),
        forall|left: NodeRef<'arena>, m: Cursor<'arena>, right: NodeRef<'arena>, n: Cursor<'arena>|
            holds_a_range(s) && #[trigger] spells_an_interval(ask, s, left, m, right, n)
                ==> interval_run(ask, s, read.0, t),
        forall|left: NodeRef<'arena>, m: Cursor<'arena>, right: NodeRef<'arena>, n: Cursor<'arena>|
            holds_a_range(s) && #[trigger] spells_an_interval(ask, s, left, m, right, n)
                && !goes_on(past(n)) ==> (result matches Ok(node) && node == Node::Interval {
                left_bracket: token_at(s).value,
                left,
                right,
                right_bracket: token_at(n).value,
            }) && t == past(n),
{
    let option: ParserResult<Option<NodeRef<'arena>>> = match result {
        Ok(node) => Ok(Some(node)),
        Err(error) => Err(error),
    };
    let back = choose|back: Cursor<'arena>| #[trigger]
        interval_run(ask, s, Ok(None), back) && array_run(ask, back, option, t);
    assert forall|
        left: NodeRef<'arena>,
        m: Cursor<'arena>,
        right: NodeRef<'arena>,
        n: Cursor<'arena>,
    |
        holds_a_range(s) && #[trigger] spells_an_interval(ask, s, left, m, right, n) implies (
    interval_run(ask, s, option, t)) && (!goes_on(past(n)) ==> (result matches Ok(node) && node
        == Node::Interval {
        left_bracket: token_at(s).value,
        left,
        right,
        right_bracket: token_at(n).value,
    }) && t == past(n)) by {
        if interval_run(ask, s, option, t) {
            spelled_interval_is_found(ask, s, left, m, right, n, option, t);
        } else {
            spelled_interval_is_found(ask, s, left, m, right, n, Ok(None), back);
        }
    }
    (option, back)
}

} // verus!
