//! What the parser does, in terms of tokens, of answers and of nodes alone: identifiers, calls, and
//! the accesses behind a node.
use crate::ast::{Node, NodeRef};
use crate::builtin::{Arity, BuiltInFunction};
use crate::cursor::Cursor;
use crate::error::{ParserError, ParserResult};
use crate::grammar::{
    answered, arguments_run, call_run, closure_run, fails, gives, identifier_run, is_call,
    last_argument_run, literal_run, postfix_run, refused, subscript_run, Replies,
};
use crate::meaning::{
    answers, functions_are_found_by_their_name, hands_on, is_there, lacks, names_a_member,
    out_of_tokens, passable, past, sees, token_at, unexpected,
};
use crate::progress::{call_never_goes_back, postfix_never_goes_back};
use crate::token::{Bracket, Identifier, Operator, TokenKind};
use rust_decimal::Decimal;
use vstd::prelude::*;

verus! {

/// The token in view goes on with the node before it: a dot or an opening square bracket.
pub open spec fn goes_on(s: Cursor) -> bool {
    ||| token_at(s).kind == TokenKind::Operator(Operator::Dot)
    ||| token_at(s).kind == TokenKind::Bracket(Bracket::LeftSquareBracket)
}

/// The state inside one closure more.
pub open spec fn inside<'arena>(s: Cursor<'arena>) -> Cursor<'arena> {
    Cursor { depth: s.depth + 1, ..s }
}

/// The state inside one closure less.
pub open spec fn outside<'arena>(s: Cursor<'arena>) -> Cursor<'arena> {
    Cursor { depth: s.depth - 1, ..s }
}

/// From an opening square bracket on, a slice comes as far as behind its colon: right away if it
/// has no start, or else with the start that is read in between, up to `m`.
pub open spec fn opens_slice<'arena>(
    ask: Replies<'arena>,
    s: Cursor<'arena>,
    from: Option<NodeRef<'arena>>,
    m: Cursor<'arena>,
    q: Cursor<'arena>,
) -> bool {
    let colon = TokenKind::Operator(Operator::Slice);
    &&& sees(s, TokenKind::Bracket(Bracket::LeftSquareBracket))
    &&& sees(m, colon)
    &&& q == past(m)
    &&& match from {
        None => m == past(s),
        Some(start) => token_at(past(s)).kind != colon && answers(ask, past(s), Ok(start), m),
    }
}

/// Where a chain of accesses has been read, none is left: the next token is neither a dot nor an
/// opening square bracket. Where there is none, the node is the one before it, and nothing is read.
pub proof fn chain_is_read_to_its_end<'arena>(
    ask: Replies<'arena>,
    node: NodeRef<'arena>,
    s: Cursor<'arena>,
    result: ParserResult<NodeRef<'arena>>,
    t: Cursor<'arena>,
)
    requires
        s.wf(),
        postfix_run(ask, node, s, result, t),
    ensures
        result is Ok ==> !goes_on(t),
        !goes_on(s) ==> (result matches Ok(same) && same == node) && t == s,
    decreases s.remaining(),
{
    let property = s.advance();
    let member = &Node::Member { node, property: &Node::String(property.value()) };
    if result is Ok {
        if s.kind() == TokenKind::Operator(Operator::Dot) {
            chain_is_read_to_its_end(ask, member, property.advance(), result, t);
        } else if s.kind() == TokenKind::Bracket(Bracket::LeftSquareBracket) {
            let (inner, after) = choose|
                inner: ParserResult<NodeRef<'arena>>,
                after: Cursor<'arena>,
            | #[trigger]
                subscript_run(ask, node, s.advance(), inner, after) && s.advance().leads_to(after)
                    && match inner {
                    Ok(accessed) => postfix_run(ask, accessed, after, result, t),
                    Err(error) => fails(result, error) && t == after,
                };
            chain_is_read_to_its_end(ask, inner->Ok_0, after, result, t);
        }
    }
}

/// A dot and a name behind a node make a member of that node under the text of the name, and the
/// chain goes on from that member. A token that is no name is reported at the dot.
pub proof fn dot_makes_a_member<'arena>(
    ask: Replies<'arena>,
    node: NodeRef<'arena>,
    s: Cursor<'arena>,
    result: ParserResult<NodeRef<'arena>>,
    t: Cursor<'arena>,
)
    requires
        s.wf(),
        token_at(s).kind == TokenKind::Operator(Operator::Dot),
        postfix_run(ask, node, s, result, t),
    ensures
        ({
            let name = past(s);
            let behind = past(name);
            &&& !passable(s) ==> out_of_tokens(s, result, t)
            &&& passable(s) && !passable(name) ==> out_of_tokens(name, result, t)
            &&& passable(s) && passable(name) && !names_a_member(token_at(name).kind) ==> (
            result matches Err(error) && unexpected(error, "valid property"@, s)) && t == behind
            &&& passable(s) && passable(name) && names_a_member(token_at(name).kind)
                ==> postfix_run(
                ask,
                &Node::Member { node, property: &Node::String(token_at(name).value) },
                behind,
                result,
                t,
            )
        }),
{
}

/// An expression in square brackets behind a node makes a member of that node under that
/// expression, and the chain goes on from that member.
pub proof fn index_makes_a_member<'arena>(
    ask: Replies<'arena>,
    node: NodeRef<'arena>,
    s: Cursor<'arena>,
    result: ParserResult<NodeRef<'arena>>,
    t: Cursor<'arena>,
)
    requires
        s.wf(),
        sees(s, TokenKind::Bracket(Bracket::LeftSquareBracket)),
        token_at(past(s)).kind != TokenKind::Operator(Operator::Slice),
        postfix_run(ask, node, s, result, t),
    ensures
        ({
            let end = TokenKind::Bracket(Bracket::RightSquareBracket);
            let colon = TokenKind::Operator(Operator::Slice);
            &&& forall|index: NodeRef<'arena>, m: Cursor<'arena>| #[trigger]
                answers(ask, past(s), Ok(index), m) && sees(m, end) ==> postfix_run(
                    ask,
                    &Node::Member { node, property: index },
                    past(m),
                    result,
                    t,
                )
            &&& forall|index: NodeRef<'arena>, m: Cursor<'arena>| #[trigger]
                answers(ask, past(s), Ok(index), m) && !sees(m, end) && token_at(m).kind != colon
                    ==> lacks(m, end, result, t)
            &&& forall|index: NodeRef<'arena>, m: Cursor<'arena>| #[trigger]
                answers(ask, past(s), Ok(index), m) && token_at(m).kind == colon && !passable(m)
                    ==> out_of_tokens(m, result, t)
            &&& forall|error: ParserError, m: Cursor<'arena>| #[trigger]
                answers(ask, past(s), Err(error), m) ==> hands_on(result, error) && t == m
        }),
{
}

/// A colon in square brackets behind a node makes a slice of that node: what stands before the
/// colon is its start, what stands behind it is its end, and either may be left out. The chain
/// goes on from that slice.
pub proof fn colon_makes_a_slice<'arena>(
    ask: Replies<'arena>,
    node: NodeRef<'arena>,
    s: Cursor<'arena>,
    from: Option<NodeRef<'arena>>,
    m: Cursor<'arena>,
    q: Cursor<'arena>,
    result: ParserResult<NodeRef<'arena>>,
    t: Cursor<'arena>,
)
    requires
        s.wf(),
        opens_slice(ask, s, from, m, q),
        postfix_run(ask, node, s, result, t),
    ensures
        ({
            let end = TokenKind::Bracket(Bracket::RightSquareBracket);
            &&& sees(q, end) ==> postfix_run(
                ask,
                &Node::Slice { node, from, to: None },
                past(q),
                result,
                t,
            )
            &&& token_at(q).kind == end && !passable(q) ==> out_of_tokens(q, result, t)
            &&& token_at(q).kind != end ==> {
                &&& forall|to: NodeRef<'arena>, n: Cursor<'arena>| #[trigger]
                    answers(ask, q, Ok(to), n) && sees(n, end) ==> postfix_run(
                        ask,
                        &Node::Slice { node, from, to: Some(to) },
                        past(n),
                        result,
                        t,
                    )
                &&& forall|to: NodeRef<'arena>, n: Cursor<'arena>| #[trigger]
                    answers(ask, q, Ok(to), n) && !sees(n, end) ==> lacks(n, end, result, t)
                &&& forall|error: ParserError, n: Cursor<'arena>| #[trigger]
                    answers(ask, q, Err(error), n) ==> hands_on(result, error) && t == n
            }
        }),
{
}

/// A square bracket or a colon behind it that cannot be passed ends in an error there.
pub proof fn bracket_needs_a_token<'arena>(
    ask: Replies<'arena>,
    node: NodeRef<'arena>,
    s: Cursor<'arena>,
    result: ParserResult<NodeRef<'arena>>,
    t: Cursor<'arena>,
)
    requires
        s.wf(),
        token_at(s).kind == TokenKind::Bracket(Bracket::LeftSquareBracket),
        postfix_run(ask, node, s, result, t),
    ensures
        !passable(s) ==> out_of_tokens(s, result, t),
        passable(s) && token_at(past(s)).kind == TokenKind::Operator(Operator::Slice) && !passable(
            past(s),
        ) ==> out_of_tokens(past(s), result, t),
{
}

/// The body of a closure is read one closure deeper, and the closure is that body.
pub proof fn closure_is_its_body<'arena>(
    ask: Replies<'arena>,
    s: Cursor<'arena>,
    result: ParserResult<NodeRef<'arena>>,
    t: Cursor<'arena>,
)
    requires
        s.wf(),
        closure_run(ask, s, result, t),
    ensures
        forall|body: NodeRef<'arena>, m: Cursor<'arena>| #[trigger]
            answers(ask, inside(s), Ok(body), m) ==> (result matches Ok(node) && node
                == Node::Closure(body)) && t == outside(m),
        forall|error: ParserError, m: Cursor<'arena>| #[trigger]
            answers(ask, inside(s), Err(error), m) ==> hands_on(result, error) && t == m,
{
}

/// A function of one argument has the expression that is asked for behind the parenthesis.
pub proof fn single_argument_is_the_answer<'arena>(
    ask: Replies<'arena>,
    s: Cursor<'arena>,
    result: ParserResult<Seq<NodeRef<'arena>>>,
    t: Cursor<'arena>,
)
    requires
        s.wf(),
        arguments_run(ask, Arity::Single, s, result, t),
    ensures
        ({
            let close = TokenKind::Bracket(Bracket::RightParenthesis);
            &&& forall|only: NodeRef<'arena>, m: Cursor<'arena>| #[trigger]
                answers(ask, s, Ok(only), m) && sees(m, close) ==> (result matches Ok(list)
                    && list.len() == 1 && list[0] == only) && t == past(m)
            &&& forall|only: NodeRef<'arena>, m: Cursor<'arena>| #[trigger]
                answers(ask, s, Ok(only), m) && !sees(m, close) ==> lacks(m, close, result, t)
            &&& forall|error: ParserError, m: Cursor<'arena>| #[trigger]
                answers(ask, s, Err(error), m) ==> hands_on(result, error) && t == m
        }),
{
}

/// The arguments of a function of two expressions come in the order in which they are written:
/// first the answer behind the parenthesis, then the answer behind the comma.
pub proof fn two_arguments_come_in_order<'arena>(
    ask: Replies<'arena>,
    s: Cursor<'arena>,
    first: NodeRef<'arena>,
    m: Cursor<'arena>,
    result: ParserResult<Seq<NodeRef<'arena>>>,
    t: Cursor<'arena>,
)
    requires
        s.wf(),
        answers(ask, s, Ok(first), m),
        arguments_run(ask, Arity::Dual, s, result, t),
    ensures
        ({
            let close = TokenKind::Bracket(Bracket::RightParenthesis);
            let comma = TokenKind::Operator(Operator::Comma);
            &&& !sees(m, comma) ==> lacks(m, comma, result, t)
            &&& sees(m, comma) ==> {
                &&& forall|second: NodeRef<'arena>, n: Cursor<'arena>| #[trigger]
                    answers(ask, past(m), Ok(second), n) && sees(n, close) ==> (
                    result matches Ok(list) && list.len() == 2 && list[0] == first && list[1]
                        == second) && t == past(n)
                &&& forall|second: NodeRef<'arena>, n: Cursor<'arena>| #[trigger]
                    answers(ask, past(m), Ok(second), n) && !sees(n, close) ==> lacks(
                        n,
                        close,
                        result,
                        t,
                    )
                &&& forall|error: ParserError, n: Cursor<'arena>| #[trigger]
                    answers(ask, past(m), Err(error), n) ==> hands_on(result, error) && t == n
            }
        }),
{
    if sees(m, TokenKind::Operator(Operator::Comma)) {
        assert(last_argument_run(ask, Arity::Dual, first, past(m), result, t));
    }
}

/// A function that takes a closure has the answer behind the parenthesis as its first argument,
/// and as its second the closure around the answer behind the comma.
pub proof fn closure_comes_second<'arena>(
    ask: Replies<'arena>,
    s: Cursor<'arena>,
    first: NodeRef<'arena>,
    m: Cursor<'arena>,
    result: ParserResult<Seq<NodeRef<'arena>>>,
    t: Cursor<'arena>,
)
    requires
        s.wf(),
        answers(ask, s, Ok(first), m),
        arguments_run(ask, Arity::Closure, s, result, t),
    ensures
        ({
            let close = TokenKind::Bracket(Bracket::RightParenthesis);
            let comma = TokenKind::Operator(Operator::Comma);
            &&& !sees(m, comma) ==> lacks(m, comma, result, t)
            &&& sees(m, comma) ==> {
                &&& forall|body: NodeRef<'arena>, n: Cursor<'arena>| #[trigger]
                    answers(ask, inside(past(m)), Ok(body), n) && sees(outside(n), close) ==> (
                    result matches Ok(list) && list.len() == 2 && list[0] == first && list[1]
                        == Node::Closure(body)) && t == past(outside(n))
                &&& forall|body: NodeRef<'arena>, n: Cursor<'arena>| #[trigger]
                    answers(ask, inside(past(m)), Ok(body), n) && !sees(outside(n), close)
                        ==> lacks(outside(n), close, result, t)
                &&& forall|error: ParserError, n: Cursor<'arena>| #[trigger]
                    answers(ask, inside(past(m)), Err(error), n) ==> hands_on(result, error) && t
                        == n
            }
        }),
{
    if sees(m, TokenKind::Operator(Operator::Comma)) {
        assert(last_argument_run(ask, Arity::Closure, first, past(m), result, t));
    }
}

/// Where the first of two arguments fails, so does the call, with the same error.
pub proof fn failed_first_argument_is_handed_on<'arena>(
    ask: Replies<'arena>,
    arity: Arity,
    s: Cursor<'arena>,
    error: ParserError,
    m: Cursor<'arena>,
    result: ParserResult<Seq<NodeRef<'arena>>>,
    t: Cursor<'arena>,
)
    requires
        s.wf(),
        answers(ask, s, Err(error), m),
        arguments_run(ask, arity, s, result, t),
    ensures
        hands_on(result, error),
        t == m,
{
}

/// Whatever the parser of whole expressions is like, the arguments of a call are its answers in
/// the order of the places where it was asked. Returns the states in which it answered.
pub proof fn arguments_are_answers_in_order<'arena>(
    ask: Replies<'arena>,
    arity: Arity,
    s: Cursor<'arena>,
    list: Seq<NodeRef<'arena>>,
    t: Cursor<'arena>,
) -> (ends: (Cursor<'arena>, Cursor<'arena>))
    requires
        s.wf(),
        arguments_run(ask, arity, s, Ok(list), t),
    ensures
        list.len() == (if arity is Single {
            1int
        } else {
            2int
        }),
        answered(ask, s, Ok(list[0]), ends.0),
        arity is Single ==> sees(ends.0, TokenKind::Bracket(Bracket::RightParenthesis)) && t
            == past(ends.0),
        !(arity is Single) ==> sees(ends.0, TokenKind::Operator(Operator::Comma)),
        arity is Dual ==> answered(ask, past(ends.0), Ok(list[1]), ends.1) && sees(
            ends.1,
            TokenKind::Bracket(Bracket::RightParenthesis),
        ) && t == past(ends.1),
        arity is Closure ==> (list[1] matches Node::Closure(body) && answered(
            ask,
            inside(past(ends.0)),
            Ok(*body),
            ends.1,
        )) && sees(outside(ends.1), TokenKind::Bracket(Bracket::RightParenthesis)) && t == past(
            outside(ends.1),
        ),
{
    let close = TokenKind::Bracket(Bracket::RightParenthesis);
    let comma = TokenKind::Operator(Operator::Comma);
    let result: ParserResult<Seq<NodeRef<'arena>>> = Ok(list);
    let (reply, m) = choose|reply: ParserResult<NodeRef<'arena>>, m: Cursor<'arena>| #[trigger]
        answered(ask, s, reply, m) && match reply {
            Ok(first) => if arity is Single {
                if !m.takes(close) {
                    refused(m, close, result, t)
                } else {
                    gives(result, seq![first]) && t == m.advance()
                }
            } else if !m.takes(comma) {
                refused(m, comma, result, t)
            } else {
                last_argument_run(ask, arity, first, m.advance(), result, t)
            },
            Err(error) => fails(result, error) && t == m,
        };
    if arity is Dual {
        let (second, n) = choose|second: ParserResult<NodeRef<'arena>>, n: Cursor<'arena>|
            #[trigger]
            answered(ask, past(m), second, n) && second is Ok && list == seq![
                reply->Ok_0,
                second->Ok_0,
            ] && n.takes(close) && t == n.advance();
        (m, n)
    } else if arity is Closure {
        let (second, n) = choose|second: ParserResult<NodeRef<'arena>>, n: Cursor<'arena>|
            #[trigger]
            closure_run(ask, past(m), second, n) && second is Ok && list == seq![
                reply->Ok_0,
                second->Ok_0,
            ] && n.takes(close) && t == n.advance();
        let (body, k) = choose|body: ParserResult<NodeRef<'arena>>, k: Cursor<'arena>| #[trigger]
            answered(ask, past(m).entered(), body, k) && body is Ok && second->Ok_0
                == Node::Closure(body->Ok_0) && n == k.left();
        (m, k)
    } else {
        (m, m)
    }
}

/// A word or an identifier without a parenthesis behind it is a name, `$root` is the root, and
/// both are followed by a chain of accesses. No other token starts a name or a call.
pub proof fn name_has_its_chain<'arena>(
    ask: Replies<'arena>,
    s: Cursor<'arena>,
    result: ParserResult<Option<NodeRef<'arena>>>,
    t: Cursor<'arena>,
)
    requires
        s.wf(),
        identifier_run(ask, s, result, t),
    ensures
        ({
            let word = token_at(s).kind is Literal || token_at(s).kind is Identifier;
            let root = token_at(s).kind == TokenKind::Identifier(Identifier::RootReference);
            let call = token_at(past(s)).kind == TokenKind::Bracket(Bracket::LeftParenthesis);
            &&& !word ==> (result matches Ok(None)) && t == s
            &&& word && !passable(s) ==> out_of_tokens(s, result, t)
            &&& word && passable(s) && !call && root ==> exists|
                inner: ParserResult<NodeRef<'arena>>,
            | #[trigger]
                postfix_run(ask, &Node::Root, past(s), inner, t) && is_there(result, inner)
            &&& word && passable(s) && !call && !root ==> exists|
                inner: ParserResult<NodeRef<'arena>>,
            | #[trigger]
                postfix_run(ask, &Node::Identifier(token_at(s).value), past(s), inner, t)
                    && is_there(result, inner)
        }),
{
}

/// Where a name or a call has been read, no access behind it is left.
pub proof fn names_are_read_to_their_end<'arena>(
    ask: Replies<'arena>,
    s: Cursor<'arena>,
    node: NodeRef<'arena>,
    t: Cursor<'arena>,
)
    requires
        s.wf(),
        identifier_run(ask, s, Ok(Some(node)), t),
    ensures
        !goes_on(t),
        s.position < t.position,
{
    assert forall|
        base: NodeRef<'arena>,
        m: Cursor<'arena>,
        inner: ParserResult<NodeRef<'arena>>,
    | #[trigger]
        postfix_run(ask, base, m, inner, t) implies (inner is Ok ==> !goes_on(t)) && m.leads_to(
        t,
    ) by {
        chain_is_read_to_its_end(ask, base, m, inner, t);
        postfix_never_goes_back(ask, base, m, inner, t);
    }
    assert forall|
        function: BuiltInFunction,
        m: Cursor<'arena>,
        inner: ParserResult<NodeRef<'arena>>,
    |
        m.wf() && #[trigger] call_run(ask, function, m, inner, t) implies m.leads_to(t) by {
        call_never_goes_back(ask, function, m, inner, t);
    }
}

/// Where a literal has been read from a word or an identifier other than `null`, no access behind
/// it is left.
pub proof fn literal_names_are_read_to_their_end<'arena>(
    ask: Replies<'arena>,
    parsed: Option<Decimal>,
    s: Cursor<'arena>,
    node: NodeRef<'arena>,
    t: Cursor<'arena>,
)
    requires
        s.wf(),
        token_at(s).kind is Literal || token_at(s).kind is Identifier,
        token_at(s).kind != TokenKind::Identifier(Identifier::Null),
        literal_run(ask, parsed, s, Ok(node), t),
    ensures
        !goes_on(t),
{
    names_are_read_to_their_end(ask, s, node, t);
}

/// A name, a dot and the name of a member, with no access behind them, are that member of what the
/// first name stands for.
pub proof fn member_of_a_name<'arena>(
    ask: Replies<'arena>,
    s: Cursor<'arena>,
    result: ParserResult<Option<NodeRef<'arena>>>,
    t: Cursor<'arena>,
)
    requires
        s.wf(),
        token_at(s).kind is Literal || token_at(s).kind is Identifier,
        passable(s),
        sees(past(s), TokenKind::Operator(Operator::Dot)),
        passable(past(past(s))),
        names_a_member(token_at(past(past(s))).kind),
        !goes_on(past(past(past(s)))),
        identifier_run(ask, s, result, t),
    ensures
        t == past(past(past(s))),
        result matches Ok(Some(found)) && (found matches Node::Member { node, property } && (
        if token_at(s).kind == TokenKind::Identifier(Identifier::RootReference) {
            node == Node::Root
        } else {
            node == Node::Identifier(token_at(s).value)
        }) && property == Node::String(token_at(past(past(s))).value)),
{
    let base: NodeRef<'arena> = if token_at(s).kind == TokenKind::Identifier(
        Identifier::RootReference,
    ) {
        &Node::Root
    } else {
        &Node::Identifier(token_at(s).value)
    };
    name_has_its_chain(ask, s, result, t);
    let inner = choose|inner: ParserResult<NodeRef<'arena>>| #[trigger]
        postfix_run(ask, base, past(s), inner, t) && is_there(result, inner);
    let name = past(past(s));
    let member = &Node::Member { node: base, property: &Node::String(token_at(name).value) };
    dot_makes_a_member(ask, base, past(s), inner, t);
    chain_is_read_to_its_end(ask, member, past(name), inner, t);
}

/// A name with a parenthesis behind it is a call, or an error that gives the name where no
/// function bears it.
pub proof fn name_with_a_parenthesis_is_a_call<'arena>(
    ask: Replies<'arena>,
    s: Cursor<'arena>,
    result: ParserResult<Option<NodeRef<'arena>>>,
    t: Cursor<'arena>,
)
    requires
        s.wf(),
        token_at(s).kind is Literal || token_at(s).kind is Identifier,
        passable(s),
        token_at(past(s)).kind == TokenKind::Bracket(Bracket::LeftParenthesis),
        identifier_run(ask, s, result, t),
    ensures
        (forall|function: BuiltInFunction| (#[trigger] function.name()) != token_at(s).value@) ==> (
        result matches Err(ParserError::UnknownBuiltIn { name, span }) && name@ == token_at(
            s,
        ).value@ && span == token_at(s).span) && t == past(s),
        forall|function: BuiltInFunction| #[trigger]
            function.name() == token_at(s).value@ ==> if passable(past(s)) {
                exists|inner: ParserResult<NodeRef<'arena>>| #[trigger]
                    call_run(ask, function, past(past(s)), inner, t) && is_there(result, inner)
            } else {
                out_of_tokens(past(s), result, t)
            },
{
    functions_are_found_by_their_name(token_at(s).value@);
    assert(past(s) == s.advance());
    assert(past(past(s)) == s.advance().advance());
}

/// A call is a node of that function with those arguments, and the chain goes on from that node.
/// Where the arguments fail, the call fails with their error.
pub proof fn call_has_its_arguments_and_its_chain<'arena>(
    ask: Replies<'arena>,
    function: BuiltInFunction,
    s: Cursor<'arena>,
    result: ParserResult<NodeRef<'arena>>,
    t: Cursor<'arena>,
) -> (read: (ParserResult<Seq<NodeRef<'arena>>>, Cursor<'arena>, NodeRef<'arena>))
    requires
        s.wf(),
        call_run(ask, function, s, result, t),
    ensures
        arguments_run(ask, function.arity_of(), s, read.0, read.1),
        read.0 matches Err(error) ==> (result matches Err(handed) && handed == error) && t
            == read.1,
        read.0 matches Ok(list) ==> postfix_run(ask, read.2, read.1, result, t) && (
        read.2 matches Node::BuiltIn { kind, arguments } && kind == function && arguments@ == list),
{
    let (arguments, m) = choose|
        arguments: ParserResult<Seq<NodeRef<'arena>>>,
        m: Cursor<'arena>,
    | #[trigger]
        arguments_run(ask, function.arity_of(), s, arguments, m) && match arguments {
            Ok(list) => exists|node: NodeRef<'arena>|
                is_call(node, function, list) && #[trigger] postfix_run(ask, node, m, result, t),
            Err(error) => fails(result, error) && t == m,
        };
    if let Ok(list) = arguments {
        let node = choose|node: NodeRef<'arena>|
            is_call(node, function, list) && #[trigger] postfix_run(ask, node, m, result, t);
        (arguments, m, node)
    } else {
        (arguments, m, &Node::Null)
    }
}

/// A call of a function of one argument, with no access behind it, is that call.
pub proof fn call_with_one_argument<'arena>(
    ask: Replies<'arena>,
    function: BuiltInFunction,
    s: Cursor<'arena>,
    first: NodeRef<'arena>,
    m: Cursor<'arena>,
    result: ParserResult<NodeRef<'arena>>,
    t: Cursor<'arena>,
)
    requires
        s.wf(),
        function.arity_of() is Single,
        answers(ask, s, Ok(first), m),
        sees(m, TokenKind::Bracket(Bracket::RightParenthesis)),
        !goes_on(past(m)),
        call_run(ask, function, s, result, t),
    ensures
        result matches Ok(node) && (node matches Node::BuiltIn { kind, arguments } && kind
            == function && arguments@.len() == 1 && arguments@[0] == first),
        t == past(m),
{
    let read = call_has_its_arguments_and_its_chain(ask, function, s, result, t);
    single_argument_is_the_answer(ask, s, read.0, read.1);
    chain_is_read_to_its_end(ask, read.2, read.1, result, t);
}

/// A call of a function of two expressions, with no access behind it, is that call, with the
/// expressions in the order in which they are written.
pub proof fn call_with_two_arguments<'arena>(
    ask: Replies<'arena>,
    function: BuiltInFunction,
    s: Cursor<'arena>,
    first: NodeRef<'arena>,
    m: Cursor<'arena>,
    second: NodeRef<'arena>,
    n: Cursor<'arena>,
    result: ParserResult<NodeRef<'arena>>,
    t: Cursor<'arena>,
)
    requires
        s.wf(),
        function.arity_of() is Dual,
        answers(ask, s, Ok(first), m),
        sees(m, TokenKind::Operator(Operator::Comma)),
        answers(ask, past(m), Ok(second), n),
        sees(n, TokenKind::Bracket(Bracket::RightParenthesis)),
        !goes_on(past(n)),
        call_run(ask, function, s, result, t),
    ensures
        result matches Ok(node) && (node matches Node::BuiltIn { kind, arguments } && kind
            == function && arguments@.len() == 2 && arguments@[0] == first && arguments@[1]
            == second),
        t == past(n),
{
    let read = call_has_its_arguments_and_its_chain(ask, function, s, result, t);
    two_arguments_come_in_order(ask, s, first, m, read.0, read.1);
    chain_is_read_to_its_end(ask, read.2, read.1, result, t);
}

/// A call of a function that takes a closure, with no access behind it, is that call, with the
/// closure second.
pub proof fn call_with_a_closure<'arena>(
    ask: Replies<'arena>,
    function: BuiltInFunction,
    s: Cursor<'arena>,
    first: NodeRef<'arena>,
    m: Cursor<'arena>,
    body: NodeRef<'arena>,
    n: Cursor<'arena>,
    result: ParserResult<NodeRef<'arena>>,
    t: Cursor<'arena>,
)
    requires
        s.wf(),
        function.arity_of() is Closure,
        answers(ask, s, Ok(first), m),
        sees(m, TokenKind::Operator(Operator::Comma)),
        answers(ask, inside(past(m)), Ok(body), n),
        sees(outside(n), TokenKind::Bracket(Bracket::RightParenthesis)),
        !goes_on(past(outside(n))),
        call_run(ask, function, s, result, t),
    ensures
        result matches Ok(node) && (node matches Node::BuiltIn { kind, arguments } && kind
            == function && arguments@.len() == 2 && arguments@[0] == first && arguments@[1]
            == Node::Closure(body)),
        t == past(outside(n)),
{
    let read = call_has_its_arguments_and_its_chain(ask, function, s, result, t);
    closure_comes_second(ask, s, first, m, read.0, read.1);
    chain_is_read_to_its_end(ask, read.2, read.1, result, t);
}

} // verus!
