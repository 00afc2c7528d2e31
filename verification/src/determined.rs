//! The result of a construct is determined: where the parser of whole expressions has at most one
//! answer in each state, so has every construct. Errors that say the same count as one.
use crate::ast::{Node, NodeRef};
use crate::builtin::{Arity, BuiltInFunction};
use crate::cursor::Cursor;
use crate::error::ParserResult;
use crate::grammar::{
    answered, arguments_run, array_run, bool_run, call_run, closure_run, conditional_run,
    entries_run, entry_value_run, fails, found, gives, identifier_run, interval_run, is_array,
    is_call, item_run, items_run, literal_run, null_run, number_run, object_key_run, object_run,
    pieces_run, postfix_run, refused, rejected, simple_string_run, subscript_run, surprised,
    template_string_run, Replies,
};
use crate::token::{
    Bracket, Identifier, Operator, QuotationMark, TemplateString, TokenKind,
};
use rust_decimal::Decimal;
use vstd::prelude::*;

verus! {

/// The parser of whole expressions has at most one answer in each state.
pub open spec fn functional<'arena>(ask: Replies<'arena>) -> bool {
    forall|
        s: Cursor<'arena>,
        first: ParserResult<NodeRef<'arena>>,
        t: Cursor<'arena>,
        second: ParserResult<NodeRef<'arena>>,
        u: Cursor<'arena>,
    | #[trigger]
        answered(ask, s, first, t) && #[trigger] answered(ask, s, second, u) ==> same(first, second)
            && t == u
}

/// The two results are the same value, or errors that say the same.
pub open spec fn same<T>(first: ParserResult<T>, second: ParserResult<T>) -> bool {
    match (first, second) {
        (Ok(a), Ok(b)) => a == b,
        (Err(a), Err(b)) => a.says_the_same(b),
        _ => false,
    }
}

proof fn same_list<T>(a: &[T], b: &[T])
    requires
        a@ == b@,
    ensures
        a == b,
{
    assert(a =~= b);
}

/// The pieces of a template string are determined.
pub proof fn pieces_are_determined<'arena>(
    ask: Replies<'arena>,
    s: Cursor<'arena>,
    pieces: Seq<NodeRef<'arena>>,
    first: ParserResult<Seq<NodeRef<'arena>>>,
    t: Cursor<'arena>,
    second: ParserResult<Seq<NodeRef<'arena>>>,
    u: Cursor<'arena>,
)
    requires
        functional(ask),
        pieces_run(ask, s, pieces, first, t),
        pieces_run(ask, s, pieces, second, u),
    ensures
        same(first, second),
        t == u,
    decreases s.remaining(),
{
    let next = s.advance();
    if s.kind() is Literal && s.can_advance() {
        let more = pieces.push(&Node::String(s.value()));
        pieces_are_determined(ask, next, more, first, t, second, u);
    } else if s.kind() == TokenKind::TemplateString(TemplateString::ExpressionEnd)
        && s.can_advance() {
        pieces_are_determined(ask, next, pieces, first, t, second, u);
    } else if s.kind() == TokenKind::TemplateString(TemplateString::ExpressionStart)
        && s.can_advance() {
        let (r1, m1) = choose|reply: ParserResult<NodeRef<'arena>>, after: Cursor<'arena>|
            #[trigger]
            answered(ask, next, reply, after) && match reply {
                Ok(piece) => pieces_run(ask, after, pieces.push(piece), first, t),
                Err(error) => fails(first, error) && t == after,
            };
        let (r2, m2) = choose|reply: ParserResult<NodeRef<'arena>>, after: Cursor<'arena>|
            #[trigger]
            answered(ask, next, reply, after) && match reply {
                Ok(piece) => pieces_run(ask, after, pieces.push(piece), second, u),
                Err(error) => fails(second, error) && u == after,
            };
        if let Ok(piece) = r1 {
            pieces_are_determined(ask, m1, pieces.push(piece), first, t, second, u);
        }
    }
}

/// A template string is determined.
pub proof fn template_string_is_determined<'arena>(
    ask: Replies<'arena>,
    s: Cursor<'arena>,
    first: ParserResult<NodeRef<'arena>>,
    t: Cursor<'arena>,
    second: ParserResult<NodeRef<'arena>>,
    u: Cursor<'arena>,
)
    requires
        functional(ask),
        template_string_run(ask, s, first, t),
        template_string_run(ask, s, second, u),
    ensures
        same(first, second),
        t == u,
{
    assert forall|
        r1: ParserResult<Seq<NodeRef<'arena>>>,
        m1: Cursor<'arena>,
        r2: ParserResult<Seq<NodeRef<'arena>>>,
        m2: Cursor<'arena>,
    | #[trigger]
        pieces_run(ask, s.advance(), Seq::empty(), r1, m1) && #[trigger] pieces_run(
            ask,
            s.advance(),
            Seq::empty(),
            r2,
            m2,
        ) implies same(r1, r2) && m1 == m2 by {
        pieces_are_determined(ask, s.advance(), Seq::empty(), r1, m1, r2, m2);
    }
    if let (Ok(Node::TemplateString(a)), Ok(Node::TemplateString(b))) = (first, second) {
        if a@ == b@ {
            same_list(*a, *b);
        }
    }
}

/// What stands in square brackets behind a node is determined.
pub proof fn subscript_is_determined<'arena>(
    ask: Replies<'arena>,
    node: NodeRef<'arena>,
    s: Cursor<'arena>,
    first: ParserResult<NodeRef<'arena>>,
    t: Cursor<'arena>,
    second: ParserResult<NodeRef<'arena>>,
    u: Cursor<'arena>,
)
    requires
        functional(ask),
        subscript_run(ask, node, s, first, t),
        subscript_run(ask, node, s, second, u),
    ensures
        same(first, second),
        t == u,
{
}

/// What stands behind a node is determined.
pub proof fn postfix_is_determined<'arena>(
    ask: Replies<'arena>,
    node: NodeRef<'arena>,
    s: Cursor<'arena>,
    first: ParserResult<NodeRef<'arena>>,
    t: Cursor<'arena>,
    second: ParserResult<NodeRef<'arena>>,
    u: Cursor<'arena>,
)
    requires
        functional(ask),
        postfix_run(ask, node, s, first, t),
        postfix_run(ask, node, s, second, u),
    ensures
        same(first, second),
        t == u,
    decreases s.remaining(),
{
    let property = s.advance();
    let member = &Node::Member { node, property: &Node::String(property.value()) };
    if s.kind() == TokenKind::Operator(Operator::Dot) {
        if postfix_run(ask, member, property.advance(), first, t) && s.can_advance()
            && property.can_advance() && postfix_run(ask, member, property.advance(), second, u) {
            postfix_is_determined(ask, member, property.advance(), first, t, second, u);
        }
    } else if s.kind() == TokenKind::Bracket(Bracket::LeftSquareBracket) && s.can_advance() {
        let (r1, m1) = choose|inner: ParserResult<NodeRef<'arena>>, after: Cursor<'arena>|
            #[trigger]
            subscript_run(ask, node, s.advance(), inner, after) && s.advance().leads_to(after)
                && match inner {
                Ok(accessed) => postfix_run(ask, accessed, after, first, t),
                Err(error) => fails(first, error) && t == after,
            };
        let (r2, m2) = choose|inner: ParserResult<NodeRef<'arena>>, after: Cursor<'arena>|
            #[trigger]
            subscript_run(ask, node, s.advance(), inner, after) && s.advance().leads_to(after)
                && match inner {
                Ok(accessed) => postfix_run(ask, accessed, after, second, u),
                Err(error) => fails(second, error) && u == after,
            };
        subscript_is_determined(ask, node, s.advance(), r1, m1, r2, m2);
        if let Ok(accessed) = r1 {
            postfix_is_determined(ask, accessed, m1, first, t, second, u);
        }
    }
}

/// The body of a closure is determined.
pub proof fn closure_is_determined<'arena>(
    ask: Replies<'arena>,
    s: Cursor<'arena>,
    first: ParserResult<NodeRef<'arena>>,
    t: Cursor<'arena>,
    second: ParserResult<NodeRef<'arena>>,
    u: Cursor<'arena>,
)
    requires
        functional(ask),
        closure_run(ask, s, first, t),
        closure_run(ask, s, second, u),
    ensures
        same(first, second),
        t == u,
{
}

/// The arguments of a call are determined.
pub proof fn arguments_are_determined<'arena>(
    ask: Replies<'arena>,
    arity: Arity,
    s: Cursor<'arena>,
    first: ParserResult<Seq<NodeRef<'arena>>>,
    t: Cursor<'arena>,
    second: ParserResult<Seq<NodeRef<'arena>>>,
    u: Cursor<'arena>,
)
    requires
        functional(ask),
        arguments_run(ask, arity, s, first, t),
        arguments_run(ask, arity, s, second, u),
    ensures
        same(first, second),
        t == u,
{
    assert forall|
        s: Cursor<'arena>,
        r1: ParserResult<NodeRef<'arena>>,
        m1: Cursor<'arena>,
        r2: ParserResult<NodeRef<'arena>>,
        m2: Cursor<'arena>,
    | #[trigger]
        closure_run(ask, s, r1, m1) && #[trigger] closure_run(ask, s, r2, m2) implies same(r1, r2)
        && m1 == m2 by {
        closure_is_determined(ask, s, r1, m1, r2, m2);
    }
}

/// A call is determined.
pub proof fn call_is_determined<'arena>(
    ask: Replies<'arena>,
    function: BuiltInFunction,
    s: Cursor<'arena>,
    first: ParserResult<NodeRef<'arena>>,
    t: Cursor<'arena>,
    second: ParserResult<NodeRef<'arena>>,
    u: Cursor<'arena>,
)
    requires
        functional(ask),
        call_run(ask, function, s, first, t),
        call_run(ask, function, s, second, u),
    ensures
        same(first, second),
        t == u,
{
    assert forall|
        r1: ParserResult<Seq<NodeRef<'arena>>>,
        m1: Cursor<'arena>,
        r2: ParserResult<Seq<NodeRef<'arena>>>,
        m2: Cursor<'arena>,
    | #[trigger]
        arguments_run(ask, function.arity_of(), s, r1, m1) && #[trigger] arguments_run(
            ask,
            function.arity_of(),
            s,
            r2,
            m2,
        ) implies same(r1, r2) && m1 == m2 by {
        arguments_are_determined(ask, function.arity_of(), s, r1, m1, r2, m2);
    }
    assert forall|a: NodeRef<'arena>, b: NodeRef<'arena>, list: Seq<NodeRef<'arena>>|
        #[trigger] is_call(a, function, list) && #[trigger] is_call(b, function, list) implies a
        == b by {
        if let (
            Node::BuiltIn { arguments: some, .. },
            Node::BuiltIn { arguments: other, .. },
        ) = (*a, *b) {
            same_list(some, other);
        }
    }
    assert forall|
        node: NodeRef<'arena>,
        after: Cursor<'arena>,
        r1: ParserResult<NodeRef<'arena>>,
        m1: Cursor<'arena>,
        r2: ParserResult<NodeRef<'arena>>,
        m2: Cursor<'arena>,
    | #[trigger]
        postfix_run(ask, node, after, r1, m1) && #[trigger] postfix_run(
            ask,
            node,
            after,
            r2,
            m2,
        ) implies same(r1, r2) && m1 == m2 by {
        postfix_is_determined(ask, node, after, r1, m1, r2, m2);
    }
}

/// An identifier or a call is determined.
pub proof fn identifier_is_determined<'arena>(
    ask: Replies<'arena>,
    s: Cursor<'arena>,
    first: ParserResult<Option<NodeRef<'arena>>>,
    t: Cursor<'arena>,
    second: ParserResult<Option<NodeRef<'arena>>>,
    u: Cursor<'arena>,
)
    requires
        functional(ask),
        identifier_run(ask, s, first, t),
        identifier_run(ask, s, second, u),
    ensures
        same(first, second),
        t == u,
{
    assert forall|
        function: BuiltInFunction,
        after: Cursor<'arena>,
        r1: ParserResult<NodeRef<'arena>>,
        m1: Cursor<'arena>,
        r2: ParserResult<NodeRef<'arena>>,
        m2: Cursor<'arena>,
    | #[trigger]
        call_run(ask, function, after, r1, m1) && #[trigger] call_run(
            ask,
            function,
            after,
            r2,
            m2,
        ) implies same(r1, r2) && m1 == m2 by {
        call_is_determined(ask, function, after, r1, m1, r2, m2);
    }
    assert forall|
        node: NodeRef<'arena>,
        after: Cursor<'arena>,
        r1: ParserResult<NodeRef<'arena>>,
        m1: Cursor<'arena>,
        r2: ParserResult<NodeRef<'arena>>,
        m2: Cursor<'arena>,
    | #[trigger]
        postfix_run(ask, node, after, r1, m1) && #[trigger] postfix_run(
            ask,
            node,
            after,
            r2,
            m2,
        ) implies same(r1, r2) && m1 == m2 by {
        postfix_is_determined(ask, node, after, r1, m1, r2, m2);
    }
}

/// An interval, or that there is none, is determined.
pub proof fn interval_is_determined<'arena>(
    ask: Replies<'arena>,
    s: Cursor<'arena>,
    first: ParserResult<Option<NodeRef<'arena>>>,
    t: Cursor<'arena>,
    second: ParserResult<Option<NodeRef<'arena>>>,
    u: Cursor<'arena>,
)
    requires
        functional(ask),
        interval_run(ask, s, first, t),
        interval_run(ask, s, second, u),
    ensures
        same(first, second),
        t == u,
{
    assert forall|
        node: NodeRef<'arena>,
        after: Cursor<'arena>,
        r1: ParserResult<NodeRef<'arena>>,
        m1: Cursor<'arena>,
        r2: ParserResult<NodeRef<'arena>>,
        m2: Cursor<'arena>,
    | #[trigger]
        postfix_run(ask, node, after, r1, m1) && #[trigger] postfix_run(
            ask,
            node,
            after,
            r2,
            m2,
        ) implies same(r1, r2) && m1 == m2 by {
        postfix_is_determined(ask, node, after, r1, m1, r2, m2);
    }
}

/// All answers of the search for an interval in one state are the same.
proof fn intervals_are_determined<'arena>(ask: Replies<'arena>, s: Cursor<'arena>)
    requires
        functional(ask),
    ensures
        forall|
            r1: ParserResult<Option<NodeRef<'arena>>>,
            m1: Cursor<'arena>,
            r2: ParserResult<Option<NodeRef<'arena>>>,
            m2: Cursor<'arena>,
        | #[trigger]
            interval_run(ask, s, r1, m1) && #[trigger] interval_run(ask, s, r2, m2) ==> same(r1, r2)
                && m1 == m2,
{
    assert forall|
        r1: ParserResult<Option<NodeRef<'arena>>>,
        m1: Cursor<'arena>,
        r2: ParserResult<Option<NodeRef<'arena>>>,
        m2: Cursor<'arena>,
    | #[trigger]
        interval_run(ask, s, r1, m1) && #[trigger] interval_run(ask, s, r2, m2) implies same(r1, r2)
        && m1 == m2 by {
        interval_is_determined(ask, s, r1, m1, r2, m2);
    }
}

/// The items of an array are determined.
pub proof fn items_are_determined<'arena>(
    ask: Replies<'arena>,
    s: Cursor<'arena>,
    items: Seq<NodeRef<'arena>>,
    first: ParserResult<Seq<NodeRef<'arena>>>,
    t: Cursor<'arena>,
    second: ParserResult<Seq<NodeRef<'arena>>>,
    u: Cursor<'arena>,
)
    requires
        functional(ask),
        items_run(ask, s, items, first, t),
        items_run(ask, s, items, second, u),
    ensures
        same(first, second),
        t == u,
    decreases
            s.remaining(),
            (if items.len() == 0 {
                1int
            } else {
                0int
            }),
{
    let end = TokenKind::Bracket(Bracket::RightSquareBracket);
    let comma = TokenKind::Operator(Operator::Comma);
    let next = if items.len() == 0 {
        s
    } else {
        s.advance()
    };
    let (r1, m1) = choose|reply: ParserResult<NodeRef<'arena>>, after: Cursor<'arena>| #[trigger]
        answered(ask, next, reply, after) && match reply {
            Ok(item) => items_run(ask, after, items.push(item), first, t),
            Err(error) => fails(first, error) && t == after,
        };
    let (r2, m2) = choose|reply: ParserResult<NodeRef<'arena>>, after: Cursor<'arena>| #[trigger]
        answered(ask, next, reply, after) && match reply {
            Ok(item) => items_run(ask, after, items.push(item), second, u),
            Err(error) => fails(second, error) && u == after,
        };
    if s.kind() != end && (items.len() == 0 || s.takes(comma) && next.kind() != end) {
        assert(item_run(ask, next, items, first, t));
        assert(item_run(ask, next, items, second, u));
        if let Ok(item) = r1 {
            items_are_determined(ask, m1, items.push(item), first, t, second, u);
        }
    }
}

/// An array is determined.
pub proof fn array_is_determined<'arena>(
    ask: Replies<'arena>,
    s: Cursor<'arena>,
    first: ParserResult<Option<NodeRef<'arena>>>,
    t: Cursor<'arena>,
    second: ParserResult<Option<NodeRef<'arena>>>,
    u: Cursor<'arena>,
)
    requires
        functional(ask),
        array_run(ask, s, first, t),
        array_run(ask, s, second, u),
    ensures
        same(first, second),
        t == u,
{
    assert forall|
        r1: ParserResult<Seq<NodeRef<'arena>>>,
        m1: Cursor<'arena>,
        r2: ParserResult<Seq<NodeRef<'arena>>>,
        m2: Cursor<'arena>,
    | #[trigger]
        items_run(ask, s.advance(), Seq::empty(), r1, m1) && #[trigger] items_run(
            ask,
            s.advance(),
            Seq::empty(),
            r2,
            m2,
        ) implies same(r1, r2) && m1 == m2 by {
        items_are_determined(ask, s.advance(), Seq::empty(), r1, m1, r2, m2);
    }
    assert forall|a: NodeRef<'arena>, b: NodeRef<'arena>, list: Seq<NodeRef<'arena>>|
        #[trigger] is_array(a, list) && #[trigger] is_array(b, list) implies a == b by {
        if let (Node::Array(some), Node::Array(other)) = (*a, *b) {
            same_list(some, other);
        }
    }
    assert forall|
        node: NodeRef<'arena>,
        after: Cursor<'arena>,
        r1: ParserResult<NodeRef<'arena>>,
        m1: Cursor<'arena>,
        r2: ParserResult<NodeRef<'arena>>,
        m2: Cursor<'arena>,
    | #[trigger]
        postfix_run(ask, node, after, r1, m1) && #[trigger] postfix_run(
            ask,
            node,
            after,
            r2,
            m2,
        ) implies same(r1, r2) && m1 == m2 by {
        postfix_is_determined(ask, node, after, r1, m1, r2, m2);
    }
}

/// A key of an object is determined.
pub proof fn object_key_is_determined<'arena>(
    ask: Replies<'arena>,
    s: Cursor<'arena>,
    first: ParserResult<NodeRef<'arena>>,
    t: Cursor<'arena>,
    second: ParserResult<NodeRef<'arena>>,
    u: Cursor<'arena>,
)
    requires
        functional(ask),
        object_key_run(ask, s, first, t),
        object_key_run(ask, s, second, u),
    ensures
        same(first, second),
        t == u,
{
}

/// The entries of an object are determined.
pub proof fn entries_are_determined<'arena>(
    ask: Replies<'arena>,
    s: Cursor<'arena>,
    entries: Seq<(NodeRef<'arena>, NodeRef<'arena>)>,
    first: ParserResult<Seq<(NodeRef<'arena>, NodeRef<'arena>)>>,
    t: Cursor<'arena>,
    second: ParserResult<Seq<(NodeRef<'arena>, NodeRef<'arena>)>>,
    u: Cursor<'arena>,
)
    requires
        functional(ask),
        entries_run(ask, s, entries, first, t),
        entries_run(ask, s, entries, second, u),
    ensures
        same(first, second),
        t == u,
    decreases s.remaining(),
{
    let colon = TokenKind::Operator(Operator::Slice);
    let comma = TokenKind::Operator(Operator::Comma);
    let (k1, m1) = choose|key: ParserResult<NodeRef<'arena>>, after: Cursor<'arena>|
        #[trigger]
        object_key_run(ask, s, key, after) && s.leads_to(after) && match key {
            Ok(key) => if !after.takes(colon) {
                refused(after, colon, first, t)
            } else {
                entry_value_run(ask, after.advance(), entries, key, first, t)
            },
            Err(error) => fails(first, error) && t == after,
        };
    let (k2, m2) = choose|key: ParserResult<NodeRef<'arena>>, after: Cursor<'arena>|
        #[trigger]
        object_key_run(ask, s, key, after) && s.leads_to(after) && match key {
            Ok(key) => if !after.takes(colon) {
                refused(after, colon, second, u)
            } else {
                entry_value_run(ask, after.advance(), entries, key, second, u)
            },
            Err(error) => fails(second, error) && u == after,
        };
    object_key_is_determined(ask, s, k1, m1, k2, m2);
    if k1 is Ok && m1.takes(colon) {
        let key = k1->Ok_0;
        let inner = m1.advance();
        assert(entry_value_run(ask, inner, entries, key, first, t));
        assert(entry_value_run(ask, inner, entries, key, second, u));
        let (r1, n1) = choose|reply: ParserResult<NodeRef<'arena>>, after: Cursor<'arena>|
            #[trigger]
            answered(ask, inner, reply, after) && match reply {
                Ok(value) => match after.kind() {
                    TokenKind::Operator(Operator::Comma) => if !after.takes(comma) {
                        refused(after, comma, first, t)
                    } else {
                        entries_run(ask, after.advance(), entries.push((key, value)), first, t)
                    },
                    TokenKind::Bracket(Bracket::RightCurlyBracket) => gives(
                        first,
                        entries.push((key, value)),
                    ) && t == after,
                    _ => surprised("RightCurlyBracket or Comma"@, after, first) && t == after,
                },
                Err(error) => fails(first, error) && t == after,
            };
        let (r2, n2) = choose|reply: ParserResult<NodeRef<'arena>>, after: Cursor<'arena>|
            #[trigger]
            answered(ask, inner, reply, after) && match reply {
                Ok(value) => match after.kind() {
                    TokenKind::Operator(Operator::Comma) => if !after.takes(comma) {
                        refused(after, comma, second, u)
                    } else {
                        entries_run(ask, after.advance(), entries.push((key, value)), second, u)
                    },
                    TokenKind::Bracket(Bracket::RightCurlyBracket) => gives(
                        second,
                        entries.push((key, value)),
                    ) && u == after,
                    _ => surprised("RightCurlyBracket or Comma"@, after, second) && u == after,
                },
                Err(error) => fails(second, error) && u == after,
            };
        if r1 is Ok && n1.takes(comma) {
            let more = entries.push((key, r1->Ok_0));
            entries_are_determined(ask, n1.advance(), more, first, t, second, u);
        }
    }
}

/// An object is determined.
pub proof fn object_is_determined<'arena>(
    ask: Replies<'arena>,
    s: Cursor<'arena>,
    first: ParserResult<NodeRef<'arena>>,
    t: Cursor<'arena>,
    second: ParserResult<NodeRef<'arena>>,
    u: Cursor<'arena>,
)
    requires
        functional(ask),
        object_run(ask, s, first, t),
        object_run(ask, s, second, u),
    ensures
        same(first, second),
        t == u,
{
    assert forall|
        r1: ParserResult<Seq<(NodeRef<'arena>, NodeRef<'arena>)>>,
        m1: Cursor<'arena>,
        r2: ParserResult<Seq<(NodeRef<'arena>, NodeRef<'arena>)>>,
        m2: Cursor<'arena>,
    | #[trigger]
        entries_run(ask, s.advance(), Seq::empty(), r1, m1) && #[trigger] entries_run(
            ask,
            s.advance(),
            Seq::empty(),
            r2,
            m2,
        ) implies same(r1, r2) && m1 == m2 by {
        entries_are_determined(ask, s.advance(), Seq::empty(), r1, m1, r2, m2);
    }
    if let (Ok(Node::Object(a)), Ok(Node::Object(b))) = (first, second) {
        if a@ == b@ {
            same_list(*a, *b);
        }
    }
}

/// A conditional is determined.
pub proof fn conditional_is_determined<'arena>(
    ask: Replies<'arena>,
    condition: NodeRef<'arena>,
    s: Cursor<'arena>,
    first: ParserResult<Option<NodeRef<'arena>>>,
    t: Cursor<'arena>,
    second: ParserResult<Option<NodeRef<'arena>>>,
    u: Cursor<'arena>,
)
    requires
        functional(ask),
        conditional_run(ask, condition, s, first, t),
        conditional_run(ask, condition, s, second, u),
    ensures
        same(first, second),
        t == u,
{
}

/// Whatever is read from a token on, is determined by the tokens and the state.
pub proof fn literal_is_determined<'arena>(
    ask: Replies<'arena>,
    parsed: Option<Decimal>,
    s: Cursor<'arena>,
    first: ParserResult<NodeRef<'arena>>,
    t: Cursor<'arena>,
    second: ParserResult<NodeRef<'arena>>,
    u: Cursor<'arena>,
)
    requires
        functional(ask),
        literal_run(ask, parsed, s, first, t),
        literal_run(ask, parsed, s, second, u),
    ensures
        same(first, second),
        t == u,
{
    let one = found(first);
    let other = found(second);
    intervals_are_determined(ask, s);
    assert forall|back: Cursor<'arena>| #[trigger]
        array_run(ask, back, one, t) && #[trigger] array_run(ask, back, other, u) implies same(
        one,
        other,
    ) && t == u by {
        array_is_determined(ask, back, one, t, other, u);
    }
    if identifier_run(ask, s, one, t) && identifier_run(ask, s, other, u) {
        identifier_is_determined(ask, s, one, t, other, u);
    }
    if template_string_run(ask, s, first, t) && template_string_run(ask, s, second, u) {
        template_string_is_determined(ask, s, first, t, second, u);
    }
    if object_run(ask, s, first, t) && object_run(ask, s, second, u) {
        object_is_determined(ask, s, first, t, second, u);
    }
}

/// At `null`, `literal` does what `null` does.
pub proof fn literal_reads_null<'arena>(
    ask: Replies<'arena>,
    parsed: Option<Decimal>,
    s: Cursor<'arena>,
    first: ParserResult<NodeRef<'arena>>,
    t: Cursor<'arena>,
    second: ParserResult<Option<NodeRef<'arena>>>,
    u: Cursor<'arena>,
)
    requires
        s.kind() == TokenKind::Identifier(Identifier::Null),
        literal_run(ask, parsed, s, first, t),
        null_run(s, second, u),
    ensures
        same(found(first), second),
        t == u,
{
}

/// At a boolean, `literal` does what `bool` does.
pub proof fn literal_reads_a_bool<'arena>(
    ask: Replies<'arena>,
    parsed: Option<Decimal>,
    s: Cursor<'arena>,
    first: ParserResult<NodeRef<'arena>>,
    t: Cursor<'arena>,
    second: ParserResult<Option<NodeRef<'arena>>>,
    u: Cursor<'arena>,
)
    requires
        s.kind() is Boolean,
        literal_run(ask, parsed, s, first, t),
        bool_run(s, second, u),
    ensures
        same(found(first), second),
        t == u,
{
}

/// At a number, `literal` does what `number` does, but for a text that is none: there it reports
/// the failure where `number` finds nothing.
pub proof fn literal_reads_a_number<'arena>(
    ask: Replies<'arena>,
    parsed: Option<Decimal>,
    s: Cursor<'arena>,
    first: ParserResult<NodeRef<'arena>>,
    t: Cursor<'arena>,
    second: ParserResult<Option<NodeRef<'arena>>>,
    u: Cursor<'arena>,
)
    requires
        s.kind() is Number,
        literal_run(ask, parsed, s, first, t),
        number_run(parsed, s, second, u),
    ensures
        match second {
            Ok(None) => rejected("Failed to parse number"@, s, first),
            _ => same(found(first), second),
        },
        t == u,
{
}

/// At a word or an identifier other than `null`, `literal` does what `identifier` does.
pub proof fn literal_reads_an_identifier<'arena>(
    ask: Replies<'arena>,
    parsed: Option<Decimal>,
    s: Cursor<'arena>,
    first: ParserResult<NodeRef<'arena>>,
    t: Cursor<'arena>,
    second: ParserResult<Option<NodeRef<'arena>>>,
    u: Cursor<'arena>,
)
    requires
        functional(ask),
        s.kind() is Literal || (s.kind() is Identifier && s.kind() != TokenKind::Identifier(
            Identifier::Null,
        )),
        literal_run(ask, parsed, s, first, t),
        identifier_run(ask, s, second, u),
    ensures
        same(found(first), second),
        t == u,
{
    identifier_is_determined(ask, s, found(first), t, second, u);
}

/// At a backtick, `literal` does what `template_string` does.
pub proof fn literal_reads_a_template_string<'arena>(
    ask: Replies<'arena>,
    parsed: Option<Decimal>,
    s: Cursor<'arena>,
    first: ParserResult<NodeRef<'arena>>,
    t: Cursor<'arena>,
    second: ParserResult<NodeRef<'arena>>,
    u: Cursor<'arena>,
)
    requires
        functional(ask),
        s.kind() == TokenKind::QuotationMark(QuotationMark::Backtick),
        literal_run(ask, parsed, s, first, t),
        template_string_run(ask, s, second, u),
    ensures
        same(first, second),
        t == u,
{
    template_string_is_determined(ask, s, first, t, second, u);
}

/// At another quotation mark, `literal` does what `simple_string` does.
pub proof fn literal_reads_a_simple_string<'arena>(
    ask: Replies<'arena>,
    parsed: Option<Decimal>,
    quote_mark: QuotationMark,
    s: Cursor<'arena>,
    first: ParserResult<NodeRef<'arena>>,
    t: Cursor<'arena>,
    second: ParserResult<NodeRef<'arena>>,
    u: Cursor<'arena>,
)
    requires
        s.kind() == TokenKind::QuotationMark(quote_mark),
        quote_mark != QuotationMark::Backtick,
        literal_run(ask, parsed, s, first, t),
        simple_string_run(quote_mark, s, second, u),
    ensures
        same(first, second),
        t == u,
{
}

/// At an opening curly bracket, `literal` does what `object` does.
pub proof fn literal_reads_an_object<'arena>(
    ask: Replies<'arena>,
    parsed: Option<Decimal>,
    s: Cursor<'arena>,
    first: ParserResult<NodeRef<'arena>>,
    t: Cursor<'arena>,
    second: ParserResult<NodeRef<'arena>>,
    u: Cursor<'arena>,
)
    requires
        functional(ask),
        s.kind() == TokenKind::Bracket(Bracket::LeftCurlyBracket),
        literal_run(ask, parsed, s, first, t),
        object_run(ask, s, second, u),
    ensures
        same(first, second),
        t == u,
{
    object_is_determined(ask, s, first, t, second, u);
}

/// At a bracket that is not curly, `literal` does what `interval` does, where that finds an
/// interval or fails.
pub proof fn literal_reads_an_interval<'arena>(
    ask: Replies<'arena>,
    parsed: Option<Decimal>,
    s: Cursor<'arena>,
    first: ParserResult<NodeRef<'arena>>,
    t: Cursor<'arena>,
    second: ParserResult<Option<NodeRef<'arena>>>,
    u: Cursor<'arena>,
)
    requires
        functional(ask),
        s.kind() is Bracket,
        s.kind() != TokenKind::Bracket(Bracket::LeftCurlyBracket),
        s.kind() != TokenKind::Bracket(Bracket::RightCurlyBracket),
        !gives(second, None),
        literal_run(ask, parsed, s, first, t),
        interval_run(ask, s, second, u),
    ensures
        same(found(first), second),
        t == u,
{
    intervals_are_determined(ask, s);
}

/// At an opening square bracket where `interval` finds nothing, `literal` goes on with what `array`
/// does from there.
pub proof fn literal_reads_an_array<'arena>(
    ask: Replies<'arena>,
    parsed: Option<Decimal>,
    s: Cursor<'arena>,
    first: ParserResult<NodeRef<'arena>>,
    t: Cursor<'arena>,
    back: Cursor<'arena>,
    second: ParserResult<Option<NodeRef<'arena>>>,
    u: Cursor<'arena>,
)
    requires
        functional(ask),
        s.kind() == TokenKind::Bracket(Bracket::LeftSquareBracket),
        literal_run(ask, parsed, s, first, t),
        interval_run(ask, s, Ok(None), back),
        array_run(ask, back, second, u),
    ensures
        same(found(first), second),
        t == u,
{
    intervals_are_determined(ask, s);
    assert(array_run(ask, back, found(first), t));
    array_is_determined(ask, back, found(first), t, second, u);
}

/// At any other bracket but the curly ones, `literal` reports where `interval` finds nothing.
pub proof fn literal_misses_an_interval<'arena>(
    ask: Replies<'arena>,
    parsed: Option<Decimal>,
    s: Cursor<'arena>,
    first: ParserResult<NodeRef<'arena>>,
    t: Cursor<'arena>,
    u: Cursor<'arena>,
)
    requires
        functional(ask),
        s.kind() is Bracket,
        s.kind() != TokenKind::Bracket(Bracket::LeftCurlyBracket),
        s.kind() != TokenKind::Bracket(Bracket::RightCurlyBracket),
        s.kind() != TokenKind::Bracket(Bracket::LeftSquareBracket),
        literal_run(ask, parsed, s, first, t),
        interval_run(ask, s, Ok(None), u),
    ensures
        rejected("Failed to parse interval"@, s, first),
        t == u,
{
    intervals_are_determined(ask, s);
}

} // verus!
