//! Parsing never goes back: every construct leaves the parser over the same tokens, no earlier
//! than it was, no less deep, and past the end if it had been there. Where it succeeds, it leaves
//! the parser as deep as it was, if the parser of whole expressions does so. The exception is an
//! array that was searched for an interval first: the search may have given up on a part that
//! failed inside a closure.
use crate::ast::{Node, NodeRef};
use crate::builtin::{Arity, BuiltInFunction};
use crate::cursor::Cursor;
use crate::error::ParserResult;
use crate::grammar::{
    answered, arguments_run, array_run, balanced, bool_run, call_run, closure_run, conditional_run,
    entries_run, entry_value_run, fails, found, gives, identifier_run, interval_run, item_run,
    items_run, literal_run, null_run, number_run, object_key_run, object_run, pieces_run,
    postfix_run, refused, simple_string_run, subscript_run, surprised, template_string_run,
    Replies,
};
use crate::token::{Bracket, Operator, QuotationMark, TokenKind};
use rust_decimal::Decimal;
use vstd::prelude::*;

verus! {

/// The state behind a token is one that a parser can be in, and is not before that token.
pub proof fn next_never_goes_back(s: Cursor)
    requires
        s.wf(),
    ensures
        s.leads_to(s.advance()),
        s.can_advance() ==> s.advance().remaining() < s.remaining(),
{
}

/// A number does not lead back.
pub proof fn number_never_goes_back<'arena>(
    parsed: Option<Decimal>,
    s: Cursor<'arena>,
    result: ParserResult<Option<NodeRef<'arena>>>,
    t: Cursor<'arena>,
)
    requires
        s.wf(),
        number_run(parsed, s, result, t),
    ensures
        s.leads_to(t),
{
}

/// `true` or `false` does not lead back.
pub proof fn bool_never_goes_back<'arena>(
    s: Cursor<'arena>,
    result: ParserResult<Option<NodeRef<'arena>>>,
    t: Cursor<'arena>,
)
    requires
        s.wf(),
        bool_run(s, result, t),
    ensures
        s.leads_to(t),
{
}

/// `null` does not lead back.
pub proof fn null_never_goes_back<'arena>(
    s: Cursor<'arena>,
    result: ParserResult<Option<NodeRef<'arena>>>,
    t: Cursor<'arena>,
)
    requires
        s.wf(),
        null_run(s, result, t),
    ensures
        s.leads_to(t),
{
}

/// A text in quotation marks does not lead back.
pub proof fn simple_string_never_goes_back<'arena>(
    quote_mark: QuotationMark,
    s: Cursor<'arena>,
    result: ParserResult<NodeRef<'arena>>,
    t: Cursor<'arena>,
)
    requires
        s.wf(),
        simple_string_run(quote_mark, s, result, t),
    ensures
        s.leads_to(t),
{
}

/// The pieces of a template string do not lead back.
pub proof fn pieces_never_go_back<'arena>(
    ask: Replies<'arena>,
    s: Cursor<'arena>,
    pieces: Seq<NodeRef<'arena>>,
    result: ParserResult<Seq<NodeRef<'arena>>>,
    t: Cursor<'arena>,
)
    requires
        pieces_run(ask, s, pieces, result, t),
    ensures
        s.leads_to(t),
        balanced(ask) && result is Ok ==> t.depth == s.depth,
    decreases s.remaining(),
{
    let next = s.advance();
    if s.can_advance() {
        if pieces_run(ask, next, pieces, result, t) {
            pieces_never_go_back(ask, next, pieces, result, t);
        } else if pieces_run(ask, next, pieces.push(&Node::String(s.value())), result, t) {
            pieces_never_go_back(ask, next, pieces.push(&Node::String(s.value())), result, t);
        } else if s.kind() is TemplateString {
            let (reply, after) = choose|
                reply: ParserResult<NodeRef<'arena>>,
                after: Cursor<'arena>,
            | #[trigger]
                answered(ask, next, reply, after) && match reply {
                    Ok(piece) => pieces_run(ask, after, pieces.push(piece), result, t),
                    Err(error) => fails(result, error) && t == after,
                };
            if let Ok(piece) = reply {
                pieces_never_go_back(ask, after, pieces.push(piece), result, t);
            }
        }
    }
}

/// A template string does not lead back.
pub proof fn template_string_never_goes_back<'arena>(
    ask: Replies<'arena>,
    s: Cursor<'arena>,
    result: ParserResult<NodeRef<'arena>>,
    t: Cursor<'arena>,
)
    requires
        s.wf(),
        template_string_run(ask, s, result, t),
    ensures
        s.leads_to(t),
        balanced(ask) && result is Ok ==> t.depth == s.depth,
{
    assert forall|pieces: ParserResult<Seq<NodeRef<'arena>>>, close: Cursor<'arena>| #[trigger]
        pieces_run(ask, s.advance(), Seq::empty(), pieces, close) implies s.advance().leads_to(
        close,
    ) && (balanced(ask) && pieces is Ok ==> close.depth == s.depth) by {
        pieces_never_go_back(ask, s.advance(), Seq::empty(), pieces, close);
    }
}

/// What stands in square brackets behind a node does not lead back.
pub proof fn subscript_never_goes_back<'arena>(
    ask: Replies<'arena>,
    node: NodeRef<'arena>,
    s: Cursor<'arena>,
    result: ParserResult<NodeRef<'arena>>,
    t: Cursor<'arena>,
)
    requires
        s.wf(),
        subscript_run(ask, node, s, result, t),
    ensures
        s.leads_to(t),
        balanced(ask) && result is Ok ==> t.depth == s.depth,
{
}

/// What stands behind a node does not lead back.
pub proof fn postfix_never_goes_back<'arena>(
    ask: Replies<'arena>,
    node: NodeRef<'arena>,
    s: Cursor<'arena>,
    result: ParserResult<NodeRef<'arena>>,
    t: Cursor<'arena>,
)
    requires
        postfix_run(ask, node, s, result, t),
    ensures
        s.leads_to(t),
        balanced(ask) && result is Ok ==> t.depth == s.depth,
    decreases s.remaining(),
{
    let property = s.advance();
    let member = &Node::Member { node, property: &Node::String(property.value()) };
    if s.can_advance() {
        if property.can_advance() && postfix_run(ask, member, property.advance(), result, t) {
            postfix_never_goes_back(ask, member, property.advance(), result, t);
        } else if s.kind() == TokenKind::Bracket(Bracket::LeftSquareBracket) {
            let (inner, after) = choose|
                inner: ParserResult<NodeRef<'arena>>,
                after: Cursor<'arena>,
            | #[trigger]
                subscript_run(ask, node, s.advance(), inner, after) && s.advance().leads_to(after)
                    && match inner {
                    Ok(accessed) => postfix_run(ask, accessed, after, result, t),
                    Err(error) => fails(result, error) && t == after,
                };
            if let Ok(accessed) = inner {
                postfix_never_goes_back(ask, accessed, after, result, t);
            }
        }
    }
}

/// The body of a closure does not lead back.
pub proof fn closure_never_goes_back<'arena>(
    ask: Replies<'arena>,
    s: Cursor<'arena>,
    result: ParserResult<NodeRef<'arena>>,
    t: Cursor<'arena>,
)
    requires
        s.wf(),
        closure_run(ask, s, result, t),
    ensures
        s.leads_to(t),
        balanced(ask) && result is Ok ==> t.depth == s.depth,
{
}

/// The arguments of a call do not lead back.
pub proof fn arguments_never_go_back<'arena>(
    ask: Replies<'arena>,
    arity: Arity,
    s: Cursor<'arena>,
    result: ParserResult<Seq<NodeRef<'arena>>>,
    t: Cursor<'arena>,
)
    requires
        s.wf(),
        arguments_run(ask, arity, s, result, t),
    ensures
        s.leads_to(t),
        balanced(ask) && result is Ok ==> t.depth == s.depth,
{
}

/// A call does not lead back.
pub proof fn call_never_goes_back<'arena>(
    ask: Replies<'arena>,
    function: BuiltInFunction,
    s: Cursor<'arena>,
    result: ParserResult<NodeRef<'arena>>,
    t: Cursor<'arena>,
)
    requires
        s.wf(),
        call_run(ask, function, s, result, t),
    ensures
        s.leads_to(t),
        balanced(ask) && result is Ok ==> t.depth == s.depth,
{
    assert forall|arguments: ParserResult<Seq<NodeRef<'arena>>>, after: Cursor<'arena>| #[trigger]
        arguments_run(ask, function.arity_of(), s, arguments, after) implies s.leads_to(after)
        && (balanced(ask) && arguments is Ok ==> after.depth == s.depth) by {
        arguments_never_go_back(ask, function.arity_of(), s, arguments, after);
    }
    assert forall|node: NodeRef<'arena>, after: Cursor<'arena>| #[trigger]
        postfix_run(ask, node, after, result, t) implies after.leads_to(t) && (balanced(ask)
        && result is Ok ==> t.depth == after.depth) by {
        postfix_never_goes_back(ask, node, after, result, t);
    }
}

/// An identifier or a call does not lead back.
pub proof fn identifier_never_goes_back<'arena>(
    ask: Replies<'arena>,
    s: Cursor<'arena>,
    result: ParserResult<Option<NodeRef<'arena>>>,
    t: Cursor<'arena>,
)
    requires
        s.wf(),
        identifier_run(ask, s, result, t),
    ensures
        s.leads_to(t),
        balanced(ask) && result is Ok ==> t.depth == s.depth,
{
    assert forall|
        node: NodeRef<'arena>,
        after: Cursor<'arena>,
        inner: ParserResult<NodeRef<'arena>>,
    | #[trigger]
        postfix_run(ask, node, after, inner, t) implies after.leads_to(t) && (balanced(ask)
        && inner is Ok ==> t.depth == after.depth) by {
        postfix_never_goes_back(ask, node, after, inner, t);
    }
    assert forall|
        function: BuiltInFunction,
        after: Cursor<'arena>,
        inner: ParserResult<NodeRef<'arena>>,
    |
        after.wf() && #[trigger] call_run(ask, function, after, inner, t) implies after.leads_to(t)
        && (balanced(ask) && inner is Ok ==> t.depth == after.depth) by {
        call_never_goes_back(ask, function, after, inner, t);
    }
}

/// An interval does not lead back, nor does the search for one that is not there.
pub proof fn interval_never_goes_back<'arena>(
    ask: Replies<'arena>,
    s: Cursor<'arena>,
    result: ParserResult<Option<NodeRef<'arena>>>,
    t: Cursor<'arena>,
)
    requires
        s.wf(),
        interval_run(ask, s, result, t),
    ensures
        s.leads_to(t),
        balanced(ask) && (result matches Ok(Some(_))) ==> t.depth == s.depth,
{
    assert forall|
        node: NodeRef<'arena>,
        after: Cursor<'arena>,
        inner: ParserResult<NodeRef<'arena>>,
    | #[trigger]
        postfix_run(ask, node, after, inner, t) implies after.leads_to(t) && (balanced(ask)
        && inner is Ok ==> t.depth == after.depth) by {
        postfix_never_goes_back(ask, node, after, inner, t);
    }
}

/// The items of an array do not lead back.
pub proof fn items_never_go_back<'arena>(
    ask: Replies<'arena>,
    s: Cursor<'arena>,
    items: Seq<NodeRef<'arena>>,
    result: ParserResult<Seq<NodeRef<'arena>>>,
    t: Cursor<'arena>,
)
    requires
        items_run(ask, s, items, result, t),
    ensures
        s.leads_to(t),
        balanced(ask) && result is Ok ==> t.depth == s.depth,
    decreases
            s.remaining(),
            (if items.len() == 0 {
                1int
            } else {
                0int
            }),
{
    let next = if items.len() == 0 {
        s
    } else {
        s.advance()
    };
    if (items.len() == 0 || s.can_advance()) && item_run(ask, next, items, result, t) {
        let (reply, after) = choose|
            reply: ParserResult<NodeRef<'arena>>,
            after: Cursor<'arena>,
        | #[trigger]
            answered(ask, next, reply, after) && match reply {
                Ok(item) => items_run(ask, after, items.push(item), result, t),
                Err(error) => fails(result, error) && t == after,
            };
        if let Ok(item) = reply {
            items_never_go_back(ask, after, items.push(item), result, t);
        }
    }
}

/// An array does not lead back.
pub proof fn array_never_goes_back<'arena>(
    ask: Replies<'arena>,
    s: Cursor<'arena>,
    result: ParserResult<Option<NodeRef<'arena>>>,
    t: Cursor<'arena>,
)
    requires
        s.wf(),
        array_run(ask, s, result, t),
    ensures
        s.leads_to(t),
        balanced(ask) && result is Ok ==> t.depth == s.depth,
{
    assert forall|items: ParserResult<Seq<NodeRef<'arena>>>, after: Cursor<'arena>| #[trigger]
        items_run(ask, s.advance(), Seq::empty(), items, after) implies s.advance().leads_to(after)
        && (balanced(ask) && items is Ok ==> after.depth == s.depth) by {
        items_never_go_back(ask, s.advance(), Seq::empty(), items, after);
    }
    assert forall|
        node: NodeRef<'arena>,
        after: Cursor<'arena>,
        inner: ParserResult<NodeRef<'arena>>,
    | #[trigger]
        postfix_run(ask, node, after, inner, t) implies after.leads_to(t) && (balanced(ask)
        && inner is Ok ==> t.depth == after.depth) by {
        postfix_never_goes_back(ask, node, after, inner, t);
    }
}

/// A key of an object does not lead back.
pub proof fn object_key_never_goes_back<'arena>(
    ask: Replies<'arena>,
    s: Cursor<'arena>,
    result: ParserResult<NodeRef<'arena>>,
    t: Cursor<'arena>,
)
    requires
        s.wf(),
        object_key_run(ask, s, result, t),
    ensures
        s.leads_to(t),
        balanced(ask) && result is Ok ==> t.depth == s.depth,
{
}

/// The entries of an object do not lead back.
pub proof fn entries_never_go_back<'arena>(
    ask: Replies<'arena>,
    s: Cursor<'arena>,
    entries: Seq<(NodeRef<'arena>, NodeRef<'arena>)>,
    result: ParserResult<Seq<(NodeRef<'arena>, NodeRef<'arena>)>>,
    t: Cursor<'arena>,
)
    requires
        entries_run(ask, s, entries, result, t),
    ensures
        s.leads_to(t),
        balanced(ask) && result is Ok ==> t.depth == s.depth,
    decreases s.remaining(), 1int,
{
    let colon = TokenKind::Operator(Operator::Slice);
    let (key, after) = choose|key: ParserResult<NodeRef<'arena>>, after: Cursor<'arena>|
        #[trigger]
        object_key_run(ask, s, key, after) && s.leads_to(after) && match key {
            Ok(key) => if !after.takes(colon) {
                refused(after, colon, result, t)
            } else {
                entry_value_run(ask, after.advance(), entries, key, result, t)
            },
            Err(error) => fails(result, error) && t == after,
        };
    if let Ok(key) = key {
        if after.takes(colon) {
            entry_value_never_goes_back(ask, after.advance(), entries, key, result, t);
        }
    }
}

/// The value of an entry does not lead back.
pub proof fn entry_value_never_goes_back<'arena>(
    ask: Replies<'arena>,
    s: Cursor<'arena>,
    entries: Seq<(NodeRef<'arena>, NodeRef<'arena>)>,
    key: NodeRef<'arena>,
    result: ParserResult<Seq<(NodeRef<'arena>, NodeRef<'arena>)>>,
    t: Cursor<'arena>,
)
    requires
        entry_value_run(ask, s, entries, key, result, t),
    ensures
        s.leads_to(t),
        balanced(ask) && result is Ok ==> t.depth == s.depth,
    decreases s.remaining(), 2int,
{
    let comma = TokenKind::Operator(Operator::Comma);
    let (reply, after) = choose|reply: ParserResult<NodeRef<'arena>>, after: Cursor<'arena>|
        #[trigger]
        answered(ask, s, reply, after) && match reply {
            Ok(value) => match after.kind() {
                TokenKind::Operator(Operator::Comma) => if !after.takes(comma) {
                    refused(after, comma, result, t)
                } else {
                    entries_run(ask, after.advance(), entries.push((key, value)), result, t)
                },
                TokenKind::Bracket(Bracket::RightCurlyBracket) => gives(
                    result,
                    entries.push((key, value)),
                ) && t == after,
                _ => surprised("RightCurlyBracket or Comma"@, after, result) && t == after,
            },
            Err(error) => fails(result, error) && t == after,
        };
    if let Ok(value) = reply {
        if after.takes(comma) {
            entries_never_go_back(ask, after.advance(), entries.push((key, value)), result, t);
        }
    }
}

/// An object does not lead back.
pub proof fn object_never_goes_back<'arena>(
    ask: Replies<'arena>,
    s: Cursor<'arena>,
    result: ParserResult<NodeRef<'arena>>,
    t: Cursor<'arena>,
)
    requires
        s.wf(),
        object_run(ask, s, result, t),
    ensures
        s.leads_to(t),
        balanced(ask) && result is Ok ==> t.depth == s.depth,
{
    assert forall|
        entries: ParserResult<Seq<(NodeRef<'arena>, NodeRef<'arena>)>>,
        after: Cursor<'arena>,
    | #[trigger]
        entries_run(ask, s.advance(), Seq::empty(), entries, after) implies s.advance().leads_to(
        after,
    ) && (balanced(ask) && entries is Ok ==> after.depth == s.depth) by {
        entries_never_go_back(ask, s.advance(), Seq::empty(), entries, after);
    }
}

/// A conditional does not lead back.
pub proof fn conditional_never_goes_back<'arena>(
    ask: Replies<'arena>,
    condition: NodeRef<'arena>,
    s: Cursor<'arena>,
    result: ParserResult<Option<NodeRef<'arena>>>,
    t: Cursor<'arena>,
)
    requires
        s.wf(),
        conditional_run(ask, condition, s, result, t),
    ensures
        s.leads_to(t),
        balanced(ask) && result is Ok ==> t.depth == s.depth,
{
}

/// A search for an interval at an opening square bracket may give up deeper than it started: on a
/// part that failed inside a closure.
pub open spec fn gives_up_inside<'arena>(ask: Replies<'arena>, s: Cursor<'arena>) -> bool {
    &&& s.kind() == TokenKind::Bracket(Bracket::LeftSquareBracket)
    &&& exists|back: Cursor<'arena>| #[trigger]
        interval_run(ask, s, Ok(None), back) && back.depth > s.depth
}

/// No construct leads back: a parser of whole expressions that is made of these constructs is one
/// that they can be handed. What is read, is read at one depth, unless it is an array behind a
/// search that gave up inside a closure.
pub proof fn literal_never_goes_back<'arena>(
    ask: Replies<'arena>,
    parsed: Option<Decimal>,
    s: Cursor<'arena>,
    result: ParserResult<NodeRef<'arena>>,
    t: Cursor<'arena>,
)
    requires
        s.wf(),
        literal_run(ask, parsed, s, result, t),
    ensures
        s.leads_to(t),
        balanced(ask) && !gives_up_inside(ask, s) && result is Ok ==> t.depth == s.depth,
{
    let option = found(result);
    if identifier_run(ask, s, option, t) {
        identifier_never_goes_back(ask, s, option, t);
    }
    if template_string_run(ask, s, result, t) {
        template_string_never_goes_back(ask, s, result, t);
    }
    if object_run(ask, s, result, t) {
        object_never_goes_back(ask, s, result, t);
    }
    if interval_run(ask, s, option, t) {
        interval_never_goes_back(ask, s, option, t);
    } else if s.kind() == TokenKind::Bracket(Bracket::LeftSquareBracket) {
        let back = choose|back: Cursor<'arena>| #[trigger]
            interval_run(ask, s, Ok(None), back) && array_run(ask, back, option, t);
        interval_never_goes_back(ask, s, Ok(None), back);
        array_never_goes_back(ask, back, option, t);
    } else if interval_run(ask, s, Ok(None), t) {
        interval_never_goes_back(ask, s, Ok(None), t);
    }
}

} // verus!
