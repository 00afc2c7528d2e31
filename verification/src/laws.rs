//! What holds of all inputs.
use crate::ast::{Node, NodeRef};
use crate::builtin::BuiltInFunction;
use crate::cursor::Cursor;
use crate::error::ParserResult;
use crate::grammar::{
    answered, array_run, balanced, bool_run, call_run, can_nest, closure_run, conditional_run,
    entries_run, entry_value_run, fails, gives, identifier_run, interval_run, interval_search_run,
    item_run, items_run, literal_run, null_run, number_run, object_key_run, pieces_run,
    postfix_run, refused, rejected, subscript_run, surprised, Replies,
};
use crate::progress::{
    call_never_goes_back, entries_never_go_back, items_never_go_back, pieces_never_go_back,
    postfix_never_goes_back,
};
use crate::token::{Bracket, Operator, TemplateString, TokenKind};
use rust_decimal::Decimal;
use vstd::prelude::*;

verus! {

/// The last token can be passed once: from behind it there is no way on.
pub proof fn last_token_is_passed_once(s: Cursor)
    requires
        s.wf(),
        s.position + 1 >= s.tokens.len(),
    ensures
        !s.advance().can_advance(),
{
}

/// Where no number is found, the parser has not moved.
pub proof fn absent_number_moves_nothing<'arena>(
    parsed: Option<Decimal>,
    s: Cursor<'arena>,
    t: Cursor<'arena>,
)
    requires
        number_run(parsed, s, Ok(None), t),
    ensures
        t == s,
{
}

/// Where neither `true` nor `false` is found, the parser has not moved.
pub proof fn absent_bool_moves_nothing<'arena>(s: Cursor<'arena>, t: Cursor<'arena>)
    requires
        bool_run(s, Ok(None), t),
    ensures
        t == s,
{
}

/// Where no `null` is found, the parser has not moved.
pub proof fn absent_null_moves_nothing<'arena>(s: Cursor<'arena>, t: Cursor<'arena>)
    requires
        null_run(s, Ok(None), t),
    ensures
        t == s,
{
}

/// Where no identifier is found, the parser has not moved.
pub proof fn absent_identifier_moves_nothing<'arena>(
    ask: Replies<'arena>,
    s: Cursor<'arena>,
    t: Cursor<'arena>,
)
    requires
        identifier_run(ask, s, Ok(None), t),
    ensures
        t == s,
{
}

/// Where no array is found, the parser has not moved.
pub proof fn absent_array_moves_nothing<'arena>(
    ask: Replies<'arena>,
    s: Cursor<'arena>,
    t: Cursor<'arena>,
)
    requires
        array_run(ask, s, Ok(None), t),
    ensures
        t == s,
{
}

/// Where no conditional is found, the parser has not moved.
pub proof fn absent_conditional_moves_nothing<'arena>(
    ask: Replies<'arena>,
    condition: NodeRef<'arena>,
    s: Cursor<'arena>,
    t: Cursor<'arena>,
)
    requires
        conditional_run(ask, condition, s, Ok(None), t),
    ensures
        t == s,
{
}

/// Where no interval is found, the parser stands at the token where it stood, whatever it has
/// read in between.
pub proof fn absent_interval_returns<'arena>(
    ask: Replies<'arena>,
    s: Cursor<'arena>,
    t: Cursor<'arena>,
)
    requires
        interval_run(ask, s, Ok(None), t),
    ensures
        t.tokens == s.tokens,
        t.position == s.position,
        t.current() == s.current(),
{
}

/// Where there is no range operator among the tokens, a search would not find an interval
/// either: to leave it out changes neither the result nor the place where the parser stands.
pub proof fn no_interval_without_range<'arena>(
    ask: Replies<'arena>,
    s: Cursor<'arena>,
    result: ParserResult<Option<NodeRef<'arena>>>,
    t: Cursor<'arena>,
)
    requires
        s.wf(),
        !s.ranged(),
        s.kind() is Bracket ==> s.can_advance(),
        interval_search_run(ask, s, result, t),
    ensures
        gives(result, None),
        t.tokens == s.tokens,
        t.position == s.position,
{
    let range = TokenKind::Operator(Operator::Range);
    assert forall|after: Cursor<'arena>| #[trigger]
        s.advance().leads_to(after) implies !after.takes(range) by {
        if after.position < after.tokens.len() {
            assert(s.tokens[after.position].kind == after.kind());
        } else {
            assert(s.tokens[s.tokens.len() - 1].kind == after.kind());
        }
    }
}

/// Whatever is read, at least one token is passed.
pub proof fn literal_passes_a_token<'arena>(
    ask: Replies<'arena>,
    parsed: Option<Decimal>,
    s: Cursor<'arena>,
    node: NodeRef<'arena>,
    t: Cursor<'arena>,
)
    requires
        s.wf(),
        literal_run(ask, parsed, s, Ok(node), t),
    ensures
        s.position < t.position,
{
    let result: ParserResult<NodeRef<'arena>> = Ok(node);
    assert forall|
        base: NodeRef<'arena>,
        after: Cursor<'arena>,
        inner: ParserResult<NodeRef<'arena>>,
        last: Cursor<'arena>,
    | #[trigger]
        postfix_run(ask, base, after, inner, last) implies after.leads_to(last) by {
        postfix_never_goes_back(ask, base, after, inner, last);
    }
    assert forall|
        function: BuiltInFunction,
        after: Cursor<'arena>,
        inner: ParserResult<NodeRef<'arena>>,
    |
        after.wf() && #[trigger] call_run(ask, function, after, inner, t) implies after.leads_to(
        t,
    ) by {
        call_never_goes_back(ask, function, after, inner, t);
    }
    assert forall|
        first: Cursor<'arena>,
        pieces: ParserResult<Seq<NodeRef<'arena>>>,
        after: Cursor<'arena>,
    | #[trigger]
        pieces_run(ask, first, Seq::empty(), pieces, after) implies first.leads_to(after) by {
        pieces_never_go_back(ask, first, Seq::empty(), pieces, after);
    }
    assert forall|
        first: Cursor<'arena>,
        items: ParserResult<Seq<NodeRef<'arena>>>,
        after: Cursor<'arena>,
    | #[trigger]
        items_run(ask, first, Seq::empty(), items, after) implies first.leads_to(after) by {
        items_never_go_back(ask, first, Seq::empty(), items, after);
    }
    assert forall|
        first: Cursor<'arena>,
        entries: ParserResult<Seq<(NodeRef<'arena>, NodeRef<'arena>)>>,
        after: Cursor<'arena>,
    | #[trigger]
        entries_run(ask, first, Seq::empty(), entries, after) implies first.leads_to(after) by {
        entries_never_go_back(ask, first, Seq::empty(), entries, after);
    }
}

/// A closure whose body cannot be read leaves the parser inside it.
pub proof fn failed_closure_stays_inside<'arena>(
    ask: Replies<'arena>,
    s: Cursor<'arena>,
    result: ParserResult<NodeRef<'arena>>,
    t: Cursor<'arena>,
)
    requires
        closure_run(ask, s, result, t),
        result is Err,
    ensures
        t.depth > s.depth,
{
}

/// Where the parser of whole expressions comes out as deep as it went in, closures can be nested
/// as deep as the parser can count.
pub proof fn balanced_parser_can_nest<'arena>(ask: Replies<'arena>, s: Cursor<'arena>)
    requires
        s.wf(),
        balanced(ask),
        s.depth < u8::MAX,
    ensures
        can_nest(ask, s),
{
}

/// The node is the given one with accesses, indices and slices put around it.
pub open spec fn rests_on<'arena>(node: NodeRef<'arena>, base: NodeRef<'arena>) -> bool
    decreases node,
{
    node == base || match node {
        Node::Member { node: inner, .. } => rests_on(inner, base),
        Node::Slice { node: inner, .. } => rests_on(inner, base),
        _ => false,
    }
}

proof fn rests_on_is_transitive<'arena>(
    node: NodeRef<'arena>,
    middle: NodeRef<'arena>,
    base: NodeRef<'arena>,
)
    requires
        rests_on(node, middle),
        rests_on(middle, base),
    ensures
        rests_on(node, base),
    decreases node,
{
    if node != middle {
        match node {
            Node::Member { node: inner, .. } => rests_on_is_transitive(inner, middle, base),
            Node::Slice { node: inner, .. } => rests_on_is_transitive(inner, middle, base),
            _ => {},
        }
    }
}

/// What stands behind a node is put around it; the node itself stays as it is.
pub proof fn postfix_keeps_the_node<'arena>(
    ask: Replies<'arena>,
    base: NodeRef<'arena>,
    s: Cursor<'arena>,
    node: NodeRef<'arena>,
    t: Cursor<'arena>,
)
    requires
        postfix_run(ask, base, s, Ok(node), t),
    ensures
        rests_on(node, base),
    decreases s.remaining(),
{
    let result: ParserResult<NodeRef<'arena>> = Ok(node);
    let property = s.advance();
    let member = &Node::Member { node: base, property: &Node::String(property.value()) };
    reveal_with_fuel(rests_on, 2);
    if s.kind() == TokenKind::Operator(Operator::Dot) {
        postfix_keeps_the_node(ask, member, property.advance(), node, t);
        rests_on_is_transitive(node, member, base);
    } else if s.kind() == TokenKind::Bracket(Bracket::LeftSquareBracket) {
        let (inner, after) = choose|inner: ParserResult<NodeRef<'arena>>, after: Cursor<'arena>|
            #[trigger]
            subscript_run(ask, base, s.advance(), inner, after) && s.advance().leads_to(after)
                && match inner {
                Ok(accessed) => postfix_run(ask, accessed, after, result, t),
                Err(error) => fails(result, error) && t == after,
            };
        let accessed = inner->Ok_0;
        postfix_keeps_the_node(ask, accessed, after, node, t);
        assert(rests_on(accessed, base));
        rests_on_is_transitive(node, accessed, base);
    }
}

/// The items of an array stay in the order in which they are read.
pub proof fn items_keep_their_order<'arena>(
    ask: Replies<'arena>,
    s: Cursor<'arena>,
    items: Seq<NodeRef<'arena>>,
    list: Seq<NodeRef<'arena>>,
    t: Cursor<'arena>,
)
    requires
        items_run(ask, s, items, Ok(list), t),
    ensures
        items.is_prefix_of(list),
    decreases
            s.remaining(),
            (if items.len() == 0 {
                1int
            } else {
                0int
            }),
{
    let result: ParserResult<Seq<NodeRef<'arena>>> = Ok(list);
    let next = if items.len() == 0 {
        s
    } else {
        s.advance()
    };
    if s.kind() != TokenKind::Bracket(Bracket::RightSquareBracket) && !(items.len() > 0
        && next.kind() == TokenKind::Bracket(Bracket::RightSquareBracket)) {
        let (reply, after) = choose|reply: ParserResult<NodeRef<'arena>>, after: Cursor<'arena>|
            #[trigger]
            answered(ask, next, reply, after) && match reply {
                Ok(item) => items_run(ask, after, items.push(item), result, t),
                Err(error) => fails(result, error) && t == after,
            };
        assert(item_run(ask, next, items, result, t));
        items_keep_their_order(ask, after, items.push(reply->Ok_0), list, t);
        assert(items.is_prefix_of(items.push(reply->Ok_0)));
    }
}

/// The pieces of a template string stay in the order in which they are read.
pub proof fn pieces_keep_their_order<'arena>(
    ask: Replies<'arena>,
    s: Cursor<'arena>,
    pieces: Seq<NodeRef<'arena>>,
    list: Seq<NodeRef<'arena>>,
    t: Cursor<'arena>,
)
    requires
        pieces_run(ask, s, pieces, Ok(list), t),
    ensures
        pieces.is_prefix_of(list),
    decreases s.remaining(),
{
    let result: ParserResult<Seq<NodeRef<'arena>>> = Ok(list);
    let text: NodeRef<'arena> = &Node::String(s.value());
    if s.kind() is Literal {
        pieces_keep_their_order(ask, s.advance(), pieces.push(text), list, t);
        assert(pieces.is_prefix_of(pieces.push(text)));
    } else if s.kind() == TokenKind::TemplateString(TemplateString::ExpressionEnd) {
        pieces_keep_their_order(ask, s.advance(), pieces, list, t);
    } else if s.kind() == TokenKind::TemplateString(TemplateString::ExpressionStart) {
        let (reply, after) = choose|reply: ParserResult<NodeRef<'arena>>, after: Cursor<'arena>|
            #[trigger]
            answered(ask, s.advance(), reply, after) && match reply {
                Ok(piece) => pieces_run(ask, after, pieces.push(piece), result, t),
                Err(error) => fails(result, error) && t == after,
            };
        pieces_keep_their_order(ask, after, pieces.push(reply->Ok_0), list, t);
        assert(pieces.is_prefix_of(pieces.push(reply->Ok_0)));
    }
}

/// The entries of an object stay in the order in which they are read, two with the same key too.
pub proof fn entries_keep_their_order<'arena>(
    ask: Replies<'arena>,
    s: Cursor<'arena>,
    entries: Seq<(NodeRef<'arena>, NodeRef<'arena>)>,
    list: Seq<(NodeRef<'arena>, NodeRef<'arena>)>,
    t: Cursor<'arena>,
)
    requires
        entries_run(ask, s, entries, Ok(list), t),
    ensures
        entries.is_prefix_of(list),
        entries.len() < list.len(),
    decreases s.remaining(),
{
    let result: ParserResult<Seq<(NodeRef<'arena>, NodeRef<'arena>)>> = Ok(list);
    let colon = TokenKind::Operator(Operator::Slice);
    let comma = TokenKind::Operator(Operator::Comma);
    let (key, after) = choose|key: ParserResult<NodeRef<'arena>>, after: Cursor<'arena>|
        #[trigger]
        object_key_run(ask, s, key, after) && s.leads_to(after) && match key {
            Ok(key) => if !after.takes(colon) {
                refused(after, colon, result, t)
            } else {
                entry_value_run(ask, after.advance(), entries, key, result, t)
            },
            Err(error) => fails(result, error) && t == after,
        };
    let key = key->Ok_0;
    let inner = after.advance();
    let (reply, behind) = choose|reply: ParserResult<NodeRef<'arena>>, behind: Cursor<'arena>|
        #[trigger]
        answered(ask, inner, reply, behind) && match reply {
            Ok(value) => match behind.kind() {
                TokenKind::Operator(Operator::Comma) => if !behind.takes(comma) {
                    refused(behind, comma, result, t)
                } else {
                    entries_run(ask, behind.advance(), entries.push((key, value)), result, t)
                },
                TokenKind::Bracket(Bracket::RightCurlyBracket) => gives(
                    result,
                    entries.push((key, value)),
                ) && t == behind,
                _ => surprised("RightCurlyBracket or Comma"@, behind, result) && t == behind,
            },
            Err(error) => fails(result, error) && t == behind,
        };
    assert(entry_value_run(ask, inner, entries, key, result, t));
    let more = entries.push((key, reply->Ok_0));
    assert(entries.is_prefix_of(more));
    if behind.kind() == comma {
        entries_keep_their_order(ask, behind.advance(), more, list, t);
    }
}

/// A comma behind the last item of an array adds no item.
pub proof fn trailing_comma_adds_no_item<'arena>(
    ask: Replies<'arena>,
    s: Cursor<'arena>,
    items: Seq<NodeRef<'arena>>,
    result: ParserResult<Seq<NodeRef<'arena>>>,
    t: Cursor<'arena>,
)
    requires
        items.len() > 0,
        s.takes(TokenKind::Operator(Operator::Comma)),
        s.advance().kind() == TokenKind::Bracket(Bracket::RightSquareBracket),
        items_run(ask, s, items, result, t),
    ensures
        gives(result, items),
        t == s.advance(),
{
}

/// Where an entry of an object has to start, a closing bracket is an error: an object takes no
/// comma behind its last entry.
pub proof fn object_takes_no_trailing_comma<'arena>(
    ask: Replies<'arena>,
    s: Cursor<'arena>,
    entries: Seq<(NodeRef<'arena>, NodeRef<'arena>)>,
    result: ParserResult<Seq<(NodeRef<'arena>, NodeRef<'arena>)>>,
    t: Cursor<'arena>,
)
    requires
        s.kind() == TokenKind::Bracket(Bracket::RightCurlyBracket),
        entries_run(ask, s, entries, result, t),
    ensures
        rejected("Operator is not supported as object key"@, s, result),
        t == s,
{
}

} // verus!
