//! What the parser does, in terms of tokens, of answers and of nodes alone: template strings,
//! arrays and objects.
use crate::ast::{Node, NodeRef};
use crate::cursor::Cursor;
use crate::error::{ParserError, ParserResult};
use crate::grammar::{
    answered, array_run, entries_run, entry_value_run, fails, found, gives, is_array, item_run,
    items_run, object_key_run, object_run, pieces_run, postfix_run, refused, simple_string_run,
    surprised, template_string_run, Replies,
};
use crate::meaning::{
    answers, complains, hands_on, is_there, lacks, out_of_tokens, passable, past, sees, token_at,
    unexpected,
};
use crate::meaning_chains::{chain_is_read_to_its_end, goes_on};
use crate::progress::items_never_go_back;
use crate::token::{Bracket, Operator, QuotationMark, TemplateString, TokenKind};
use vstd::prelude::*;

verus! {

/// What the token in view adds to a template string: a text adds itself, an opening mark adds the
/// expression behind it, a closing mark adds nothing. `next` is the state behind it.
pub open spec fn contributes<'arena>(
    ask: Replies<'arena>,
    s: Cursor<'arena>,
    added: Seq<NodeRef<'arena>>,
    next: Cursor<'arena>,
) -> bool {
    &&& passable(s)
    &&& match token_at(s).kind {
        TokenKind::Literal => {
            &&& added.len() == 1
            &&& added[0] == Node::String(token_at(s).value)
            &&& next == past(s)
        },
        TokenKind::TemplateString(mark) => if mark is ExpressionStart {
            added.len() == 1 && answered(ask, past(s), Ok(added[0]), next)
        } else {
            added.len() == 0 && next == past(s)
        },
        _ => false,
    }
}

/// The tokens from `stops[0]` on are those of a template string up to a backtick: each stop adds
/// its part, and the next stop is behind it.
pub open spec fn spells_a_template<'arena>(
    ask: Replies<'arena>,
    stops: Seq<Cursor<'arena>>,
    parts: Seq<Seq<NodeRef<'arena>>>,
) -> bool {
    &&& stops.len() == parts.len() + 1
    &&& forall|i: int|
        0 <= i < parts.len() ==> contributes(ask, stops[i], #[trigger] parts[i], stops[i + 1])
    &&& token_at(stops.last()).kind == TokenKind::QuotationMark(QuotationMark::Backtick)
}

/// The parser of whole expressions has one answer at each opening mark among the stops.
pub open spec fn surely_spelled<'arena>(
    ask: Replies<'arena>,
    stops: Seq<Cursor<'arena>>,
    parts: Seq<Seq<NodeRef<'arena>>>,
) -> bool {
    forall|i: int|
        0 <= i < parts.len() && token_at(stops[i]).kind == TokenKind::TemplateString(
            TemplateString::ExpressionStart,
        ) ==> answers(ask, past(stops[i]), Ok((#[trigger] parts[i])[0]), stops[i + 1])
}

/// A template string is read piece by piece: each token adds what it stands for behind what is
/// there, and a backtick ends it. Any other token is reported.
pub proof fn template_is_read_piece_by_piece<'arena>(
    ask: Replies<'arena>,
    s: Cursor<'arena>,
    pieces: Seq<NodeRef<'arena>>,
    result: ParserResult<Seq<NodeRef<'arena>>>,
    t: Cursor<'arena>,
)
    requires
        s.wf(),
        pieces_run(ask, s, pieces, result, t),
    ensures
        ({
            let text = token_at(s).kind is Literal;
            let end = token_at(s).kind == TokenKind::QuotationMark(QuotationMark::Backtick);
            let open = token_at(s).kind == TokenKind::TemplateString(
                TemplateString::ExpressionStart,
            );
            let close = token_at(s).kind == TokenKind::TemplateString(
                TemplateString::ExpressionEnd,
            );
            &&& end ==> (result matches Ok(list) && list == pieces) && t == s
            &&& text && passable(s) ==> pieces_run(
                ask,
                past(s),
                pieces.push(&Node::String(token_at(s).value)),
                result,
                t,
            )
            &&& close && passable(s) ==> pieces_run(ask, past(s), pieces, result, t)
            &&& open && passable(s) ==> {
                &&& forall|piece: NodeRef<'arena>, m: Cursor<'arena>| #[trigger]
                    answers(ask, past(s), Ok(piece), m) ==> pieces_run(
                        ask,
                        m,
                        pieces.push(piece),
                        result,
                        t,
                    )
                &&& forall|error: ParserError, m: Cursor<'arena>| #[trigger]
                    answers(ask, past(s), Err(error), m) ==> hands_on(result, error) && t == m
            }
            &&& (text || close || open) && !passable(s) ==> out_of_tokens(s, result, t)
            &&& !text && !end && !close && !open ==> (result matches Err(error) && unexpected(
                error,
                "Valid TemplateString token"@,
                s,
            )) && t == s
        }),
{
    assert(past(s) == s.advance());
}

/// A template string starts and ends with a backtick, and is the pieces in between.
pub proof fn template_is_its_pieces_between_backticks<'arena>(
    ask: Replies<'arena>,
    s: Cursor<'arena>,
    result: ParserResult<NodeRef<'arena>>,
    t: Cursor<'arena>,
) -> (read: (ParserResult<Seq<NodeRef<'arena>>>, Cursor<'arena>))
    requires
        s.wf(),
        template_string_run(ask, s, result, t),
    ensures
        ({
            let quote = TokenKind::QuotationMark(QuotationMark::Backtick);
            &&& !sees(s, quote) ==> lacks(s, quote, result, t)
            &&& sees(s, quote) ==> pieces_run(ask, past(s), Seq::empty(), read.0, read.1)
            &&& sees(s, quote) ==> match read.0 {
                Ok(list) => if sees(read.1, quote) {
                    (result matches Ok(node) && (node matches Node::TemplateString(pieces)
                        && pieces@ == list)) && t == past(read.1)
                } else {
                    lacks(read.1, quote, result, t)
                },
                Err(error) => (result matches Err(handed) && handed == error) && t == read.1,
            }
        }),
{
    let quote = TokenKind::QuotationMark(QuotationMark::Backtick);
    assert(past(s) == s.advance());
    let (pieces, close) = choose|
        pieces: ParserResult<Seq<NodeRef<'arena>>>,
        close: Cursor<'arena>,
    | #[trigger]
        pieces_run(ask, past(s), Seq::empty(), pieces, close) && match pieces {
            Ok(list) => if sees(close, quote) {
                (result matches Ok(node) && (node matches Node::TemplateString(pieces) && pieces@
                    == list)) && t == past(close)
            } else {
                lacks(close, quote, result, t)
            },
            Err(error) => (result matches Err(handed) && handed == error) && t == close,
        };
    (pieces, close)
}

/// From a state on, a successful reading of pieces is spelled by the tokens. Returns the stops and
/// what each of them adds.
pub proof fn read_pieces_are_spelled<'arena>(
    ask: Replies<'arena>,
    s: Cursor<'arena>,
    pieces: Seq<NodeRef<'arena>>,
    list: Seq<NodeRef<'arena>>,
    t: Cursor<'arena>,
) -> (read: (Seq<Cursor<'arena>>, Seq<Seq<NodeRef<'arena>>>))
    requires
        pieces_run(ask, s, pieces, Ok(list), t),
    ensures
        spells_a_template(ask, read.0, read.1),
        read.0[0] == s,
        read.0.last() == t,
        list == pieces + read.1.flatten(),
    decreases s.remaining(),
{
    let result: ParserResult<Seq<NodeRef<'arena>>> = Ok(list);
    let kind = token_at(s).kind;
    assert(past(s) == s.advance());
    if kind == TokenKind::QuotationMark(QuotationMark::Backtick) {
        let parts: Seq<Seq<NodeRef<'arena>>> = Seq::empty();
        assert(pieces + parts.flatten() =~= pieces);
        (seq![s], parts)
    } else {
        let (next, added): (Cursor<'arena>, Seq<NodeRef<'arena>>) = if kind is Literal {
            (past(s), seq![&Node::String(token_at(s).value)])
        } else if kind == TokenKind::TemplateString(TemplateString::ExpressionEnd) {
            (past(s), Seq::empty())
        } else {
            let (reply, after) = choose|reply: ParserResult<NodeRef<'arena>>, after: Cursor<'arena>|
                #[trigger]
                answered(ask, past(s), reply, after) && match reply {
                    Ok(piece) => pieces_run(ask, after, pieces.push(piece), result, t),
                    Err(error) => fails(result, error) && t == after,
                };
            (after, seq![reply->Ok_0])
        };
        assert(added.len() == 1 ==> pieces + added =~= pieces.push(added[0]));
        assert(added.len() == 0 ==> pieces + added =~= pieces);
        let (stops, parts) = read_pieces_are_spelled(ask, next, pieces + added, list, t);
        let all = seq![added] + parts;
        let marks = seq![s] + stops;
        assert(all.drop_first() =~= parts);
        assert(all.flatten() == added + parts.flatten());
        assert(pieces + all.flatten() =~= (pieces + added) + parts.flatten());
        assert forall|i: int| 0 <= i < all.len() implies contributes(
            ask,
            marks[i],
            #[trigger] all[i],
            marks[i + 1],
        ) by {
            if i > 0 {
                assert(all[i] == parts[i - 1]);
            }
        }
        (marks, all)
    }
}

/// Whatever the parser of whole expressions is like, the pieces of a template string are what its
/// tokens add, all of them and in their order: every text as it is, and every expression. Returns
/// the stops and what each of them adds.
pub proof fn template_is_all_that_its_tokens_add<'arena>(
    ask: Replies<'arena>,
    s: Cursor<'arena>,
    node: NodeRef<'arena>,
    t: Cursor<'arena>,
) -> (read: (Seq<Cursor<'arena>>, Seq<Seq<NodeRef<'arena>>>))
    requires
        s.wf(),
        template_string_run(ask, s, Ok(node), t),
    ensures
        sees(s, TokenKind::QuotationMark(QuotationMark::Backtick)),
        spells_a_template(ask, read.0, read.1),
        read.0[0] == past(s),
        node matches Node::TemplateString(pieces) && pieces@ == read.1.flatten(),
        sees(read.0.last(), TokenKind::QuotationMark(QuotationMark::Backtick)),
        t == past(read.0.last()),
{
    let (pieces, close) = template_is_its_pieces_between_backticks(ask, s, Ok(node), t);
    let list = pieces->Ok_0;
    let (stops, parts) = read_pieces_are_spelled(ask, past(s), Seq::empty(), list, close);
    assert(Seq::<NodeRef<'arena>>::empty() + parts.flatten() =~= parts.flatten());
    (stops, parts)
}

/// A template string has one piece for each text and each expression among its tokens.
pub proof fn template_has_as_many_pieces<'arena>(
    ask: Replies<'arena>,
    stops: Seq<Cursor<'arena>>,
    parts: Seq<Seq<NodeRef<'arena>>>,
)
    requires
        spells_a_template(ask, stops, parts),
    ensures
        parts.flatten().len() == pieces_among(stops),
    decreases parts.len(),
{
    if parts.len() > 0 {
        let rest = parts.drop_first();
        let later = stops.drop_first();
        assert forall|i: int| 0 <= i < rest.len() implies contributes(
            ask,
            later[i],
            #[trigger] rest[i],
            later[i + 1],
        ) by {
            assert(rest[i] == parts[i + 1]);
        }
        template_has_as_many_pieces(ask, later, rest);
        assert(contributes(ask, stops[0], parts[0], stops[1]));
        assert(parts.flatten() == parts[0] + rest.flatten());
    } else {
        reveal_with_fuel(pieces_among, 2);
        assert(stops.last() == stops[0]);
        assert(parts.flatten().len() == 0);
    }
}

/// The number of texts and of opening marks among the tokens at these stops.
pub open spec fn pieces_among<'arena>(stops: Seq<Cursor<'arena>>) -> nat
    decreases stops.len(),
{
    if stops.len() == 0 {
        0
    } else {
        let kind = token_at(stops[0]).kind;
        let here: nat = if kind is Literal || kind == TokenKind::TemplateString(
            TemplateString::ExpressionStart,
        ) {
            1
        } else {
            0
        };
        here + pieces_among(stops.drop_first())
    }
}

/// Where the tokens spell pieces, these are read.
proof fn spelled_pieces_are_read<'arena>(
    ask: Replies<'arena>,
    stops: Seq<Cursor<'arena>>,
    parts: Seq<Seq<NodeRef<'arena>>>,
    pieces: Seq<NodeRef<'arena>>,
    result: ParserResult<Seq<NodeRef<'arena>>>,
    t: Cursor<'arena>,
)
    requires
        stops[0].wf(),
        spells_a_template(ask, stops, parts),
        surely_spelled(ask, stops, parts),
        pieces_run(ask, stops[0], pieces, result, t),
    ensures
        result matches Ok(list) && list == pieces + parts.flatten(),
        t == stops.last(),
    decreases parts.len(),
{
    template_is_read_piece_by_piece(ask, stops[0], pieces, result, t);
    if parts.len() == 0 {
        assert(pieces + parts.flatten() =~= pieces);
    } else {
        let added = parts[0];
        let rest = parts.drop_first();
        let later = stops.drop_first();
        assert(contributes(ask, stops[0], parts[0], stops[1]));
        assert(added.len() == 1 ==> pieces + added =~= pieces.push(added[0]));
        assert(added.len() == 0 ==> pieces + added =~= pieces);
        assert forall|i: int| 0 <= i < rest.len() implies contributes(
            ask,
            later[i],
            #[trigger] rest[i],
            later[i + 1],
        ) by {
            assert(rest[i] == parts[i + 1]);
        }
        assert forall|i: int|
            0 <= i < rest.len() && token_at(later[i]).kind == TokenKind::TemplateString(
                TemplateString::ExpressionStart,
            ) implies answers(ask, past(later[i]), Ok((#[trigger] rest[i])[0]), later[i + 1]) by {
            assert(rest[i] == parts[i + 1]);
        }
        spelled_pieces_are_read(ask, later, rest, pieces + added, result, t);
        assert(parts.flatten() == added + rest.flatten());
        assert((pieces + added) + rest.flatten() =~= pieces + parts.flatten());
    }
}

/// Where the tokens spell a template string, it is read, with all its pieces in order.
pub proof fn spelled_template_is_read<'arena>(
    ask: Replies<'arena>,
    s: Cursor<'arena>,
    stops: Seq<Cursor<'arena>>,
    parts: Seq<Seq<NodeRef<'arena>>>,
    result: ParserResult<NodeRef<'arena>>,
    t: Cursor<'arena>,
)
    requires
        s.wf(),
        sees(s, TokenKind::QuotationMark(QuotationMark::Backtick)),
        spells_a_template(ask, stops, parts),
        surely_spelled(ask, stops, parts),
        stops[0] == past(s),
        passable(stops.last()),
        template_string_run(ask, s, result, t),
    ensures
        result matches Ok(node) && (node matches Node::TemplateString(pieces) && pieces@
            == parts.flatten()),
        t == past(stops.last()),
{
    let (pieces, close) = template_is_its_pieces_between_backticks(ask, s, result, t);
    spelled_pieces_are_read(ask, stops, parts, Seq::empty(), pieces, close);
    assert(Seq::<NodeRef<'arena>>::empty() + parts.flatten() =~= parts.flatten());
}

/// The state in which an item of a list is asked for: the first one in the given state, each other
/// behind the comma behind the item before it.
pub open spec fn start_of<'arena>(
    first: Cursor<'arena>,
    ends: Seq<Cursor<'arena>>,
    i: int,
) -> Cursor<'arena> {
    if i == 0 {
        first
    } else {
        past(ends[i - 1])
    }
}

/// Item `i` of a list is the answer in the state in which it is asked for, up to `ends[i]`. It is
/// not asked for at a closing square bracket.
pub open spec fn item_is_answered<'arena>(
    ask: Replies<'arena>,
    first: Cursor<'arena>,
    list: Seq<NodeRef<'arena>>,
    ends: Seq<Cursor<'arena>>,
    i: int,
) -> bool {
    &&& answered(ask, start_of(first, ends, i), Ok(list[i]), ends[i])
    &&& token_at(start_of(first, ends, i)).kind != TokenKind::Bracket(Bracket::RightSquareBracket)
}

/// There is no other answer than item `i` where that is asked for.
pub open spec fn item_is_sure<'arena>(
    ask: Replies<'arena>,
    first: Cursor<'arena>,
    list: Seq<NodeRef<'arena>>,
    ends: Seq<Cursor<'arena>>,
    i: int,
) -> bool {
    answers(ask, start_of(first, ends, i), Ok(list[i]), ends[i])
}

/// The tokens spell these items, with one comma between two of them.
pub open spec fn spells_items<'arena>(
    ask: Replies<'arena>,
    first: Cursor<'arena>,
    list: Seq<NodeRef<'arena>>,
    ends: Seq<Cursor<'arena>>,
) -> bool {
    &&& list.len() == ends.len()
    &&& forall|i: int|
        0 <= i < list.len() ==> #[trigger] item_is_answered(ask, first, list, ends, i)
    &&& forall|i: int|
        0 <= i < list.len() - 1 ==> sees(#[trigger] ends[i], TokenKind::Operator(Operator::Comma))
}

/// The tokens spell a list of items up to a closing square bracket at `last`. Behind the last item
/// a comma may stand.
pub open spec fn spells_a_list<'arena>(
    ask: Replies<'arena>,
    first: Cursor<'arena>,
    list: Seq<NodeRef<'arena>>,
    ends: Seq<Cursor<'arena>>,
    last: Cursor<'arena>,
) -> bool {
    &&& spells_items(ask, first, list, ends)
    &&& list.len() == 0 ==> last == first
    &&& list.len() > 0 ==> last == ends.last() || (sees(
        ends.last(),
        TokenKind::Operator(Operator::Comma),
    ) && last == past(ends.last()))
    &&& token_at(last).kind == TokenKind::Bracket(Bracket::RightSquareBracket)
}

/// Where the next item is asked for, behind as many items: right here for the first one, behind
/// the comma for another.
pub open spec fn next_start<'arena>(s: Cursor<'arena>, items: Seq<NodeRef<'arena>>) -> Cursor<
    'arena,
> {
    if items.len() == 0 {
        s
    } else {
        past(s)
    }
}

/// An array is read item by item: behind an item comes a comma or the end, and behind a comma an
/// item or the end. What is asked for an item, is added behind what is there.
pub proof fn array_is_read_item_by_item<'arena>(
    ask: Replies<'arena>,
    s: Cursor<'arena>,
    items: Seq<NodeRef<'arena>>,
    result: ParserResult<Seq<NodeRef<'arena>>>,
    t: Cursor<'arena>,
)
    requires
        s.wf(),
        items_run(ask, s, items, result, t),
    ensures
        ({
            let end = TokenKind::Bracket(Bracket::RightSquareBracket);
            let comma = TokenKind::Operator(Operator::Comma);
            &&& token_at(s).kind == end ==> (result matches Ok(list) && list == items) && t == s
            &&& token_at(s).kind != end && items.len() > 0 && !sees(s, comma) ==> lacks(
                s,
                comma,
                result,
                t,
            )
            &&& items.len() > 0 && sees(s, comma) && token_at(past(s)).kind == end ==> (
            result matches Ok(list) && list == items) && t == past(s)
            &&& token_at(s).kind != end && (items.len() == 0 || sees(s, comma)) && token_at(
                next_start(s, items),
            ).kind != end ==> {
                &&& forall|item: NodeRef<'arena>, m: Cursor<'arena>| #[trigger]
                    answers(ask, next_start(s, items), Ok(item), m) ==> items_run(
                        ask,
                        m,
                        items.push(item),
                        result,
                        t,
                    )
                &&& forall|error: ParserError, m: Cursor<'arena>| #[trigger]
                    answers(ask, next_start(s, items), Err(error), m) ==> hands_on(result, error)
                        && t == m
            }
        }),
{
    let end = TokenKind::Bracket(Bracket::RightSquareBracket);
    let start = next_start(s, items);
    assert(past(s) == s.advance());
    if token_at(s).kind != end && token_at(start).kind != end && (items.len() == 0 || sees(
        s,
        TokenKind::Operator(Operator::Comma),
    )) {
        assert(item_run(ask, start, items, result, t));
    }
}

/// An array starts with an opening square bracket, is the items up to the closing one, and has its
/// chain of accesses behind it. No other token starts one.
pub proof fn array_is_its_items_between_brackets<'arena>(
    ask: Replies<'arena>,
    s: Cursor<'arena>,
    result: ParserResult<Option<NodeRef<'arena>>>,
    t: Cursor<'arena>,
) -> (read: (
    ParserResult<Seq<NodeRef<'arena>>>,
    Cursor<'arena>,
    NodeRef<'arena>,
    ParserResult<NodeRef<'arena>>,
))
    requires
        s.wf(),
        array_run(ask, s, result, t),
    ensures
        ({
            let start = TokenKind::Bracket(Bracket::LeftSquareBracket);
            let end = TokenKind::Bracket(Bracket::RightSquareBracket);
            &&& token_at(s).kind != start ==> (result matches Ok(None)) && t == s
            &&& token_at(s).kind == start && !passable(s) ==> out_of_tokens(s, result, t)
            &&& sees(s, start) ==> items_run(ask, past(s), Seq::empty(), read.0, read.1)
            &&& sees(s, start) ==> match read.0 {
                Ok(list) => if sees(read.1, end) {
                    &&& read.2 matches Node::Array(items) && items@ == list
                    &&& postfix_run(ask, read.2, past(read.1), read.3, t)
                    &&& is_there(result, read.3)
                } else {
                    lacks(read.1, end, result, t)
                },
                Err(error) => (result matches Err(handed) && handed == error) && t == read.1,
            }
        }),
{
    let end = TokenKind::Bracket(Bracket::RightSquareBracket);
    assert(past(s) == s.advance());
    let (items, after) = choose|
        items: ParserResult<Seq<NodeRef<'arena>>>,
        after: Cursor<'arena>,
    | #[trigger]
        items_run(ask, s.advance(), Seq::empty(), items, after) && match items {
            Ok(list) => if !after.takes(end) {
                refused(after, end, result, t)
            } else {
                exists|node: NodeRef<'arena>, inner: ParserResult<NodeRef<'arena>>|
                    is_array(node, list) && #[trigger] postfix_run(
                        ask,
                        node,
                        after.advance(),
                        inner,
                        t,
                    ) && result == found(inner)
            },
            Err(error) => fails(result, error) && t == after,
        };
    assert(past(after) == after.advance());
    if items is Ok && after.takes(end) {
        let (node, inner) = choose|node: NodeRef<'arena>, inner: ParserResult<NodeRef<'arena>>|
            is_array(node, items->Ok_0) && #[trigger] postfix_run(
                ask,
                node,
                after.advance(),
                inner,
                t,
            ) && result == found(inner);
        (items, after, node, inner)
    } else {
        (items, after, &Node::Null, Ok(&Node::Null))
    }
}

/// Where some items have been read as they are spelled, a successful reading of the others is
/// spelled too. Returns the states behind all the items.
proof fn read_items_are_spelled<'arena>(
    ask: Replies<'arena>,
    first: Cursor<'arena>,
    items: Seq<NodeRef<'arena>>,
    ends: Seq<Cursor<'arena>>,
    s: Cursor<'arena>,
    list: Seq<NodeRef<'arena>>,
    t: Cursor<'arena>,
) -> (all: Seq<Cursor<'arena>>)
    requires
        spells_items(ask, first, items, ends),
        s == (if items.len() == 0 {
            first
        } else {
            ends.last()
        }),
        items_run(ask, s, items, Ok(list), t),
    ensures
        spells_a_list(ask, first, list, all, t),
    decreases
            s.remaining(),
            (if items.len() == 0 {
                1int
            } else {
                0int
            }),
{
    let end = TokenKind::Bracket(Bracket::RightSquareBracket);
    let result: ParserResult<Seq<NodeRef<'arena>>> = Ok(list);
    let start = next_start(s, items);
    assert(past(s) == s.advance());
    if token_at(s).kind == end || (items.len() > 0 && token_at(past(s)).kind == end) {
        ends
    } else {
        assert(item_run(ask, start, items, result, t));
        let (reply, after) = choose|reply: ParserResult<NodeRef<'arena>>, after: Cursor<'arena>|
            #[trigger]
            answered(ask, start, reply, after) && match reply {
                Ok(item) => items_run(ask, after, items.push(item), result, t),
                Err(error) => fails(result, error) && t == after,
            };
        let item = reply->Ok_0;
        let more = items.push(item);
        let further = ends.push(after);
        assert forall|i: int| 0 <= i < more.len() implies #[trigger] item_is_answered(
            ask,
            first,
            more,
            further,
            i,
        ) by {
            if i < items.len() {
                assert(item_is_answered(ask, first, items, ends, i));
                assert(start_of(first, further, i) == start_of(first, ends, i));
            } else {
                assert(start_of(first, further, i) == start);
            }
        }
        read_items_are_spelled(ask, first, more, further, after, list, t)
    }
}

/// Whatever the parser of whole expressions is like, an array that is found has the answers as its
/// items, all of them and in their order, and has its chain of accesses around it. Returns the
/// items, the states behind them, the state at the closing bracket and the array itself.
pub proof fn array_is_all_its_items<'arena>(
    ask: Replies<'arena>,
    s: Cursor<'arena>,
    node: NodeRef<'arena>,
    t: Cursor<'arena>,
) -> (read: (Seq<NodeRef<'arena>>, Seq<Cursor<'arena>>, Cursor<'arena>, NodeRef<'arena>))
    requires
        s.wf(),
        array_run(ask, s, Ok(Some(node)), t),
    ensures
        sees(s, TokenKind::Bracket(Bracket::LeftSquareBracket)),
        spells_a_list(ask, past(s), read.0, read.1, read.2),
        sees(read.2, TokenKind::Bracket(Bracket::RightSquareBracket)),
        read.3 matches Node::Array(items) && items@ == read.0,
        postfix_run(ask, read.3, past(read.2), Ok(node), t),
        !goes_on(t),
{
    let (items, last, array, inner) = array_is_its_items_between_brackets(
        ask,
        s,
        Ok(Some(node)),
        t,
    );
    let list = items->Ok_0;
    let first = past(s);
    items_never_go_back(ask, first, Seq::empty(), items, last);
    chain_is_read_to_its_end(ask, array, past(last), inner, t);
    let ends = read_items_are_spelled(ask, first, Seq::empty(), Seq::empty(), first, list, last);
    (list, ends, last, array)
}

/// Behind item `k` of a spelled list, as many items have been read.
proof fn spelled_items_are_read<'arena>(
    ask: Replies<'arena>,
    first: Cursor<'arena>,
    list: Seq<NodeRef<'arena>>,
    ends: Seq<Cursor<'arena>>,
    last: Cursor<'arena>,
    k: int,
    result: ParserResult<Seq<NodeRef<'arena>>>,
    t: Cursor<'arena>,
)
    requires
        first.wf(),
        spells_a_list(ask, first, list, ends, last),
        forall|i: int|
            0 <= i < list.len() ==> #[trigger] item_is_sure(ask, first, list, ends, i),
        items_run(ask, first, Seq::empty(), result, t),
        0 <= k < list.len(),
    ensures
        items_run(ask, ends[k], list.take(k + 1), result, t),
        ends[k].wf(),
    decreases k,
{
    let taken = list.take(k);
    assert(taken.push(list[k]) =~= list.take(k + 1));
    assert(item_is_sure(ask, first, list, ends, k));
    assert(item_is_answered(ask, first, list, ends, k));
    if k == 0 {
        assert(taken =~= Seq::empty());
        array_is_read_item_by_item(ask, first, taken, result, t);
    } else {
        spelled_items_are_read(ask, first, list, ends, last, k - 1, result, t);
        assert(sees(ends[k - 1], TokenKind::Operator(Operator::Comma)));
        array_is_read_item_by_item(ask, ends[k - 1], taken, result, t);
    }
}

/// Where the tokens spell a list in square brackets, the array of it is found, with all its items
/// in order, and its chain of accesses goes on behind it.
pub proof fn spelled_array_is_found<'arena>(
    ask: Replies<'arena>,
    s: Cursor<'arena>,
    list: Seq<NodeRef<'arena>>,
    ends: Seq<Cursor<'arena>>,
    last: Cursor<'arena>,
    result: ParserResult<Option<NodeRef<'arena>>>,
    t: Cursor<'arena>,
) -> (read: (NodeRef<'arena>, ParserResult<NodeRef<'arena>>))
    requires
        s.wf(),
        sees(s, TokenKind::Bracket(Bracket::LeftSquareBracket)),
        spells_a_list(ask, past(s), list, ends, last),
        forall|i: int|
            0 <= i < list.len() ==> #[trigger] item_is_sure(ask, past(s), list, ends, i),
        passable(last),
        array_run(ask, s, result, t),
    ensures
        read.0 matches Node::Array(items) && items@ == list,
        postfix_run(ask, read.0, past(last), read.1, t),
        is_there(result, read.1),
        !goes_on(past(last)) ==> (result matches Ok(Some(node)) && node == read.0) && t == past(
            last,
        ),
{
    let (items, after, array, inner) = array_is_its_items_between_brackets(ask, s, result, t);
    let first = past(s);
    items_never_go_back(ask, first, Seq::empty(), items, after);
    if list.len() == 0 {
        array_is_read_item_by_item(ask, first, Seq::empty(), items, after);
        assert(list =~= Seq::empty());
    } else {
        let k = list.len() - 1;
        spelled_items_are_read(ask, first, list, ends, last, k, items, after);
        assert(list.take(k + 1) =~= list);
        array_is_read_item_by_item(ask, ends[k], list, items, after);
    }
    chain_is_read_to_its_end(ask, array, past(after), inner, t);
    (array, inner)
}

/// A key of an object is one word as it is written, the text of a string, or the expression in
/// square brackets. A boolean is the word for it. No other token starts a key.
pub proof fn key_is_a_word_or_an_expression<'arena>(
    ask: Replies<'arena>,
    s: Cursor<'arena>,
    result: ParserResult<NodeRef<'arena>>,
    t: Cursor<'arena>,
)
    requires
        s.wf(),
        object_key_run(ask, s, result, t),
    ensures
        ({
            let end = TokenKind::Bracket(Bracket::RightSquareBracket);
            let kind = token_at(s).kind;
            let word = kind is Identifier || kind is Boolean || kind is Number || kind is Literal;
            let bracket = kind == TokenKind::Bracket(Bracket::LeftSquareBracket);
            let backtick = kind == TokenKind::QuotationMark(QuotationMark::Backtick);
            &&& (word || bracket) && !passable(s) ==> out_of_tokens(s, result, t)
            &&& word && passable(s) ==> (result matches Ok(node) && (
            node matches Node::String(text) && match kind {
                TokenKind::Identifier(identifier) => *text == identifier.text(),
                TokenKind::Boolean(value) => *text == (if value {
                    "true"
                } else {
                    "false"
                }),
                _ => *text == token_at(s).value,
            })) && t == past(s)
            &&& bracket && passable(s) ==> {
                &&& forall|key: NodeRef<'arena>, m: Cursor<'arena>| #[trigger]
                    answers(ask, past(s), Ok(key), m) && sees(m, end) ==> (result matches Ok(node)
                        && node == key) && t == past(m)
                &&& forall|key: NodeRef<'arena>, m: Cursor<'arena>| #[trigger]
                    answers(ask, past(s), Ok(key), m) && !sees(m, end) ==> lacks(
                        m,
                        end,
                        result,
                        t,
                    )
                &&& forall|error: ParserError, m: Cursor<'arena>| #[trigger]
                    answers(ask, past(s), Err(error), m) ==> hands_on(result, error) && t == m
            }
            &&& kind matches TokenKind::QuotationMark(mark) ==> !backtick ==> simple_string_run(
                mark,
                s,
                result,
                t,
            )
            &&& backtick || kind is TemplateString ==> complains(
                result,
                "TemplateString expression not supported as object key"@,
                s,
            ) && t == s
            &&& kind is Operator || (kind is Bracket && !bracket) ==> complains(
                result,
                "Operator is not supported as object key"@,
                s,
            ) && t == s
        }),
{
    assert(past(s) == s.advance());
}

/// An object is read entry by entry: a key, a colon and a value, which are added as a pair behind
/// what is there, and then a comma with another entry, or the end. Returns the key and the state
/// behind it.
pub proof fn object_is_read_entry_by_entry<'arena>(
    ask: Replies<'arena>,
    s: Cursor<'arena>,
    entries: Seq<(NodeRef<'arena>, NodeRef<'arena>)>,
    result: ParserResult<Seq<(NodeRef<'arena>, NodeRef<'arena>)>>,
    t: Cursor<'arena>,
) -> (read: (ParserResult<NodeRef<'arena>>, Cursor<'arena>))
    requires
        entries_run(ask, s, entries, result, t),
    ensures
        s.wf(),
        object_key_run(ask, s, read.0, read.1),
        read.1.wf(),
        ({
            let colon = TokenKind::Operator(Operator::Slice);
            let comma = TokenKind::Operator(Operator::Comma);
            let end = TokenKind::Bracket(Bracket::RightCurlyBracket);
            match read.0 {
                Err(error) => (result matches Err(handed) && handed == error) && t == read.1,
                Ok(key) => {
                    &&& !sees(read.1, colon) ==> lacks(read.1, colon, result, t)
                    &&& sees(read.1, colon) ==> {
                        &&& forall|error: ParserError, n: Cursor<'arena>| #[trigger]
                            answers(ask, past(read.1), Err(error), n) ==> hands_on(result, error)
                                && t == n
                        &&& forall|value: NodeRef<'arena>, n: Cursor<'arena>| #[trigger]
                            answers(ask, past(read.1), Ok(value), n) ==> {
                                &&& sees(n, comma) ==> entries_run(
                                    ask,
                                    past(n),
                                    entries.push((key, value)),
                                    result,
                                    t,
                                )
                                &&& token_at(n).kind == comma && !passable(n) ==> out_of_tokens(
                                    n,
                                    result,
                                    t,
                                )
                                &&& token_at(n).kind == end ==> (result matches Ok(list) && list
                                    == entries.push((key, value))) && t == n
                                &&& token_at(n).kind != comma && token_at(n).kind != end ==> (
                                result matches Err(error) && unexpected(
                                    error,
                                    "RightCurlyBracket or Comma"@,
                                    n,
                                )) && t == n
                            }
                    }
                },
            }
        }),
{
    let colon = TokenKind::Operator(Operator::Slice);
    let (key, after) = choose|key: ParserResult<NodeRef<'arena>>, after: Cursor<'arena>|
        #[trigger]
        object_key_run(ask, s, key, after) && s.leads_to(after) && match key {
            Ok(key) => if !after.takes(colon) {
                refused(after, colon, result, t)
            } else {
                entry_value_run(ask, after.advance(), entries, key, result, t)
            },
            Err(error) => fails(result, error) && t == after,
        };
    assert(past(after) == after.advance());
    if key is Ok && after.takes(colon) {
        assert(entry_value_run(ask, past(after), entries, key->Ok_0, result, t));
        assert forall|value: NodeRef<'arena>, n: Cursor<'arena>|
            #[trigger] answers(ask, past(after), Ok(value), n) implies past(n) == n.advance() by {}
    }
    (key, after)
}

/// An object is the entries between curly brackets, or none where the brackets stand together.
/// Returns the entries and the state behind them.
pub proof fn object_is_its_entries_between_brackets<'arena>(
    ask: Replies<'arena>,
    s: Cursor<'arena>,
    result: ParserResult<NodeRef<'arena>>,
    t: Cursor<'arena>,
) -> (read: (ParserResult<Seq<(NodeRef<'arena>, NodeRef<'arena>)>>, Cursor<'arena>))
    requires
        s.wf(),
        object_run(ask, s, result, t),
    ensures
        ({
            let start = TokenKind::Bracket(Bracket::LeftCurlyBracket);
            let end = TokenKind::Bracket(Bracket::RightCurlyBracket);
            let first = past(s);
            &&& !sees(s, start) ==> lacks(s, start, result, t)
            &&& sees(s, start) && sees(first, end) ==> (result matches Ok(node) && (
            node matches Node::Object(entries) && entries@.len() == 0)) && t == past(first)
            &&& sees(s, start) && token_at(first).kind == end && !passable(first)
                ==> out_of_tokens(first, result, t)
            &&& sees(s, start) && token_at(first).kind != end ==> entries_run(
                ask,
                first,
                Seq::empty(),
                read.0,
                read.1,
            ) && match read.0 {
                Ok(list) => if sees(read.1, end) {
                    (result matches Ok(node) && (node matches Node::Object(entries) && entries@
                        == list)) && t == past(read.1)
                } else {
                    lacks(read.1, end, result, t)
                },
                Err(error) => (result matches Err(handed) && handed == error) && t == read.1,
            }
        }),
{
    let end = TokenKind::Bracket(Bracket::RightCurlyBracket);
    assert(past(s) == s.advance());
    choose|
        entries: ParserResult<Seq<(NodeRef<'arena>, NodeRef<'arena>)>>,
        after: Cursor<'arena>,
    | #[trigger]
        entries_run(ask, past(s), Seq::empty(), entries, after) && match entries {
            Ok(list) => if sees(after, end) {
                (result matches Ok(node) && (node matches Node::Object(entries) && entries@
                    == list)) && t == past(after)
            } else {
                lacks(after, end, result, t)
            },
            Err(error) => (result matches Err(handed) && handed == error) && t == after,
        }
}

/// The tokens spell entries up to a closing curly bracket at `last`: entry `i` is a key up to
/// `keys[i]`, a colon and a value up to `ends[i]`, and between two entries stands one comma.
pub open spec fn spells_entries<'arena>(
    ask: Replies<'arena>,
    first: Cursor<'arena>,
    list: Seq<(NodeRef<'arena>, NodeRef<'arena>)>,
    keys: Seq<Cursor<'arena>>,
    ends: Seq<Cursor<'arena>>,
    last: Cursor<'arena>,
) -> bool {
    &&& 0 < list.len() == keys.len() == ends.len()
    &&& forall|i: int|
        0 <= i < list.len() ==> {
            &&& object_key_run(ask, start_of(first, ends, i), Ok(list[i].0), #[trigger] keys[i])
            &&& sees(keys[i], TokenKind::Operator(Operator::Slice))
            &&& answered(ask, past(keys[i]), Ok(list[i].1), ends[i])
        }
    &&& forall|i: int|
        0 <= i < list.len() - 1 ==> sees(#[trigger] ends[i], TokenKind::Operator(Operator::Comma))
    &&& last == ends.last()
    &&& token_at(last).kind == TokenKind::Bracket(Bracket::RightCurlyBracket)
}

/// A successful reading of entries is spelled by the tokens. Returns the states behind the keys
/// and behind the values.
pub proof fn read_entries_are_spelled<'arena>(
    ask: Replies<'arena>,
    s: Cursor<'arena>,
    entries: Seq<(NodeRef<'arena>, NodeRef<'arena>)>,
    list: Seq<(NodeRef<'arena>, NodeRef<'arena>)>,
    t: Cursor<'arena>,
) -> (read: (Seq<Cursor<'arena>>, Seq<Cursor<'arena>>))
    requires
        entries_run(ask, s, entries, Ok(list), t),
    ensures
        entries.is_prefix_of(list),
        spells_entries(ask, s, list.skip(entries.len() as int), read.0, read.1, t),
    decreases s.remaining(),
{
    let result: ParserResult<Seq<(NodeRef<'arena>, NodeRef<'arena>)>> = Ok(list);
    let comma = TokenKind::Operator(Operator::Comma);
    let colon = TokenKind::Operator(Operator::Slice);
    let (key, after) = choose|key: ParserResult<NodeRef<'arena>>, after: Cursor<'arena>|
        #[trigger]
        object_key_run(ask, s, key, after) && s.leads_to(after) && match key {
            Ok(key) => if !after.takes(colon) {
                refused(after, colon, result, t)
            } else {
                entry_value_run(ask, after.advance(), entries, key, result, t)
            },
            Err(error) => fails(result, error) && t == after,
        };
    let key = key->Ok_0;
    let inner = after.advance();
    assert(past(after) == inner);
    let (reply, behind) = choose|reply: ParserResult<NodeRef<'arena>>, behind: Cursor<'arena>|
        #[trigger]
        answered(ask, inner, reply, behind) && match reply {
            Ok(value) => match behind.kind() {
                TokenKind::Operator(Operator::Comma) => if !behind.takes(comma) {
                    refused(behind, comma, result, t)
                } else {
                    entries_run(ask, behind.advance(), entries.push((key, value)), result, t)
                },
                TokenKind::Bracket(Bracket::RightCurlyBracket) => gives(
                    result,
                    entries.push((key, value)),
                ) && t == behind,
                _ => surprised("RightCurlyBracket or Comma"@, behind, result) && t == behind,
            },
            Err(error) => fails(result, error) && t == behind,
        };
    assert(entry_value_run(ask, inner, entries, key, result, t));
    let entry = (key, reply->Ok_0);
    let more = entries.push(entry);
    let mine = list.skip(entries.len() as int);
    assert(more[entries.len() as int] == entry);
    assert(entries.is_prefix_of(more));
    if token_at(behind).kind == comma {
        assert(past(behind) == behind.advance());
        let (later_keys, later_ends) = read_entries_are_spelled(ask, past(behind), more, list, t);
        let theirs = list.skip(more.len() as int);
        let keys = seq![after] + later_keys;
        let ends = seq![behind] + later_ends;
        assert(list[entries.len() as int] == entry);
        assert(mine =~= seq![entry] + theirs);
        assert forall|i: int| 0 <= i < mine.len() implies {
            &&& object_key_run(ask, start_of(s, ends, i), Ok(mine[i].0), #[trigger] keys[i])
            &&& sees(keys[i], colon)
            &&& answered(ask, past(keys[i]), Ok(mine[i].1), ends[i])
        } by {
            if i > 0 {
                assert(keys[i] == later_keys[i - 1]);
                assert(start_of(s, ends, i) == start_of(past(behind), later_ends, i - 1));
            }
        }
        assert forall|i: int| 0 <= i < mine.len() - 1 implies sees(#[trigger] ends[i], comma) by {
            if i > 0 {
                assert(ends[i] == later_ends[i - 1]);
            }
        }
        (keys, ends)
    } else {
        assert(mine =~= seq![entry]);
        (seq![after], seq![behind])
    }
}

/// Whatever the parser of whole expressions is like, an object that is read has every key with its
/// own value, all of them and in their order.
pub proof fn object_is_all_its_entries<'arena>(
    ask: Replies<'arena>,
    s: Cursor<'arena>,
    node: NodeRef<'arena>,
    t: Cursor<'arena>,
) -> (read: (Seq<Cursor<'arena>>, Seq<Cursor<'arena>>, Cursor<'arena>))
    requires
        s.wf(),
        object_run(ask, s, Ok(node), t),
    ensures
        sees(s, TokenKind::Bracket(Bracket::LeftCurlyBracket)),
        sees(read.2, TokenKind::Bracket(Bracket::RightCurlyBracket)),
        t == past(read.2),
        node matches Node::Object(entries) && (if token_at(past(s)).kind == TokenKind::Bracket(
            Bracket::RightCurlyBracket,
        ) {
            entries@.len() == 0 && read.2 == past(s)
        } else {
            spells_entries(ask, past(s), entries@, read.0, read.1, read.2)
        }),
{
    let end = TokenKind::Bracket(Bracket::RightCurlyBracket);
    let (entries, last) = object_is_its_entries_between_brackets(ask, s, Ok(node), t);
    if token_at(past(s)).kind == end {
        (Seq::empty(), Seq::empty(), past(s))
    } else {
        let list = entries->Ok_0;
        let (keys, ends) = read_entries_are_spelled(ask, past(s), Seq::empty(), list, last);
        assert(list.skip(0) =~= list);
        (keys, ends, last)
    }
}

} // verus!
