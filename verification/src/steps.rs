//! Whatever is parsed, the parser moves by four steps alone: it tries to pass a token, it goes to
//! another token, it enters a closure, it leaves one. Only the first of them can bring it past the
//! end.
use crate::ast::{Node, NodeRef};
use crate::builtin::{Arity, BuiltInFunction};
use crate::cursor::Cursor;
use crate::error::ParserResult;
use crate::grammar::{
    answered, arguments_run, array_run, bool_run, call_run, closure_run, conditional_run,
    entries_run, entry_value_run, fails, found, gives, identifier_run, interval_run, item_run,
    items_run, literal_run, null_run, number_run, object_key_run, object_run, pieces_run,
    postfix_run, refused, simple_string_run, subscript_run, surprised, template_string_run,
    Replies,
};
use crate::token::{Bracket, Operator, QuotationMark, TokenKind};
use rust_decimal::Decimal;
use vstd::prelude::*;

verus! {

/// What a parser can do in one step.
pub enum Step {
    /// Try to pass the current token.
    Next,
    /// Go to the token with this index, if there is one.
    To(int),
    /// Go into a closure.
    Enter,
    /// Come out of a closure.
    Leave,
}

/// The state after one step.
pub open spec fn after_step<'arena>(s: Cursor<'arena>, step: Step) -> Cursor<'arena> {
    match step {
        Step::Next => s.advance(),
        Step::To(position) => if 0 <= position < s.tokens.len() {
            s.moved_to(position)
        } else {
            s
        },
        Step::Enter => s.entered(),
        Step::Leave => s.left(),
    }
}

/// The state after some steps.
pub open spec fn after_steps<'arena>(s: Cursor<'arena>, steps: Seq<Step>) -> Cursor<'arena>
    decreases steps.len(),
{
    if steps.len() == 0 {
        s
    } else {
        after_step(after_steps(s, steps.drop_last()), steps.last())
    }
}

/// The step with this index tries to pass the last token, or a token behind it.
pub open spec fn passes_the_end(s: Cursor, steps: Seq<Step>, i: int) -> bool {
    steps[i] is Next && after_steps(s, steps.take(i)).position + 1 >= s.tokens.len()
}

/// One of the steps tries to pass the last token, or a token behind it.
pub open spec fn some_passes_the_end(s: Cursor, steps: Seq<Step>) -> bool {
    exists|i: int| 0 <= i < steps.len() && #[trigger] passes_the_end(s, steps, i)
}

/// The parser can come from one state to the other by steps.
#[verifier::opaque]
pub open spec fn reaches<'arena>(s: Cursor<'arena>, t: Cursor<'arena>) -> bool {
    exists|steps: Seq<Step>| #[trigger] after_steps(s, steps) == t
}

/// The parser of whole expressions moves by steps.
pub open spec fn stepwise<'arena>(ask: Replies<'arena>) -> bool {
    forall|
        before: Cursor<'arena>,
        reply: ParserResult<NodeRef<'arena>>,
        after: Cursor<'arena>,
    | #[trigger]
        answered(ask, before, reply, after) ==> reaches(before, after)
}

/// A parser is done if and only if it was done before, or some step since then tried to pass the
/// last token. No step makes it undone: none back to an earlier token, either.
pub proof fn done_is_passing_the_end(s: Cursor, steps: Seq<Step>)
    ensures
        after_steps(s, steps).tokens == s.tokens,
        after_steps(s, steps).done <==> s.done || some_passes_the_end(s, steps),
    decreases steps.len(),
{
    if steps.len() > 0 {
        let before = steps.drop_last();
        let last = steps.len() - 1;
        done_is_passing_the_end(s, before);
        assert(steps.take(last) =~= before);
        assert forall|i: int| 0 <= i < last implies #[trigger] passes_the_end(s, steps, i)
            == passes_the_end(s, before, i) by {
            assert(steps.take(i) =~= before.take(i));
        }
        if some_passes_the_end(s, before) {
            let i = choose|i: int| 0 <= i < before.len() && #[trigger] passes_the_end(s, before, i);
            assert(passes_the_end(s, steps, i));
        }
        if passes_the_end(s, steps, last) {
            assert(some_passes_the_end(s, steps));
        }
        if some_passes_the_end(s, steps) && !passes_the_end(s, steps, last) {
            let i = choose|i: int| 0 <= i < steps.len() && #[trigger] passes_the_end(s, steps, i);
            assert(passes_the_end(s, before, i));
        }
    }
}

/// What a parser has reached, it has reached by steps that tell whether it is done.
pub proof fn reached_by_steps<'arena>(s: Cursor<'arena>, t: Cursor<'arena>) -> (steps: Seq<Step>)
    requires
        reaches(s, t),
    ensures
        after_steps(s, steps) == t,
        t.tokens == s.tokens,
        t.done <==> s.done || some_passes_the_end(s, steps),
{
    reveal(reaches);
    let steps = choose|steps: Seq<Step>| #[trigger] after_steps(s, steps) == t;
    done_is_passing_the_end(s, steps);
    steps
}

/// One step reaches the state after it.
pub proof fn step_reaches<'arena>(s: Cursor<'arena>, step: Step)
    ensures
        reaches(s, after_step(s, step)),
{
    reveal(reaches);
    let steps = seq![step];
    assert(steps.drop_last() =~= Seq::empty());
    assert(after_steps(s, steps.drop_last()) == s);
    assert(after_steps(s, steps) == after_step(s, step));
}

proof fn steps_follow_steps<'arena>(s: Cursor<'arena>, first: Seq<Step>, second: Seq<Step>)
    ensures
        after_steps(s, first + second) == after_steps(after_steps(s, first), second),
    decreases second.len(),
{
    if second.len() == 0 {
        assert(first + second =~= first);
    } else {
        steps_follow_steps(s, first, second.drop_last());
        assert((first + second).drop_last() =~= first + second.drop_last());
    }
}

/// What can be reached from a state that can be reached, can be reached.
pub proof fn reaching_is_transitive<'arena>(
    s: Cursor<'arena>,
    middle: Cursor<'arena>,
    t: Cursor<'arena>,
)
    requires
        reaches(s, middle),
        reaches(middle, t),
    ensures
        reaches(s, t),
{
    let first = reached_by_steps(s, middle);
    let second = reached_by_steps(middle, t);
    steps_follow_steps(s, first, second);
    reveal(reaches);
}

/// The rules of reaching, for all states.
proof fn reaching<'arena>()
    ensures
        forall|s: Cursor<'arena>, t: Cursor<'arena>| s == t ==> #[trigger] reaches(s, t),
        forall|s: Cursor<'arena>, m: Cursor<'arena>, t: Cursor<'arena>| #[trigger]
            reaches(s, m) && #[trigger] reaches(m, t) ==> reaches(s, t),
        forall|s: Cursor<'arena>| reaches(s, #[trigger] s.advance()),
        forall|s: Cursor<'arena>| reaches(s, #[trigger] s.entered()),
        forall|s: Cursor<'arena>| reaches(s, #[trigger] s.left()),
        forall|s: Cursor<'arena>, position: int|
            0 <= position < s.tokens.len() ==> reaches(s, #[trigger] s.moved_to(position)),
{
    assert forall|s: Cursor<'arena>, t: Cursor<'arena>| s == t implies #[trigger] reaches(s, t) by {
        reveal(reaches);
        assert(after_steps(s, Seq::empty()) == t);
    }
    assert forall|s: Cursor<'arena>, m: Cursor<'arena>, t: Cursor<'arena>| #[trigger]
        reaches(s, m) && #[trigger] reaches(m, t) implies reaches(s, t) by {
        reaching_is_transitive(s, m, t);
    }
    assert forall|s: Cursor<'arena>| reaches(s, #[trigger] s.advance()) by {
        step_reaches(s, Step::Next);
    }
    assert forall|s: Cursor<'arena>| reaches(s, #[trigger] s.entered()) by {
        step_reaches(s, Step::Enter);
    }
    assert forall|s: Cursor<'arena>| reaches(s, #[trigger] s.left()) by {
        step_reaches(s, Step::Leave);
    }
    assert forall|s: Cursor<'arena>, position: int|
        0 <= position < s.tokens.len() implies reaches(s, #[trigger] s.moved_to(position)) by {
        step_reaches(s, Step::To(position));
    }
}

/// A number is read by steps.
pub proof fn number_is_read_by_steps<'arena>(
    parsed: Option<Decimal>,
    s: Cursor<'arena>,
    result: ParserResult<Option<NodeRef<'arena>>>,
    t: Cursor<'arena>,
)
    requires
        s.wf(),
        number_run(parsed, s, result, t),
    ensures
        reaches(s, t),
{
    reaching();
}

/// `true` or `false` is read by steps.
pub proof fn bool_is_read_by_steps<'arena>(
    s: Cursor<'arena>,
    result: ParserResult<Option<NodeRef<'arena>>>,
    t: Cursor<'arena>,
)
    requires
        s.wf(),
        bool_run(s, result, t),
    ensures
        reaches(s, t),
{
    reaching();
}

/// `null` is read by steps.
pub proof fn null_is_read_by_steps<'arena>(
    s: Cursor<'arena>,
    result: ParserResult<Option<NodeRef<'arena>>>,
    t: Cursor<'arena>,
)
    requires
        s.wf(),
        null_run(s, result, t),
    ensures
        reaches(s, t),
{
    reaching();
}

/// A text in quotation marks is read by steps.
pub proof fn simple_string_is_read_by_steps<'arena>(
    quote_mark: QuotationMark,
    s: Cursor<'arena>,
    result: ParserResult<NodeRef<'arena>>,
    t: Cursor<'arena>,
)
    requires
        s.wf(),
        simple_string_run(quote_mark, s, result, t),
    ensures
        reaches(s, t),
{
    reaching();
}

/// The pieces of a template string are read by steps.
pub proof fn pieces_are_read_by_steps<'arena>(
    ask: Replies<'arena>,
    s: Cursor<'arena>,
    pieces: Seq<NodeRef<'arena>>,
    result: ParserResult<Seq<NodeRef<'arena>>>,
    t: Cursor<'arena>,
)
    requires
        stepwise(ask),
        pieces_run(ask, s, pieces, result, t),
    ensures
        reaches(s, t),
    decreases s.remaining(),
{
    reaching();
    let next = s.advance();
    if s.can_advance() {
        if pieces_run(ask, next, pieces, result, t) {
            pieces_are_read_by_steps(ask, next, pieces, result, t);
        } else if pieces_run(ask, next, pieces.push(&Node::String(s.value())), result, t) {
            pieces_are_read_by_steps(ask, next, pieces.push(&Node::String(s.value())), result, t);
        } else if s.kind() is TemplateString {
            let (reply, after) = choose|
                reply: ParserResult<NodeRef<'arena>>,
                after: Cursor<'arena>,
            | #[trigger]
                answered(ask, next, reply, after) && match reply {
                    Ok(piece) => pieces_run(ask, after, pieces.push(piece), result, t),
                    Err(error) => fails(result, error) && t == after,
                };
            if let Ok(piece) = reply {
                pieces_are_read_by_steps(ask, after, pieces.push(piece), result, t);
            }
        }
    }
}

/// A template string is read by steps.
pub proof fn template_string_is_read_by_steps<'arena>(
    ask: Replies<'arena>,
    s: Cursor<'arena>,
    result: ParserResult<NodeRef<'arena>>,
    t: Cursor<'arena>,
)
    requires
        stepwise(ask),
        s.wf(),
        template_string_run(ask, s, result, t),
    ensures
        reaches(s, t),
{
    reaching();
    assert forall|pieces: ParserResult<Seq<NodeRef<'arena>>>, close: Cursor<'arena>| #[trigger]
        pieces_run(ask, s.advance(), Seq::empty(), pieces, close) implies reaches(
        s.advance(),
        close,
    ) by {
        pieces_are_read_by_steps(ask, s.advance(), Seq::empty(), pieces, close);
    }
}

/// What stands in square brackets behind a node is read by steps.
pub proof fn subscript_is_read_by_steps<'arena>(
    ask: Replies<'arena>,
    node: NodeRef<'arena>,
    s: Cursor<'arena>,
    result: ParserResult<NodeRef<'arena>>,
    t: Cursor<'arena>,
)
    requires
        stepwise(ask),
        s.wf(),
        subscript_run(ask, node, s, result, t),
    ensures
        reaches(s, t),
{
    reaching();
}

/// What stands behind a node is read by steps.
pub proof fn postfix_is_read_by_steps<'arena>(
    ask: Replies<'arena>,
    node: NodeRef<'arena>,
    s: Cursor<'arena>,
    result: ParserResult<NodeRef<'arena>>,
    t: Cursor<'arena>,
)
    requires
        stepwise(ask),
        postfix_run(ask, node, s, result, t),
    ensures
        reaches(s, t),
    decreases s.remaining(),
{
    reaching();
    let property = s.advance();
    let member = &Node::Member { node, property: &Node::String(property.value()) };
    if s.can_advance() {
        if property.can_advance() && postfix_run(ask, member, property.advance(), result, t) {
            postfix_is_read_by_steps(ask, member, property.advance(), result, t);
        } else if s.kind() == TokenKind::Bracket(Bracket::LeftSquareBracket) {
            let (inner, after) = choose|
                inner: ParserResult<NodeRef<'arena>>,
                after: Cursor<'arena>,
            | #[trigger]
                subscript_run(ask, node, s.advance(), inner, after) && s.advance().leads_to(after)
                    && match inner {
                    Ok(accessed) => postfix_run(ask, accessed, after, result, t),
                    Err(error) => fails(result, error) && t == after,
                };
            if let Ok(accessed) = inner {
                postfix_is_read_by_steps(ask, accessed, after, result, t);
            }
        }
    }
}

/// The body of a closure is read by steps.
pub proof fn closure_is_read_by_steps<'arena>(
    ask: Replies<'arena>,
    s: Cursor<'arena>,
    result: ParserResult<NodeRef<'arena>>,
    t: Cursor<'arena>,
)
    requires
        stepwise(ask),
        s.wf(),
        closure_run(ask, s, result, t),
    ensures
        reaches(s, t),
{
    reaching();
}

/// The arguments of a call are read by steps.
pub proof fn arguments_are_read_by_steps<'arena>(
    ask: Replies<'arena>,
    arity: Arity,
    s: Cursor<'arena>,
    result: ParserResult<Seq<NodeRef<'arena>>>,
    t: Cursor<'arena>,
)
    requires
        stepwise(ask),
        s.wf(),
        arguments_run(ask, arity, s, result, t),
    ensures
        reaches(s, t),
{
    reaching();
}

/// A call is read by steps.
pub proof fn call_is_read_by_steps<'arena>(
    ask: Replies<'arena>,
    function: BuiltInFunction,
    s: Cursor<'arena>,
    result: ParserResult<NodeRef<'arena>>,
    t: Cursor<'arena>,
)
    requires
        stepwise(ask),
        s.wf(),
        call_run(ask, function, s, result, t),
    ensures
        reaches(s, t),
{
    reaching();
    assert forall|arguments: ParserResult<Seq<NodeRef<'arena>>>, after: Cursor<'arena>| #[trigger]
        arguments_run(ask, function.arity_of(), s, arguments, after) implies reaches(s, after) by {
        arguments_are_read_by_steps(ask, function.arity_of(), s, arguments, after);
    }
    assert forall|node: NodeRef<'arena>, after: Cursor<'arena>| #[trigger]
        postfix_run(ask, node, after, result, t) implies reaches(after, t) by {
        postfix_is_read_by_steps(ask, node, after, result, t);
    }
}

/// An identifier or a call is read by steps.
pub proof fn identifier_is_read_by_steps<'arena>(
    ask: Replies<'arena>,
    s: Cursor<'arena>,
    result: ParserResult<Option<NodeRef<'arena>>>,
    t: Cursor<'arena>,
)
    requires
        stepwise(ask),
        s.wf(),
        identifier_run(ask, s, result, t),
    ensures
        reaches(s, t),
{
    reaching();
    assert forall|
        node: NodeRef<'arena>,
        after: Cursor<'arena>,
        inner: ParserResult<NodeRef<'arena>>,
    | #[trigger]
        postfix_run(ask, node, after, inner, t) implies reaches(after, t) by {
        postfix_is_read_by_steps(ask, node, after, inner, t);
    }
    assert forall|
        function: BuiltInFunction,
        after: Cursor<'arena>,
        inner: ParserResult<NodeRef<'arena>>,
    |
        after.wf() && #[trigger] call_run(ask, function, after, inner, t) implies reaches(
        after,
        t,
    ) by {
        call_is_read_by_steps(ask, function, after, inner, t);
    }
}

/// An interval is read by steps, and so is what is searched for one in vain.
pub proof fn interval_is_read_by_steps<'arena>(
    ask: Replies<'arena>,
    s: Cursor<'arena>,
    result: ParserResult<Option<NodeRef<'arena>>>,
    t: Cursor<'arena>,
)
    requires
        stepwise(ask),
        s.wf(),
        interval_run(ask, s, result, t),
    ensures
        reaches(s, t),
{
    reaching();
    assert forall|
        node: NodeRef<'arena>,
        after: Cursor<'arena>,
        inner: ParserResult<NodeRef<'arena>>,
    | #[trigger]
        postfix_run(ask, node, after, inner, t) implies reaches(after, t) by {
        postfix_is_read_by_steps(ask, node, after, inner, t);
    }
}

/// The items of an array are read by steps.
pub proof fn items_are_read_by_steps<'arena>(
    ask: Replies<'arena>,
    s: Cursor<'arena>,
    items: Seq<NodeRef<'arena>>,
    result: ParserResult<Seq<NodeRef<'arena>>>,
    t: Cursor<'arena>,
)
    requires
        stepwise(ask),
        items_run(ask, s, items, result, t),
    ensures
        reaches(s, t),
    decreases
            s.remaining(),
            (if items.len() == 0 {
                1int
            } else {
                0int
            }),
{
    reaching();
    let next = if items.len() == 0 {
        s
    } else {
        s.advance()
    };
    if (items.len() == 0 || s.can_advance()) && item_run(ask, next, items, result, t) {
        let (reply, after) = choose|
            reply: ParserResult<NodeRef<'arena>>,
            after: Cursor<'arena>,
        | #[trigger]
            answered(ask, next, reply, after) && match reply {
                Ok(item) => items_run(ask, after, items.push(item), result, t),
                Err(error) => fails(result, error) && t == after,
            };
        if let Ok(item) = reply {
            items_are_read_by_steps(ask, after, items.push(item), result, t);
        }
    }
}

/// An array is read by steps.
pub proof fn array_is_read_by_steps<'arena>(
    ask: Replies<'arena>,
    s: Cursor<'arena>,
    result: ParserResult<Option<NodeRef<'arena>>>,
    t: Cursor<'arena>,
)
    requires
        stepwise(ask),
        s.wf(),
        array_run(ask, s, result, t),
    ensures
        reaches(s, t),
{
    reaching();
    assert forall|items: ParserResult<Seq<NodeRef<'arena>>>, after: Cursor<'arena>| #[trigger]
        items_run(ask, s.advance(), Seq::empty(), items, after) implies reaches(
        s.advance(),
        after,
    ) by {
        items_are_read_by_steps(ask, s.advance(), Seq::empty(), items, after);
    }
    assert forall|
        node: NodeRef<'arena>,
        after: Cursor<'arena>,
        inner: ParserResult<NodeRef<'arena>>,
    | #[trigger]
        postfix_run(ask, node, after, inner, t) implies reaches(after, t) by {
        postfix_is_read_by_steps(ask, node, after, inner, t);
    }
}

/// A key of an object is read by steps.
pub proof fn object_key_is_read_by_steps<'arena>(
    ask: Replies<'arena>,
    s: Cursor<'arena>,
    result: ParserResult<NodeRef<'arena>>,
    t: Cursor<'arena>,
)
    requires
        stepwise(ask),
        s.wf(),
        object_key_run(ask, s, result, t),
    ensures
        reaches(s, t),
{
    reaching();
}

/// The entries of an object are read by steps.
pub proof fn entries_are_read_by_steps<'arena>(
    ask: Replies<'arena>,
    s: Cursor<'arena>,
    entries: Seq<(NodeRef<'arena>, NodeRef<'arena>)>,
    result: ParserResult<Seq<(NodeRef<'arena>, NodeRef<'arena>)>>,
    t: Cursor<'arena>,
)
    requires
        stepwise(ask),
        entries_run(ask, s, entries, result, t),
    ensures
        reaches(s, t),
    decreases s.remaining(), 1int,
{
    reaching();
    let colon = TokenKind::Operator(Operator::Slice);
    let (key, after) = choose|key: ParserResult<NodeRef<'arena>>, after: Cursor<'arena>|
        #[trigger]
        object_key_run(ask, s, key, after) && s.leads_to(after) && match key {
            Ok(key) => if !after.takes(colon) {
                refused(after, colon, result, t)
            } else {
                entry_value_run(ask, after.advance(), entries, key, result, t)
            },
            Err(error) => fails(result, error) && t == after,
        };
    if let Ok(key) = key {
        if after.takes(colon) {
            entry_value_is_read_by_steps(ask, after.advance(), entries, key, result, t);
        }
    }
}

/// The value of an entry is read by steps.
pub proof fn entry_value_is_read_by_steps<'arena>(
    ask: Replies<'arena>,
    s: Cursor<'arena>,
    entries: Seq<(NodeRef<'arena>, NodeRef<'arena>)>,
    key: NodeRef<'arena>,
    result: ParserResult<Seq<(NodeRef<'arena>, NodeRef<'arena>)>>,
    t: Cursor<'arena>,
)
    requires
        stepwise(ask),
        entry_value_run(ask, s, entries, key, result, t),
    ensures
        reaches(s, t),
    decreases s.remaining(), 2int,
{
    reaching();
    let comma = TokenKind::Operator(Operator::Comma);
    let (reply, after) = choose|reply: ParserResult<NodeRef<'arena>>, after: Cursor<'arena>|
        #[trigger]
        answered(ask, s, reply, after) && match reply {
            Ok(value) => match after.kind() {
                TokenKind::Operator(Operator::Comma) => if !after.takes(comma) {
                    refused(after, comma, result, t)
                } else {
                    entries_run(ask, after.advance(), entries.push((key, value)), result, t)
                },
                TokenKind::Bracket(Bracket::RightCurlyBracket) => gives(
                    result,
                    entries.push((key, value)),
                ) && t == after,
                _ => surprised("RightCurlyBracket or Comma"@, after, result) && t == after,
            },
            Err(error) => fails(result, error) && t == after,
        };
    if let Ok(value) = reply {
        if after.takes(comma) {
            entries_are_read_by_steps(ask, after.advance(), entries.push((key, value)), result, t);
        }
    }
}

/// An object is read by steps.
pub proof fn object_is_read_by_steps<'arena>(
    ask: Replies<'arena>,
    s: Cursor<'arena>,
    result: ParserResult<NodeRef<'arena>>,
    t: Cursor<'arena>,
)
    requires
        stepwise(ask),
        s.wf(),
        object_run(ask, s, result, t),
    ensures
        reaches(s, t),
{
    reaching();
    assert forall|
        entries: ParserResult<Seq<(NodeRef<'arena>, NodeRef<'arena>)>>,
        after: Cursor<'arena>,
    | #[trigger]
        entries_run(ask, s.advance(), Seq::empty(), entries, after) implies reaches(
        s.advance(),
        after,
    ) by {
        entries_are_read_by_steps(ask, s.advance(), Seq::empty(), entries, after);
    }
}

/// A conditional is read by steps.
pub proof fn conditional_is_read_by_steps<'arena>(
    ask: Replies<'arena>,
    condition: NodeRef<'arena>,
    s: Cursor<'arena>,
    result: ParserResult<Option<NodeRef<'arena>>>,
    t: Cursor<'arena>,
)
    requires
        stepwise(ask),
        s.wf(),
        conditional_run(ask, condition, s, result, t),
    ensures
        reaches(s, t),
{
    reaching();
}

/// Whatever is read, is read by steps, if the parser of whole expressions reads so.
pub proof fn literal_is_read_by_steps<'arena>(
    ask: Replies<'arena>,
    parsed: Option<Decimal>,
    s: Cursor<'arena>,
    result: ParserResult<NodeRef<'arena>>,
    t: Cursor<'arena>,
)
    requires
        stepwise(ask),
        s.wf(),
        literal_run(ask, parsed, s, result, t),
    ensures
        reaches(s, t),
{
    reaching();
    let option = found(result);
    if identifier_run(ask, s, option, t) {
        identifier_is_read_by_steps(ask, s, option, t);
    }
    if template_string_run(ask, s, result, t) {
        template_string_is_read_by_steps(ask, s, result, t);
    }
    if object_run(ask, s, result, t) {
        object_is_read_by_steps(ask, s, result, t);
    }
    if interval_run(ask, s, option, t) {
        interval_is_read_by_steps(ask, s, option, t);
    } else if s.kind() == TokenKind::Bracket(Bracket::LeftSquareBracket) {
        let back = choose|back: Cursor<'arena>| #[trigger]
            interval_run(ask, s, Ok(None), back) && array_run(ask, back, option, t);
        interval_is_read_by_steps(ask, s, Ok(None), back);
        array_is_read_by_steps(ask, back, option, t);
    } else if interval_run(ask, s, Ok(None), t) {
        interval_is_read_by_steps(ask, s, Ok(None), t);
    }
}

} // verus!
