//! What the parser does, in terms of tokens, of answers and of nodes alone: single tokens, and the
//! constructs that are made of them.
use crate::access::PostfixKind;
use crate::ast::{Node, NodeRef};
use crate::builtin::{built_in, names_are_unique, BuiltInFunction};
use crate::cursor::Cursor;
use crate::determined::same;
use crate::error::{ParserError, ParserResult};
use crate::grammar::{
    answered, bool_run, fails, found, gives, null_run, number_run, refused, rejected, runs_out,
    simple_string_run, surprised, valid_property, Replies,
};
use crate::token::{
    Bracket, ComparisonOperator, Identifier, Operator, QuotationMark, Span, Token, TokenKind,
};
use rust_decimal::Decimal;
use vstd::prelude::*;

verus! {

/// The token in view: the one at the position, or the last one for a position behind it.
pub open spec fn token_at<'arena>(s: Cursor<'arena>) -> Token<'arena> {
    s.tokens[if s.position < s.tokens.len() {
        s.position
    } else {
        s.tokens.len() - 1
    }]
}

/// The token in view may be passed. The last token may be passed once.
pub open spec fn passable(s: Cursor) -> bool {
    s.position + 1 < s.tokens.len() || !s.done
}

/// The same state one position further. It is done where there is no token at that position.
pub open spec fn past<'arena>(s: Cursor<'arena>) -> Cursor<'arena> {
    Cursor {
        tokens: s.tokens,
        position: if s.position < usize::MAX {
            s.position + 1
        } else {
            s.position
        },
        done: s.done || s.position + 1 >= s.tokens.len(),
        depth: s.depth,
    }
}

/// The token in view is of this kind and may be passed.
pub open spec fn sees(s: Cursor, kind: TokenKind) -> bool {
    token_at(s).kind == kind && passable(s)
}

/// The error says that something was wanted in place of the token in view.
pub open spec fn unexpected(error: ParserError, wanted: Seq<char>, s: Cursor) -> bool {
    error matches ParserError::UnexpectedToken { expected, received, span } && expected@ == wanted
        && received@ == token_at(s).kind.name() && span == token_at(s).span
}

/// The result is an error with this message about the token in view.
pub open spec fn complains<T>(result: ParserResult<T>, message: Seq<char>, s: Cursor) -> bool {
    result matches Err(ParserError::FailedToParse { message: text, span }) && text@ == message
        && span == token_at(s).span
}

/// The result of an attempt to pass the token in view where it may not be passed.
pub open spec fn out_of_tokens<'arena, T>(
    s: Cursor<'arena>,
    result: ParserResult<T>,
    t: Cursor<'arena>,
) -> bool {
    result matches Err(ParserError::TokenOutOfBounds) && t == past(s)
}

/// The result where a token of this kind is due and not to be had: another token is reported and
/// stays in view; the right one cannot be passed.
pub open spec fn lacks<'arena, T>(
    s: Cursor<'arena>,
    kind: TokenKind,
    result: ParserResult<T>,
    t: Cursor<'arena>,
) -> bool {
    if token_at(s).kind != kind {
        (result matches Err(error) && unexpected(error, kind.name(), s)) && t == s
    } else {
        !passable(s) && out_of_tokens(s, result, t)
    }
}

/// Asked in this state, the parser of whole expressions answers so, and not otherwise.
pub open spec fn answers<'arena>(
    ask: Replies<'arena>,
    s: Cursor<'arena>,
    reply: ParserResult<NodeRef<'arena>>,
    after: Cursor<'arena>,
) -> bool {
    &&& answered(ask, s, reply, after)
    &&& forall|other: ParserResult<NodeRef<'arena>>, t: Cursor<'arena>| #[trigger]
        answered(ask, s, other, t) ==> same(other, reply) && t == after
}

/// The result is an error that says the same.
pub open spec fn hands_on<T>(result: ParserResult<T>, error: ParserError) -> bool {
    result matches Err(handed) && handed.says_the_same(error)
}

/// The result is the other one, as something that was there.
pub open spec fn is_there<'arena>(
    result: ParserResult<Option<NodeRef<'arena>>>,
    inner: ParserResult<NodeRef<'arena>>,
) -> bool {
    match inner {
        Ok(node) => result matches Ok(Some(there)) && there == node,
        Err(error) => result matches Err(handed) && handed == error,
    }
}

/// The kinds of token that can be the name of a member.
pub open spec fn names_a_member(kind: TokenKind) -> bool {
    ||| kind is Literal
    ||| kind is Identifier
    ||| (kind matches TokenKind::Operator(operator) && operator is Logical)
    ||| kind == TokenKind::Operator(Operator::Comparison(ComparisonOperator::In))
}

/// A parser starts at the first token, outside any closure, and has not been at the end.
pub proof fn parsing_starts_at_the_first_token<'arena>(tokens: Seq<Token<'arena>>)
    ensures
        Cursor::start(tokens).tokens == tokens,
        Cursor::start(tokens).position == 0,
        Cursor::start(tokens).depth == 0,
        !Cursor::start(tokens).done,
{
}

/// A parser shows the token at its position, and the last one from then on.
pub proof fn parser_shows_the_token_at_its_position(s: Cursor)
    requires
        s.wf(),
    ensures
        s.current() == token_at(s),
        s.kind() == token_at(s).kind,
        s.span() == token_at(s).span,
        s.value() == token_at(s).value,
        forall|i: int| 0 <= i < s.tokens.len() ==> (#[trigger] s.moved_to(i)).current()
            == s.tokens[i],
{
}

/// To pass a token is to go one position further, whether or not it may be passed, and nothing
/// else changes but that the end is remembered.
pub proof fn passing_counts_by_one(s: Cursor)
    ensures
        s.can_advance() == passable(s),
        s.advance() == past(s),
{
}

/// To go to a token, into a closure or out of it changes nothing but the position or the depth.
pub proof fn other_moves_change_one_thing(s: Cursor, i: int)
    ensures
        s.moved_to(i) == (Cursor { position: i, ..s }),
        s.entered() == (Cursor { depth: s.depth + 1, ..s }),
        s.left() == (Cursor { depth: s.depth - 1, ..s }),
{
}

/// Whether there is an interval to look for depends on all the tokens, those already passed too.
pub proof fn range_may_stand_anywhere(s: Cursor)
    ensures
        s.ranged() <==> exists|i: int|
            0 <= i < s.tokens.len() && (#[trigger] s.tokens[i]).kind == TokenKind::Operator(
                Operator::Range,
            ),
{
}

/// A due token is taken if and only if it is the one in view and may be passed. Otherwise the
/// error says what was due and what is there.
pub proof fn due_token_is_taken_or_reported<'arena>(
    s: Cursor<'arena>,
    kind: TokenKind,
    error: ParserError,
    t: Cursor<'arena>,
)
    requires
        s.wf(),
    ensures
        s.takes(kind) <==> sees(s, kind),
        s.refuses(kind, error, t) <==> lacks(s, kind, Err::<(), ParserError>(error), t),
{
}

/// The ways to succeed or fail, over any type of result.
pub proof fn results_mean_what_they_say<'arena, T>(
    s: Cursor<'arena>,
    kind: TokenKind,
    text: Seq<char>,
    value: T,
    error: ParserError,
    result: ParserResult<T>,
    t: Cursor<'arena>,
)
    requires
        s.wf(),
    ensures
        gives(result, value) <==> (result matches Ok(it) && it == value),
        fails(result, error) <==> (result matches Err(it) && it == error),
        runs_out(s, result, t) <==> out_of_tokens(s, result, t),
        refused(s, kind, result, t) <==> lacks(s, kind, result, t),
        surprised(text, s, result) <==> (result matches Err(it) && unexpected(it, text, s)),
        rejected(text, s, result) <==> complains(result, text, s),
{
}

/// A construct that was there is handed on as it is.
pub proof fn found_results_are_there<'arena>(inner: ParserResult<NodeRef<'arena>>)
    ensures
        is_there(found(inner), inner),
{
}

/// Two errors say the same if and only if they are of the same sort, with the same texts and the
/// same place.
pub proof fn errors_say_the_same(
    first: ParserError,
    second: ParserError,
    one: Seq<char>,
    two: Seq<char>,
    place: Span,
)
    requires
        first.says_the_same(second),
    ensures
        first.is_unexpected(one, two, place) <==> second.is_unexpected(one, two, place),
        first.is_failure(one, place) <==> second.is_failure(one, place),
        first.is_unknown(one, place) <==> second.is_unknown(one, place),
        first is MemoryFailure <==> second is MemoryFailure,
        first is TokenOutOfBounds <==> second is TokenOutOfBounds,
        first.is_unexpected(one, two, place) ==> (first matches ParserError::UnexpectedToken {
            expected,
            received,
            span,
        } && expected@ == one && received@ == two && span == place),
        first.is_failure(one, place) ==> (first matches ParserError::FailedToParse {
            message,
            span,
        } && message@ == one && span == place),
        first.is_unknown(one, place) ==> (first matches ParserError::UnknownBuiltIn { name, span }
            && name@ == one && span == place),
{
}

/// A member can be named by a word, by any identifier, by a logical operator and by `in`, and by
/// no other token.
pub proof fn members_have_names(kind: TokenKind)
    ensures
        valid_property(kind) <==> names_a_member(kind),
{
}

/// Of all tokens only the dot and the opening square bracket go on behind a node.
pub proof fn accesses_start_with_a_dot_or_a_bracket(kind: TokenKind)
    ensures
        PostfixKind::of(kind) is MemberAccess <==> kind == TokenKind::Operator(Operator::Dot),
        PostfixKind::of(kind) is PropertyAccess <==> kind == TokenKind::Bracket(
            Bracket::LeftSquareBracket,
        ),
{
}

/// A name stands for the function that bears it, and for none if no function bears it.
pub proof fn functions_are_found_by_their_name(name: Seq<char>)
    ensures
        match built_in(name) {
            Some(function) => function.name() == name,
            None => forall|function: BuiltInFunction| (#[trigger] function.name()) != name,
        },
        forall|function: BuiltInFunction| #[trigger]
            function.name() == name ==> built_in(name) == Some(function),
{
    assert forall|function: BuiltInFunction| #[trigger] function.name() == name implies built_in(
        name,
    ) == Some(function) by {
        names_are_unique(function);
    }
}

/// The names of the functions that take two expressions.
pub open spec fn names_of_two_expressions() -> Seq<Seq<char>> {
    seq![
        "contains"@,
        "startsWith"@,
        "endsWith"@,
        "matches"@,
        "extract"@,
        "fuzzyMatch"@,
        "split"@,
        "startOf"@,
        "endOf"@,
    ]
}

/// The names of the functions that take an expression and a closure.
pub open spec fn names_of_closures() -> Seq<Seq<char>> {
    seq![
        "all"@,
        "some"@,
        "none"@,
        "one"@,
        "filter"@,
        "map"@,
        "flatMap"@,
        "count"@,
    ]
}

/// Which arguments a function takes, goes by its name: two expressions, an expression and a
/// closure, or else one expression.
pub proof fn arguments_go_by_the_name(function: BuiltInFunction)
    ensures
        function.arity_of() is Dual <==> names_of_two_expressions().contains(function.name()),
        function.arity_of() is Closure <==> names_of_closures().contains(function.name()),
{
    let two = names_of_two_expressions();
    let closures = names_of_closures();
    names_are_unique(function);
    names_are_unique(BuiltInFunction::Contains);
    names_are_unique(BuiltInFunction::StartsWith);
    names_are_unique(BuiltInFunction::EndsWith);
    names_are_unique(BuiltInFunction::Matches);
    names_are_unique(BuiltInFunction::Extract);
    names_are_unique(BuiltInFunction::FuzzyMatch);
    names_are_unique(BuiltInFunction::Split);
    names_are_unique(BuiltInFunction::StartOf);
    names_are_unique(BuiltInFunction::EndOf);
    names_are_unique(BuiltInFunction::All);
    names_are_unique(BuiltInFunction::SomeOf);
    names_are_unique(BuiltInFunction::NoneOf);
    names_are_unique(BuiltInFunction::One);
    names_are_unique(BuiltInFunction::Filter);
    names_are_unique(BuiltInFunction::MapEach);
    names_are_unique(BuiltInFunction::FlatMap);
    names_are_unique(BuiltInFunction::Count);
    if two.contains(function.name()) {
        let i = choose|i: int| 0 <= i < two.len() && two[i] == function.name();
        assert(two[i] == function.name());
    }
    if closures.contains(function.name()) {
        let i = choose|i: int| 0 <= i < closures.len() && closures[i] == function.name();
        assert(closures[i] == function.name());
    }
    if function.arity_of() is Dual {
        assert(two[0] == "contains"@);
        assert(two[1] == "startsWith"@);
        assert(two[2] == "endsWith"@);
        assert(two[3] == "matches"@);
        assert(two[4] == "extract"@);
        assert(two[5] == "fuzzyMatch"@);
        assert(two[6] == "split"@);
        assert(two[7] == "startOf"@);
        assert(two[8] == "endOf"@);
    }
    if function.arity_of() is Closure {
        assert(closures[0] == "all"@);
        assert(closures[1] == "some"@);
        assert(closures[2] == "none"@);
        assert(closures[3] == "one"@);
        assert(closures[4] == "filter"@);
        assert(closures[5] == "map"@);
        assert(closures[6] == "flatMap"@);
        assert(closures[7] == "count"@);
    }
}

/// A number is there if and only if the text is one, and then it is that number.
pub proof fn number_is_its_text<'arena>(
    parsed: Option<Decimal>,
    s: Cursor<'arena>,
    result: ParserResult<Option<NodeRef<'arena>>>,
    t: Cursor<'arena>,
)
    requires
        s.wf(),
        number_run(parsed, s, result, t),
    ensures
        parsed is None ==> (result matches Ok(None)) && t == s,
        parsed is Some && passable(s) ==> (result matches Ok(Some(node)) && node == Node::Number(
            parsed->0,
        )) && t == past(s),
        parsed is Some && !passable(s) ==> out_of_tokens(s, result, t),
{
}

/// A boolean token is the boolean that it says, and no other token is one.
pub proof fn bool_is_what_its_token_says<'arena>(
    s: Cursor<'arena>,
    result: ParserResult<Option<NodeRef<'arena>>>,
    t: Cursor<'arena>,
)
    requires
        s.wf(),
        bool_run(s, result, t),
    ensures
        forall|value: bool| #[trigger]
            sees(s, TokenKind::Boolean(value)) ==> (result matches Ok(Some(node)) && node
                == Node::Bool(value)) && t == past(s),
        token_at(s).kind is Boolean && !passable(s) ==> out_of_tokens(s, result, t),
        !(token_at(s).kind is Boolean) ==> (result matches Ok(None)) && t == s,
{
}

/// The token of `null` is `null`, and no other token is.
pub proof fn null_is_its_token<'arena>(
    s: Cursor<'arena>,
    result: ParserResult<Option<NodeRef<'arena>>>,
    t: Cursor<'arena>,
)
    requires
        s.wf(),
        null_run(s, result, t),
    ensures
        ({
            let null = TokenKind::Identifier(Identifier::Null);
            &&& sees(s, null) ==> (result matches Ok(Some(node)) && node == Node::Null) && t
                == past(s)
            &&& token_at(s).kind == null && !passable(s) ==> out_of_tokens(s, result, t)
            &&& token_at(s).kind != null ==> (result matches Ok(None)) && t == s
        }),
{
}

/// A string is the text between its marks, whatever that text is. The first token that does not
/// fit is the one that is reported.
pub proof fn string_is_the_text_between_marks<'arena>(
    mark: QuotationMark,
    s: Cursor<'arena>,
    result: ParserResult<NodeRef<'arena>>,
    t: Cursor<'arena>,
)
    requires
        s.wf(),
        simple_string_run(mark, s, result, t),
    ensures
        ({
            let quote = TokenKind::QuotationMark(mark);
            let text = past(s);
            let close = past(text);
            &&& sees(s, quote) && sees(text, TokenKind::Literal) && sees(close, quote) ==> (
            result matches Ok(node) && node == Node::String(token_at(text).value)) && t == past(
                close,
            )
            &&& result is Ok ==> sees(s, quote) && sees(text, TokenKind::Literal) && sees(
                close,
                quote,
            )
            &&& !sees(s, quote) ==> lacks(s, quote, result, t)
            &&& sees(s, quote) && !sees(text, TokenKind::Literal) ==> lacks(
                text,
                TokenKind::Literal,
                result,
                t,
            )
            &&& sees(s, quote) && sees(text, TokenKind::Literal) && !sees(close, quote) ==> lacks(
                close,
                quote,
                result,
                t,
            )
        }),
{
}

} // verus!
