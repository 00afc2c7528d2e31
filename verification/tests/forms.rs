use bumpalo::Bump;
use rust_decimal::Decimal;
use zen_parser::ast::{Node, NodeRef};
use zen_parser::error::{ParserError, ParserResult};
use zen_parser::parser::{Parser, Standard};
use zen_parser::token::{
    Bracket, Identifier, Operator, QuotationMark, TemplateString, Token, TokenKind,
};

const NUMBER: TokenKind = TokenKind::Number;
const LITERAL: TokenKind = TokenKind::Literal;
const COMMA: TokenKind = TokenKind::Operator(Operator::Comma);
const COLON: TokenKind = TokenKind::Operator(Operator::Slice);
const RANGE: TokenKind = TokenKind::Operator(Operator::Range);
const OPEN: TokenKind = TokenKind::Bracket(Bracket::LeftParenthesis);
const CLOSE: TokenKind = TokenKind::Bracket(Bracket::RightParenthesis);
const OPEN_SQUARE: TokenKind = TokenKind::Bracket(Bracket::LeftSquareBracket);
const CLOSE_SQUARE: TokenKind = TokenKind::Bracket(Bracket::RightSquareBracket);
const OPEN_CURLY: TokenKind = TokenKind::Bracket(Bracket::LeftCurlyBracket);
const CLOSE_CURLY: TokenKind = TokenKind::Bracket(Bracket::RightCurlyBracket);
const SINGLE: TokenKind = TokenKind::QuotationMark(QuotationMark::SingleQuote);
const BACKTICK: TokenKind = TokenKind::QuotationMark(QuotationMark::Backtick);
const QUESTION: TokenKind = TokenKind::Operator(Operator::QuestionMark);

fn token<'a>(index: u32, kind: TokenKind, value: &'a str) -> Token<'a> {
    Token { span: (index, index + 1), kind, value }
}

/// Tokens from kinds and texts; the span of a token is its index.
fn tokens<'a>(parts: &[(TokenKind, &'a str)]) -> Vec<Token<'a>> {
    let mut list = Vec::new();
    for (index, (kind, value)) in parts.iter().enumerate() {
        list.push(token(index as u32, *kind, value));
    }
    list
}

/// A parser of expressions that knows nothing but literals.
fn expression<'a, 't>(
    parser: Parser<'a, 't, Standard>,
) -> (ParserResult<NodeRef<'a>>, Parser<'a, 't, Standard>) {
    let mut parser = parser;
    let result = parser.literal(&expression);
    (result, parser)
}

fn parser<'a, 't>(list: &'t [Token<'a>], bump: &'a Bump) -> Parser<'a, 't, Standard> {
    Parser::try_new(list, bump).unwrap().standard()
}

#[test]
fn interval_keeps_its_brackets() {
    let bump = Bump::new();
    let list = tokens(&[
        (CLOSE_SQUARE, "]"),
        (NUMBER, "1"),
        (RANGE, ".."),
        (NUMBER, "5"),
        (CLOSE, ")"),
    ]);
    let mut parser = parser(&list, &bump);
    let one = Node::Number(Decimal::new(1, 0));
    let five = Node::Number(Decimal::new(5, 0));
    assert_eq!(
        parser.interval(&expression),
        Ok(Some(&Node::Interval {
            left_bracket: "]",
            left: &one,
            right: &five,
            right_bracket: ")",
        }))
    );
    assert!(parser.is_done());
}

#[test]
fn absent_interval_returns_to_the_start() {
    let bump = Bump::new();
    // [1, 2] .. : a range operator is there, but not in the brackets
    let list = tokens(&[
        (OPEN_SQUARE, "["),
        (NUMBER, "1"),
        (COMMA, ","),
        (NUMBER, "2"),
        (CLOSE_SQUARE, "]"),
        (RANGE, ".."),
    ]);
    let mut parser = parser(&list, &bump);
    assert_eq!(parser.interval(&expression), Ok(None));
    assert_eq!(parser.position(), 0);
    let one = Node::Number(Decimal::new(1, 0));
    let two = Node::Number(Decimal::new(2, 0));
    assert_eq!(parser.literal(&expression), Ok(&Node::Array(&[&one, &two])));
}

#[test]
fn interval_is_not_searched_without_range_operator() {
    let bump = Bump::new();
    let list = tokens(&[(OPEN, "("), (NUMBER, "1"), (CLOSE, ")")]);
    let mut parser = parser(&list, &bump);
    assert_eq!(parser.interval(&expression), Ok(None));
    assert_eq!(parser.position(), 0);
    assert_eq!(
        parser.literal(&expression),
        Err(ParserError::FailedToParse {
            message: "Failed to parse interval".to_string(),
            span: (0, 1),
        })
    );
}

#[test]
fn failed_parts_of_an_interval_are_no_error() {
    let bump = Bump::new();
    for parts in [
        [(OPEN, "("), (COMMA, ","), (RANGE, ".."), (NUMBER, "2"), (CLOSE, ")")],
        [(OPEN, "("), (NUMBER, "1"), (RANGE, ".."), (COMMA, ","), (CLOSE, ")")],
        [(OPEN, "("), (NUMBER, "1"), (RANGE, ".."), (NUMBER, "2"), (COMMA, ",")],
    ] {
        let list = tokens(&parts);
        let mut parser = Parser::try_new(&list, &bump).unwrap().standard();
        assert_eq!(parser.interval(&expression), Ok(None));
        assert_eq!(parser.position(), 0);
    }
}

#[test]
fn interval_that_gives_up_can_leave_a_closure_open() {
    let bump = Bump::new();
    // [map(a, ,) .. : the body of the closure fails
    let list = tokens(&[
        (OPEN_SQUARE, "["),
        (LITERAL, "map"),
        (OPEN, "("),
        (LITERAL, "a"),
        (COMMA, ","),
        (COMMA, ","),
        (CLOSE, ")"),
        (RANGE, ".."),
    ]);
    let mut parser = parser(&list, &bump);
    assert_eq!(parser.interval(&expression), Ok(None));
    assert_eq!(parser.position(), 0);
    assert_eq!(parser.depth(), 1);
}

#[test]
fn literal_prefers_the_interval() {
    let bump = Bump::new();
    let list = tokens(&[
        (OPEN_SQUARE, "["),
        (LITERAL, "a"),
        (RANGE, ".."),
        (LITERAL, "b"),
        (CLOSE_SQUARE, "]"),
    ]);
    let mut parser = parser(&list, &bump);
    let a = Node::Identifier("a");
    let b = Node::Identifier("b");
    assert_eq!(
        parser.literal(&expression),
        Ok(&Node::Interval { left_bracket: "[", left: &a, right: &b, right_bracket: "]" })
    );
}

#[test]
fn conditional_has_two_branches() {
    let bump = Bump::new();
    let list = tokens(&[
        (QUESTION, "?"),
        (LITERAL, "a"),
        (COLON, ":"),
        (LITERAL, "b"),
        (COMMA, ","),
    ]);
    let mut parser = parser(&list, &bump);
    let condition = parser.node(Node::Bool(true));
    let a = Node::Identifier("a");
    let b = Node::Identifier("b");
    assert_eq!(
        parser.conditional(condition, &expression),
        Ok(Some(&Node::Conditional { condition, on_true: &a, on_false: &b }))
    );
    assert_eq!(parser.position(), 4);
}

#[test]
fn no_conditional_moves_nothing() {
    let bump = Bump::new();
    let list = tokens(&[(COLON, ":"), (LITERAL, "a")]);
    let mut parser = parser(&list, &bump);
    let condition = parser.node(Node::Null);
    assert_eq!(parser.conditional(condition, &expression), Ok(None));
    assert_eq!(parser.position(), 0);
}

#[test]
fn conditional_needs_its_colon() {
    let bump = Bump::new();
    let list = tokens(&[(QUESTION, "?"), (LITERAL, "a"), (COMMA, ",")]);
    let mut parser = parser(&list, &bump);
    let condition = parser.node(Node::Null);
    assert_eq!(
        parser.conditional(condition, &expression),
        Err(ParserError::UnexpectedToken {
            expected: "Slice".to_string(),
            received: "Comma".to_string(),
            span: (2, 3),
        })
    );
}

#[test]
fn literal_reads_each_construct() {
    let bump = Bump::new();
    let list = tokens(&[
        (TokenKind::Identifier(Identifier::Null), "null"),
        (TokenKind::Boolean(true), "true"),
        (NUMBER, "2"),
        (SINGLE, "'"),
        (LITERAL, "s"),
        (SINGLE, "'"),
        (BACKTICK, "`"),
        (LITERAL, "t"),
        (BACKTICK, "`"),
        (OPEN_SQUARE, "["),
        (CLOSE_SQUARE, "]"),
        (OPEN_CURLY, "{"),
        (CLOSE_CURLY, "}"),
        (LITERAL, "x"),
        (TokenKind::Identifier(Identifier::RootReference), "$root"),
    ]);
    let mut parser = parser(&list, &bump);
    assert_eq!(parser.literal(&expression), Ok(&Node::Null));
    assert_eq!(parser.literal(&expression), Ok(&Node::Bool(true)));
    assert_eq!(parser.literal(&expression), Ok(&Node::Number(Decimal::new(2, 0))));
    assert_eq!(parser.literal(&expression), Ok(&Node::String("s")));
    assert_eq!(parser.literal(&expression), Ok(&Node::TemplateString(&[&Node::String("t")])));
    assert_eq!(parser.literal(&expression), Ok(&Node::Array(&[])));
    assert_eq!(parser.literal(&expression), Ok(&Node::Object(&[])));
    assert_eq!(parser.literal(&expression), Ok(&Node::Identifier("x")));
    assert_eq!(parser.literal(&expression), Ok(&Node::Root));
    assert!(parser.is_done());
}

#[test]
fn literal_does_what_the_construct_does() {
    let bump = Bump::new();
    let object = tokens(&[(OPEN_CURLY, "{"), (LITERAL, "a"), (COLON, ":"), (COMMA, ",")]);
    let mut one = parser(&object, &bump);
    let mut other = one;
    assert_eq!(one.literal(&expression), other.object(&expression));
    assert_eq!(one.position(), other.position());

    let template = tokens(&[(BACKTICK, "`"), (LITERAL, "a"), (BACKTICK, "`")]);
    let mut one = parser(&template, &bump);
    let mut other = one;
    assert_eq!(one.literal(&expression), other.template_string(&expression));
    assert_eq!(one.position(), other.position());

    let string = tokens(&[(SINGLE, "'"), (LITERAL, "a"), (SINGLE, "'")]);
    let mut one = parser(&string, &bump);
    let mut other = one;
    assert_eq!(one.literal(&expression), other.simple_string(&QuotationMark::SingleQuote));
    assert_eq!(one.position(), other.position());

    let word = tokens(&[(LITERAL, "a"), (COMMA, ",")]);
    let mut one = parser(&word, &bump);
    let mut other = one;
    assert_eq!(one.literal(&expression).map(Some), other.identifier(&expression));
    assert_eq!(one.position(), other.position());

    let number = tokens(&[(NUMBER, "1"), (COMMA, ",")]);
    let mut one = parser(&number, &bump);
    let mut other = one;
    assert_eq!(one.literal(&expression).map(Some), other.number());
    assert_eq!(one.position(), other.position());

    let array = tokens(&[(OPEN_SQUARE, "["), (CLOSE_SQUARE, "]"), (RANGE, "..")]);
    let mut one = parser(&array, &bump);
    let mut other = one;
    assert_eq!(other.interval(&expression), Ok(None));
    assert_eq!(one.literal(&expression).map(Some), other.array(&expression));
    assert_eq!(one.position(), other.position());
}

#[test]
fn literal_rejects_what_starts_nothing() {
    let bump = Bump::new();
    let end = TokenKind::TemplateString(TemplateString::ExpressionEnd);
    let cases = [
        (CLOSE_CURLY, "Unexpected RightCurlyBracket token"),
        (COMMA, "Unexpected Operator token"),
        (end, "Unexpected TemplateString token"),
        (OPEN, "Failed to parse interval"),
        (CLOSE, "Failed to parse interval"),
        (CLOSE_SQUARE, "Failed to parse interval"),
    ];
    for (kind, message) in cases {
        let list = tokens(&[(kind, "?"), (NUMBER, "1")]);
        let mut parser = Parser::try_new(&list, &bump).unwrap().standard();
        assert_eq!(
            parser.literal(&expression),
            Err(ParserError::FailedToParse { message: message.to_string(), span: (0, 1) })
        );
        assert_eq!(parser.position(), 0);
    }
}

#[test]
fn the_same_tokens_give_the_same_result() {
    let bump = Bump::new();
    let list = tokens(&[
        (OPEN_SQUARE, "["),
        (LITERAL, "len"),
        (OPEN, "("),
        (LITERAL, "x"),
        (CLOSE, ")"),
        (CLOSE_SQUARE, "]"),
        (RANGE, ".."),
    ]);
    let start = parser(&list, &bump);
    let (first, after) = expression(start);
    let (second, behind) = expression(start);
    assert!(first.is_ok());
    assert_eq!(first, second);
    assert_eq!(after.position(), behind.position());
    assert!(after.position() > start.position());
    assert_eq!(after.depth(), start.depth());
}
