use bumpalo::Bump;
use rust_decimal::Decimal;
use zen_parser::ast::{Node, NodeRef};
use zen_parser::error::{ParserError, ParserResult};
use zen_parser::parser::{Parser, Standard};
use zen_parser::token::{Identifier, Operator, QuotationMark, TemplateString, Token, TokenKind};

const NUMBER: TokenKind = TokenKind::Number;
const LITERAL: TokenKind = TokenKind::Literal;
const COMMA: TokenKind = TokenKind::Operator(Operator::Comma);
const SINGLE: TokenKind = TokenKind::QuotationMark(QuotationMark::SingleQuote);
const DOUBLE: TokenKind = TokenKind::QuotationMark(QuotationMark::DoubleQuote);
const BACKTICK: TokenKind = TokenKind::QuotationMark(QuotationMark::Backtick);

fn token<'a>(index: u32, kind: TokenKind, value: &'a str) -> Token<'a> {
    Token { span: (index, index + 1), kind, value }
}

/// Tokens from kinds and texts; the span of a token is its index.
fn tokens<'a>(parts: &[(TokenKind, &'a str)]) -> Vec<Token<'a>> {
    let mut list = Vec::new();
    for (index, (kind, value)) in parts.iter().enumerate() {
        list.push(token(index as u32, *kind, value));
    }
    list
}

/// A parser of expressions that knows nothing but literals.
fn expression<'a, 't>(
    parser: Parser<'a, 't, Standard>,
) -> (ParserResult<NodeRef<'a>>, Parser<'a, 't, Standard>) {
    let mut parser = parser;
    let result = parser.literal(&expression);
    (result, parser)
}

fn parser<'a, 't>(list: &'t [Token<'a>], bump: &'a Bump) -> Parser<'a, 't, Standard> {
    Parser::try_new(list, bump).unwrap().standard()
}

#[test]
fn number_is_read_exactly() {
    let bump = Bump::new();
    let list = tokens(&[(NUMBER, "1.50"), (COMMA, ",")]);
    let mut parser = parser(&list, &bump);
    assert_eq!(parser.number(), Ok(Some(&Node::Number(Decimal::new(150, 2)))));
    assert_eq!(parser.position(), 1);
}

#[test]
fn text_that_is_no_number_is_none() {
    let bump = Bump::new();
    let list = tokens(&[(NUMBER, "1.2.3"), (COMMA, ",")]);
    let mut parser = parser(&list, &bump);
    assert_eq!(parser.number(), Ok(None));
    assert_eq!(parser.position(), 0);
}

#[test]
fn number_with_too_many_digits_is_none() {
    let bump = Bump::new();
    let list = tokens(&[(NUMBER, "0.00000000000000000000000000001"), (COMMA, ",")]);
    let mut parser = parser(&list, &bump);
    assert_eq!(parser.number(), Ok(None));
}

#[test]
fn number_comes_from_its_value() {
    let bump = Bump::new();
    let list = tokens(&[(NUMBER, "?"), (COMMA, ",")]);
    let mut parser = parser(&list, &bump);
    assert_eq!(parser.number_from(None), Ok(None));
    assert_eq!(parser.position(), 0);
    let value = Decimal::new(7, 0);
    assert_eq!(parser.number_from(Some(value)), Ok(Some(&Node::Number(value))));
    assert_eq!(parser.position(), 1);
}

#[test]
fn number_behind_the_end_is_out_of_bounds() {
    let bump = Bump::new();
    let list = tokens(&[(NUMBER, "1")]);
    let mut parser = parser(&list, &bump);
    assert!(parser.number().is_ok());
    assert_eq!(parser.number(), Err(ParserError::TokenOutOfBounds));
}

#[test]
fn literal_number_that_is_none_is_an_error() {
    let bump = Bump::new();
    let list = tokens(&[(NUMBER, "one"), (COMMA, ",")]);
    let mut parser = parser(&list, &bump);
    assert_eq!(
        parser.literal(&expression),
        Err(ParserError::FailedToParse {
            message: "Failed to parse number".to_string(),
            span: (0, 1),
        })
    );
}

#[test]
fn literal_from_takes_the_number() {
    let bump = Bump::new();
    let list = tokens(&[(NUMBER, "1")]);
    let mut parser = parser(&list, &bump);
    let value = Decimal::new(99, 1);
    assert_eq!(parser.literal_from(Some(value), &expression), Ok(&Node::Number(value)));
}

#[test]
fn simple_string_is_read() {
    let bump = Bump::new();
    let list = tokens(&[(DOUBLE, "\""), (LITERAL, "a b"), (DOUBLE, "\""), (COMMA, ",")]);
    let mut parser = parser(&list, &bump);
    assert_eq!(parser.simple_string(&QuotationMark::DoubleQuote), Ok(&Node::String("a b")));
    assert_eq!(parser.position(), 3);
}

#[test]
fn simple_string_needs_matching_marks() {
    let bump = Bump::new();
    let list = tokens(&[(SINGLE, "'"), (LITERAL, "a"), (DOUBLE, "\""), (COMMA, ",")]);
    let mut parser = parser(&list, &bump);
    assert_eq!(
        parser.simple_string(&QuotationMark::SingleQuote),
        Err(ParserError::UnexpectedToken {
            expected: "SingleQuote".to_string(),
            received: "DoubleQuote".to_string(),
            span: (2, 3),
        })
    );
}

#[test]
fn template_string_keeps_its_pieces_in_order() {
    let bump = Bump::new();
    let start = TokenKind::TemplateString(TemplateString::ExpressionStart);
    let end = TokenKind::TemplateString(TemplateString::ExpressionEnd);
    let list = tokens(&[
        (BACKTICK, "`"),
        (LITERAL, "a "),
        (start, "${"),
        (LITERAL, "x"),
        (end, "}"),
        (LITERAL, " b"),
        (BACKTICK, "`"),
    ]);
    let mut parser = parser(&list, &bump);
    let pieces = [&Node::String("a "), &Node::Identifier("x"), &Node::String(" b")];
    assert_eq!(parser.template_string(&expression), Ok(&Node::TemplateString(&pieces)));
    assert!(parser.is_done());
}

#[test]
fn template_string_can_be_empty() {
    let bump = Bump::new();
    let list = tokens(&[(BACKTICK, "`"), (BACKTICK, "`")]);
    let mut parser = parser(&list, &bump);
    assert_eq!(parser.template_string(&expression), Ok(&Node::TemplateString(&[])));
}

#[test]
fn template_string_takes_no_other_token() {
    let bump = Bump::new();
    let list = tokens(&[(BACKTICK, "`"), (COMMA, ","), (BACKTICK, "`")]);
    let mut parser = parser(&list, &bump);
    assert_eq!(
        parser.template_string(&expression),
        Err(ParserError::UnexpectedToken {
            expected: "Valid TemplateString token".to_string(),
            received: "Comma".to_string(),
            span: (1, 2),
        })
    );
}

#[test]
fn template_string_without_end_is_out_of_bounds() {
    let bump = Bump::new();
    let list = tokens(&[(BACKTICK, "`"), (LITERAL, "a")]);
    let mut parser = parser(&list, &bump);
    assert_eq!(parser.template_string(&expression), Err(ParserError::TokenOutOfBounds));
}

#[test]
fn bool_and_null_are_read() {
    let bump = Bump::new();
    let list = tokens(&[
        (TokenKind::Boolean(true), "true"),
        (TokenKind::Boolean(false), "false"),
        (TokenKind::Identifier(Identifier::Null), "null"),
        (COMMA, ","),
    ]);
    let mut parser = parser(&list, &bump);
    assert_eq!(parser.null(), Ok(None));
    assert_eq!(parser.position(), 0);
    assert_eq!(parser.bool(), Ok(Some(&Node::Bool(true))));
    assert_eq!(parser.bool(), Ok(Some(&Node::Bool(false))));
    assert_eq!(parser.bool(), Ok(None));
    assert_eq!(parser.position(), 2);
    assert_eq!(parser.null(), Ok(Some(&Node::Null)));
    assert_eq!(parser.position(), 3);
}
