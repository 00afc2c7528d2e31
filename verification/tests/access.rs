use bumpalo::Bump;
use zen_parser::access::{is_valid_property, PostfixKind};
use zen_parser::ast::{Node, NodeRef};
use zen_parser::error::{ParserError, ParserResult};
use zen_parser::parser::{Parser, Standard};
use zen_parser::token::{
    ArithmeticOperator, Bracket, ComparisonOperator, Identifier, LogicalOperator, Operator,
    QuotationMark, Token, TokenKind,
};

const NUMBER: TokenKind = TokenKind::Number;
const LITERAL: TokenKind = TokenKind::Literal;
const DOT: TokenKind = TokenKind::Operator(Operator::Dot);
const COMMA: TokenKind = TokenKind::Operator(Operator::Comma);
const COLON: TokenKind = TokenKind::Operator(Operator::Slice);
const OPEN: TokenKind = TokenKind::Bracket(Bracket::LeftParenthesis);
const OPEN_SQUARE: TokenKind = TokenKind::Bracket(Bracket::LeftSquareBracket);
const CLOSE_SQUARE: TokenKind = TokenKind::Bracket(Bracket::RightSquareBracket);
const BACKTICK: TokenKind = TokenKind::QuotationMark(QuotationMark::Backtick);

fn token<'a>(index: u32, kind: TokenKind, value: &'a str) -> Token<'a> {
    Token { span: (index, index + 1), kind, value }
}

/// Tokens from kinds and texts; the span of a token is its index.
fn tokens<'a>(parts: &[(TokenKind, &'a str)]) -> Vec<Token<'a>> {
    let mut list = Vec::new();
    for (index, (kind, value)) in parts.iter().enumerate() {
        list.push(token(index as u32, *kind, value));
    }
    list
}

/// A parser of expressions that knows nothing but literals.
fn expression<'a, 't>(
    parser: Parser<'a, 't, Standard>,
) -> (ParserResult<NodeRef<'a>>, Parser<'a, 't, Standard>) {
    let mut parser = parser;
    let result = parser.literal(&expression);
    (result, parser)
}

fn parser<'a, 't>(list: &'t [Token<'a>], bump: &'a Bump) -> Parser<'a, 't, Standard> {
    Parser::try_new(list, bump).unwrap().standard()
}

#[test]
fn postfix_chain_is_read_from_the_left() {
    let bump = Bump::new();
    // a.b[c][:d][e:][f:g][:]
    let list = tokens(&[
        (LITERAL, "a"),
        (DOT, "."),
        (LITERAL, "b"),
        (OPEN_SQUARE, "["),
        (LITERAL, "c"),
        (CLOSE_SQUARE, "]"),
        (OPEN_SQUARE, "["),
        (COLON, ":"),
        (LITERAL, "d"),
        (CLOSE_SQUARE, "]"),
        (OPEN_SQUARE, "["),
        (LITERAL, "e"),
        (COLON, ":"),
        (CLOSE_SQUARE, "]"),
        (OPEN_SQUARE, "["),
        (LITERAL, "f"),
        (COLON, ":"),
        (LITERAL, "g"),
        (CLOSE_SQUARE, "]"),
        (OPEN_SQUARE, "["),
        (COLON, ":"),
        (CLOSE_SQUARE, "]"),
        (COMMA, ","),
    ]);
    let mut parser = parser(&list, &bump);
    let a = Node::Identifier("a");
    let b = Node::String("b");
    let c = Node::Identifier("c");
    let d = Node::Identifier("d");
    let e = Node::Identifier("e");
    let f = Node::Identifier("f");
    let g = Node::Identifier("g");
    let first = Node::Member { node: &a, property: &b };
    let second = Node::Member { node: &first, property: &c };
    let third = Node::Slice { node: &second, from: None, to: Some(&d) };
    let fourth = Node::Slice { node: &third, from: Some(&e), to: None };
    let fifth = Node::Slice { node: &fourth, from: Some(&f), to: Some(&g) };
    let sixth = Node::Slice { node: &fifth, from: None, to: None };
    assert_eq!(parser.identifier(&expression), Ok(Some(&sixth)));
    assert_eq!(parser.current().value, ",");
}

#[test]
fn node_without_postfix_stays_as_it_is() {
    let bump = Bump::new();
    let list = tokens(&[(COMMA, ","), (NUMBER, "1")]);
    let mut parser = parser(&list, &bump);
    let node = parser.node(Node::Null);
    assert_eq!(parser.with_postfix(node, &expression), Ok(&Node::Null));
    assert_eq!(parser.position(), 0);
}

#[test]
fn words_that_are_operators_can_be_properties() {
    let bump = Bump::new();
    let and = TokenKind::Operator(Operator::Logical(LogicalOperator::And));
    let list = tokens(&[(LITERAL, "a"), (DOT, "."), (and, "and"), (COMMA, ",")]);
    let mut parser = parser(&list, &bump);
    let a = Node::Identifier("a");
    let property = Node::String("and");
    assert_eq!(
        parser.identifier(&expression),
        Ok(Some(&Node::Member { node: &a, property: &property }))
    );
}

#[test]
fn invalid_property_is_reported_at_the_dot() {
    let bump = Bump::new();
    let list = tokens(&[(LITERAL, "a"), (DOT, "."), (NUMBER, "1"), (COMMA, ",")]);
    let mut parser = parser(&list, &bump);
    assert_eq!(
        parser.identifier(&expression),
        Err(ParserError::UnexpectedToken {
            expected: "valid property".to_string(),
            received: "Dot".to_string(),
            span: (1, 2),
        })
    );
}

#[test]
fn index_needs_its_closing_bracket() {
    let bump = Bump::new();
    let list = tokens(&[(LITERAL, "a"), (OPEN_SQUARE, "["), (LITERAL, "b"), (COMMA, ",")]);
    let mut parser = parser(&list, &bump);
    assert_eq!(
        parser.identifier(&expression),
        Err(ParserError::UnexpectedToken {
            expected: "RightSquareBracket".to_string(),
            received: "Comma".to_string(),
            span: (3, 4),
        })
    );
}

#[test]
fn dot_at_the_end_is_out_of_bounds() {
    let bump = Bump::new();
    let list = tokens(&[(LITERAL, "a"), (DOT, ".")]);
    let mut parser = parser(&list, &bump);
    assert_eq!(parser.identifier(&expression), Err(ParserError::TokenOutOfBounds));
}

#[test]
fn valid_properties() {
    let valid = |kind: TokenKind| is_valid_property(&token(0, kind, ""));
    assert!(valid(LITERAL));
    assert!(valid(TokenKind::Identifier(Identifier::Null)));
    assert!(valid(TokenKind::Operator(Operator::Logical(LogicalOperator::Not))));
    assert!(valid(TokenKind::Operator(Operator::Comparison(ComparisonOperator::In))));
    assert!(!valid(TokenKind::Operator(Operator::Comparison(ComparisonOperator::NotIn))));
    assert!(!valid(TokenKind::Operator(Operator::Arithmetic(ArithmeticOperator::Add))));
    assert!(!valid(DOT));
    assert!(!valid(NUMBER));
    assert!(!valid(TokenKind::Boolean(true)));
    assert!(!valid(OPEN));
    assert!(!valid(BACKTICK));
}

#[test]
fn postfix_kinds() {
    assert_eq!(PostfixKind::from(&token(0, OPEN_SQUARE, "[")), PostfixKind::PropertyAccess);
    assert_eq!(PostfixKind::from(&token(0, DOT, ".")), PostfixKind::MemberAccess);
    assert_eq!(PostfixKind::from(&token(0, OPEN, "(")), PostfixKind::Other);
    assert_eq!(PostfixKind::from(&token(0, NUMBER, "1")), PostfixKind::Other);
}
