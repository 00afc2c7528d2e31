use bumpalo::Bump;
use zen_parser::ast::Node;
use zen_parser::builtin::{Arity, BuiltInFunction};
use zen_parser::error::ParserError;
use zen_parser::parser::{Parser, Standard};
use zen_parser::text::same_text;
use zen_parser::token::{
    ArithmeticOperator, Bracket, ComparisonOperator, Identifier, LogicalOperator, Operator,
    QuotationMark, TemplateString, Token, TokenKind,
};

const NUMBER: TokenKind = TokenKind::Number;
const LITERAL: TokenKind = TokenKind::Literal;
const DOT: TokenKind = TokenKind::Operator(Operator::Dot);
const COMMA: TokenKind = TokenKind::Operator(Operator::Comma);
const RANGE: TokenKind = TokenKind::Operator(Operator::Range);
const CLOSE_SQUARE: TokenKind = TokenKind::Bracket(Bracket::RightSquareBracket);
const BACKTICK: TokenKind = TokenKind::QuotationMark(QuotationMark::Backtick);

fn token<'a>(index: u32, kind: TokenKind, value: &'a str) -> Token<'a> {
    Token { span: (index, index + 1), kind, value }
}

/// Tokens from kinds and texts; the span of a token is its index.
fn tokens<'a>(parts: &[(TokenKind, &'a str)]) -> Vec<Token<'a>> {
    let mut list = Vec::new();
    for (index, (kind, value)) in parts.iter().enumerate() {
        list.push(token(index as u32, *kind, value));
    }
    list
}

fn parser<'a, 't>(list: &'t [Token<'a>], bump: &'a Bump) -> Parser<'a, 't, Standard> {
    Parser::try_new(list, bump).unwrap().standard()
}

#[test]
fn no_tokens_no_parser() {
    let bump = Bump::new();
    let list: Vec<Token> = Vec::new();
    let made = Parser::try_new(&list, &bump);
    assert!(matches!(made, Err(ParserError::TokenOutOfBounds)));
}

#[test]
fn parser_starts_at_the_first_token() {
    let bump = Bump::new();
    let list = tokens(&[(NUMBER, "1"), (COMMA, ",")]);
    let parser = Parser::try_new(&list, &bump).unwrap();
    assert_eq!(*parser.current(), list[0]);
    assert_eq!(parser.position(), 0);
    assert_eq!(parser.depth(), 0);
    assert!(!parser.is_done());
}

#[test]
fn flavor_keeps_the_state() {
    let bump = Bump::new();
    let list = tokens(&[(NUMBER, "1"), (COMMA, ","), (NUMBER, "2")]);
    let mut base = Parser::try_new(&list, &bump).unwrap();
    base.next().unwrap();
    assert_eq!(base.standard().current().value, ",");
    assert_eq!(base.unary().current().value, ",");
    assert_eq!(base.unary().position(), 1);
}

#[test]
fn last_token_is_passed_once() {
    let bump = Bump::new();
    let list = tokens(&[(NUMBER, "1"), (NUMBER, "2")]);
    let mut parser = parser(&list, &bump);
    assert_eq!(parser.next(), Ok(()));
    assert_eq!(parser.current().value, "2");
    assert!(!parser.is_done());
    assert_eq!(parser.next(), Ok(()));
    assert!(parser.is_done());
    assert_eq!(parser.current().value, "2");
    assert_eq!(parser.next(), Err(ParserError::TokenOutOfBounds));
    assert_eq!(parser.next(), Err(ParserError::TokenOutOfBounds));
    assert_eq!(parser.current().value, "2");
}

#[test]
fn position_counts_every_attempt() {
    let bump = Bump::new();
    let list = tokens(&[(NUMBER, "1"), (NUMBER, "2")]);
    let mut parser = parser(&list, &bump);
    assert_eq!(parser.next(), Ok(()));
    assert_eq!(parser.position(), 1);
    assert!(!parser.is_done());
    assert_eq!(parser.next(), Ok(()));
    assert_eq!(parser.position(), 2);
    assert!(parser.is_done());
    assert_eq!(parser.next(), Err(ParserError::TokenOutOfBounds));
    assert_eq!(parser.position(), 3);
    assert_eq!(parser.expect(NUMBER), Err(ParserError::TokenOutOfBounds));
    assert_eq!(parser.position(), 4);
    assert!(parser.expect(COMMA).is_err());
    assert_eq!(parser.position(), 4);
    assert_eq!(parser.current().value, "2");
    assert_eq!(parser.depth(), 0);
    assert!(parser.is_done());
}

#[test]
fn done_rises_at_the_last_token_and_stays() {
    let bump = Bump::new();
    let list = tokens(&[(NUMBER, "1"), (NUMBER, "2"), (NUMBER, "3")]);
    let mut parser = parser(&list, &bump);
    assert_eq!(parser.set_position(2), Ok(()));
    assert_eq!(parser.set_position(1), Ok(()));
    assert_eq!(parser.next(), Ok(()));
    assert!(!parser.is_done());
    assert_eq!(parser.next(), Ok(()));
    assert!(parser.is_done());
    assert_eq!(parser.set_position(0), Ok(()));
    assert!(parser.is_done());
    assert_eq!(parser.next(), Ok(()));
    assert!(parser.is_done());
}

#[test]
fn position_can_be_set_to_any_token() {
    let bump = Bump::new();
    let list = tokens(&[(NUMBER, "1"), (NUMBER, "2")]);
    let mut parser = parser(&list, &bump);
    parser.next().unwrap();
    parser.next().unwrap();
    assert_eq!(parser.set_position(2), Err(ParserError::TokenOutOfBounds));
    assert_eq!(parser.set_position(0), Ok(()));
    assert_eq!(parser.current().value, "1");
    assert!(parser.is_done());
    assert_eq!(parser.next(), Ok(()));
    assert_eq!(parser.next(), Err(ParserError::TokenOutOfBounds));
}

#[test]
fn expected_token_is_passed() {
    let bump = Bump::new();
    let list = tokens(&[(COMMA, ","), (NUMBER, "1")]);
    let mut parser = parser(&list, &bump);
    assert_eq!(parser.expect(COMMA), Ok(()));
    assert_eq!(parser.current().value, "1");
}

#[test]
fn unexpected_token_is_reported() {
    let bump = Bump::new();
    let list = tokens(&[(NUMBER, "1"), (COMMA, ",")]);
    let mut parser = parser(&list, &bump);
    assert_eq!(
        parser.expect(CLOSE_SQUARE),
        Err(ParserError::UnexpectedToken {
            expected: "RightSquareBracket".to_string(),
            received: "Number".to_string(),
            span: (0, 1),
        })
    );
    assert_eq!(parser.position(), 0);
}

#[test]
fn node_is_put_into_the_arena() {
    let bump = Bump::new();
    let list = tokens(&[(NUMBER, "1")]);
    let parser = parser(&list, &bump);
    assert_eq!(bump.allocated_bytes(), 0);
    let node = parser.node(Node::Identifier("x"));
    assert_eq!(*node, Node::Identifier("x"));
    assert!(bump.allocated_bytes() > 0);
}

#[test]
fn kinds_have_names() {
    assert_eq!(NUMBER.to_string(), "Number");
    assert_eq!(LITERAL.to_string(), "Literal");
    assert_eq!(TokenKind::Boolean(true).to_string(), "Boolean");
    assert_eq!(DOT.to_string(), "Dot");
    assert_eq!(RANGE.to_string(), "Range");
    assert_eq!(BACKTICK.to_string(), "Backtick");
    assert_eq!(TokenKind::Identifier(Identifier::RootReference).to_string(), "RootReference");
    assert_eq!(TokenKind::Operator(Operator::Logical(LogicalOperator::And)).to_string(), "And");
    assert_eq!(
        TokenKind::Operator(Operator::Arithmetic(ArithmeticOperator::Power)).to_string(),
        "Power"
    );
    assert_eq!(
        TokenKind::Operator(Operator::Comparison(ComparisonOperator::NotIn)).to_string(),
        "NotIn"
    );
    assert_eq!(
        TokenKind::TemplateString(TemplateString::ExpressionStart).to_string(),
        "ExpressionStart"
    );
}

#[test]
fn identifiers_have_texts() {
    assert_eq!(Identifier::ContextReference.as_str(), "$");
    assert_eq!(Identifier::RootReference.as_str(), "$root");
    assert_eq!(Identifier::CallbackReference.as_str(), "#");
    assert_eq!(Identifier::Null.as_str(), "null");
}

#[test]
fn texts_are_compared_by_their_characters() {
    assert!(same_text("", ""));
    assert!(same_text("map", "map"));
    assert!(!same_text("map", "max"));
    assert!(!same_text("map", "maps"));
    assert!(same_text("größe", "größe"));
    assert!(!same_text("größe", "grösse"));
}

#[test]
fn built_in_functions_are_found_by_name() {
    assert_eq!(BuiltInFunction::from_name("len"), Some(BuiltInFunction::Len));
    assert_eq!(BuiltInFunction::from_name("startsWith"), Some(BuiltInFunction::StartsWith));
    assert_eq!(BuiltInFunction::from_name("some"), Some(BuiltInFunction::SomeOf));
    assert_eq!(BuiltInFunction::from_name("none"), Some(BuiltInFunction::NoneOf));
    assert_eq!(BuiltInFunction::from_name("map"), Some(BuiltInFunction::MapEach));
    assert_eq!(BuiltInFunction::from_name("flatMap"), Some(BuiltInFunction::FlatMap));
    assert_eq!(BuiltInFunction::from_name("weekdayString"), Some(BuiltInFunction::WeekdayString));
    assert_eq!(BuiltInFunction::from_name("Len"), None);
    assert_eq!(BuiltInFunction::from_name(""), None);
    assert_eq!(BuiltInFunction::from_name("lens"), None);
}

#[test]
fn built_in_functions_have_an_arity() {
    assert_eq!(BuiltInFunction::Len.arity(), Arity::Single);
    assert_eq!(BuiltInFunction::DateString.arity(), Arity::Single);
    assert_eq!(BuiltInFunction::Contains.arity(), Arity::Dual);
    assert_eq!(BuiltInFunction::EndOf.arity(), Arity::Dual);
    assert_eq!(BuiltInFunction::Filter.arity(), Arity::Closure);
    assert_eq!(BuiltInFunction::Count.arity(), Arity::Closure);
}
