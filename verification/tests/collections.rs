use bumpalo::Bump;
use rust_decimal::Decimal;
use zen_parser::ast::{Node, NodeRef};
use zen_parser::error::{ParserError, ParserResult};
use zen_parser::parser::{Parser, Standard};
use zen_parser::token::{
    Bracket, Identifier, Operator, QuotationMark, TemplateString, Token, TokenKind,
};

const NUMBER: TokenKind = TokenKind::Number;
const LITERAL: TokenKind = TokenKind::Literal;
const COMMA: TokenKind = TokenKind::Operator(Operator::Comma);
const COLON: TokenKind = TokenKind::Operator(Operator::Slice);
const OPEN: TokenKind = TokenKind::Bracket(Bracket::LeftParenthesis);
const CLOSE: TokenKind = TokenKind::Bracket(Bracket::RightParenthesis);
const OPEN_SQUARE: TokenKind = TokenKind::Bracket(Bracket::LeftSquareBracket);
const CLOSE_SQUARE: TokenKind = TokenKind::Bracket(Bracket::RightSquareBracket);
const OPEN_CURLY: TokenKind = TokenKind::Bracket(Bracket::LeftCurlyBracket);
const CLOSE_CURLY: TokenKind = TokenKind::Bracket(Bracket::RightCurlyBracket);
const SINGLE: TokenKind = TokenKind::QuotationMark(QuotationMark::SingleQuote);
const DOUBLE: TokenKind = TokenKind::QuotationMark(QuotationMark::DoubleQuote);
const BACKTICK: TokenKind = TokenKind::QuotationMark(QuotationMark::Backtick);

fn token<'a>(index: u32, kind: TokenKind, value: &'a str) -> Token<'a> {
    Token { span: (index, index + 1), kind, value }
}

/// Tokens from kinds and texts; the span of a token is its index.
fn tokens<'a>(parts: &[(TokenKind, &'a str)]) -> Vec<Token<'a>> {
    let mut list = Vec::new();
    for (index, (kind, value)) in parts.iter().enumerate() {
        list.push(token(index as u32, *kind, value));
    }
    list
}

/// A parser of expressions that knows nothing but literals.
fn expression<'a, 't>(
    parser: Parser<'a, 't, Standard>,
) -> (ParserResult<NodeRef<'a>>, Parser<'a, 't, Standard>) {
    let mut parser = parser;
    let result = parser.literal(&expression);
    (result, parser)
}

fn parser<'a, 't>(list: &'t [Token<'a>], bump: &'a Bump) -> Parser<'a, 't, Standard> {
    Parser::try_new(list, bump).unwrap().standard()
}

#[test]
fn empty_array() {
    let bump = Bump::new();
    let list = tokens(&[(OPEN_SQUARE, "["), (CLOSE_SQUARE, "]")]);
    let mut parser = parser(&list, &bump);
    assert_eq!(parser.array(&expression), Ok(Some(&Node::Array(&[]))));
    assert!(parser.is_done());
}

#[test]
fn array_keeps_its_items_in_order() {
    let bump = Bump::new();
    let list = tokens(&[
        (OPEN_SQUARE, "["),
        (LITERAL, "a"),
        (COMMA, ","),
        (LITERAL, "b"),
        (COMMA, ","),
        (LITERAL, "a"),
        (CLOSE_SQUARE, "]"),
    ]);
    let mut parser = parser(&list, &bump);
    let items = [&Node::Identifier("a"), &Node::Identifier("b"), &Node::Identifier("a")];
    assert_eq!(parser.array(&expression), Ok(Some(&Node::Array(&items))));
}

#[test]
fn trailing_comma_adds_no_item() {
    let bump = Bump::new();
    let list =
        tokens(&[(OPEN_SQUARE, "["), (LITERAL, "a"), (COMMA, ","), (CLOSE_SQUARE, "]")]);
    let mut parser = parser(&list, &bump);
    assert_eq!(parser.array(&expression), Ok(Some(&Node::Array(&[&Node::Identifier("a")]))));
}

#[test]
fn array_can_be_indexed() {
    let bump = Bump::new();
    let list = tokens(&[
        (OPEN_SQUARE, "["),
        (LITERAL, "a"),
        (CLOSE_SQUARE, "]"),
        (OPEN_SQUARE, "["),
        (NUMBER, "0"),
        (CLOSE_SQUARE, "]"),
    ]);
    let mut parser = parser(&list, &bump);
    let items = [&Node::Identifier("a")];
    let array = Node::Array(&items);
    let zero = Node::Number(Decimal::new(0, 0));
    assert_eq!(
        parser.array(&expression),
        Ok(Some(&Node::Member { node: &array, property: &zero }))
    );
}

#[test]
fn array_items_need_commas() {
    let bump = Bump::new();
    let list =
        tokens(&[(OPEN_SQUARE, "["), (LITERAL, "a"), (LITERAL, "b"), (CLOSE_SQUARE, "]")]);
    let mut parser = parser(&list, &bump);
    assert_eq!(
        parser.array(&expression),
        Err(ParserError::UnexpectedToken {
            expected: "Comma".to_string(),
            received: "Literal".to_string(),
            span: (2, 3),
        })
    );
}

#[test]
fn array_starts_with_no_comma() {
    let bump = Bump::new();
    let list = tokens(&[(OPEN_SQUARE, "["), (COMMA, ","), (CLOSE_SQUARE, "]")]);
    let mut parser = parser(&list, &bump);
    assert_eq!(
        parser.array(&expression),
        Err(ParserError::FailedToParse {
            message: "Unexpected Operator token".to_string(),
            span: (1, 2),
        })
    );
}

#[test]
fn no_array_moves_nothing() {
    let bump = Bump::new();
    let list = tokens(&[(OPEN, "("), (CLOSE, ")")]);
    let mut parser = parser(&list, &bump);
    assert_eq!(parser.array(&expression), Ok(None));
    assert_eq!(parser.position(), 0);
}

#[test]
fn array_without_end_is_out_of_bounds() {
    let bump = Bump::new();
    let list = tokens(&[(OPEN_SQUARE, "["), (LITERAL, "a"), (COMMA, ",")]);
    let mut parser = parser(&list, &bump);
    assert_eq!(
        parser.array(&expression),
        Err(ParserError::FailedToParse {
            message: "Unexpected Operator token".to_string(),
            span: (2, 3),
        })
    );
    let list = tokens(&[(OPEN_SQUARE, "[")]);
    let mut parser = Parser::try_new(&list, &bump).unwrap().standard();
    assert!(parser.next().is_ok());
    assert_eq!(parser.array(&expression), Err(ParserError::TokenOutOfBounds));
}

#[test]
fn empty_object() {
    let bump = Bump::new();
    let list = tokens(&[(OPEN_CURLY, "{"), (CLOSE_CURLY, "}")]);
    let mut parser = parser(&list, &bump);
    assert_eq!(parser.object(&expression), Ok(&Node::Object(&[])));
}

#[test]
fn object_keeps_its_entries_in_order() {
    let bump = Bump::new();
    // {a: x, 'b c': y, a: z}
    let list = tokens(&[
        (OPEN_CURLY, "{"),
        (LITERAL, "a"),
        (COLON, ":"),
        (LITERAL, "x"),
        (COMMA, ","),
        (SINGLE, "'"),
        (LITERAL, "b c"),
        (SINGLE, "'"),
        (COLON, ":"),
        (LITERAL, "y"),
        (COMMA, ","),
        (LITERAL, "a"),
        (COLON, ":"),
        (LITERAL, "z"),
        (CLOSE_CURLY, "}"),
    ]);
    let mut parser = parser(&list, &bump);
    let a = Node::String("a");
    let bc = Node::String("b c");
    let x = Node::Identifier("x");
    let y = Node::Identifier("y");
    let z = Node::Identifier("z");
    let entries = [(&a, &x), (&bc, &y), (&a, &z)];
    assert_eq!(parser.object(&expression), Ok(&Node::Object(&entries)));
}

#[test]
fn object_takes_no_trailing_comma() {
    let bump = Bump::new();
    let list = tokens(&[
        (OPEN_CURLY, "{"),
        (LITERAL, "a"),
        (COLON, ":"),
        (LITERAL, "x"),
        (COMMA, ","),
        (CLOSE_CURLY, "}"),
    ]);
    let mut parser = parser(&list, &bump);
    assert_eq!(
        parser.object(&expression),
        Err(ParserError::FailedToParse {
            message: "Operator is not supported as object key".to_string(),
            span: (5, 6),
        })
    );
}

#[test]
fn object_entries_need_commas() {
    let bump = Bump::new();
    let list = tokens(&[
        (OPEN_CURLY, "{"),
        (LITERAL, "a"),
        (COLON, ":"),
        (LITERAL, "x"),
        (CLOSE, ")"),
    ]);
    let mut parser = parser(&list, &bump);
    assert_eq!(
        parser.object(&expression),
        Err(ParserError::UnexpectedToken {
            expected: "RightCurlyBracket or Comma".to_string(),
            received: "RightParenthesis".to_string(),
            span: (4, 5),
        })
    );
}

#[test]
fn object_entries_need_colons() {
    let bump = Bump::new();
    let list = tokens(&[(OPEN_CURLY, "{"), (LITERAL, "a"), (CLOSE_CURLY, "}")]);
    let mut parser = parser(&list, &bump);
    assert_eq!(
        parser.object(&expression),
        Err(ParserError::UnexpectedToken {
            expected: "Slice".to_string(),
            received: "RightCurlyBracket".to_string(),
            span: (2, 3),
        })
    );
}

#[test]
fn object_keys() {
    let bump = Bump::new();
    let list = tokens(&[
        (TokenKind::Identifier(Identifier::RootReference), "$root"),
        (TokenKind::Identifier(Identifier::Null), "NULL"),
        (TokenKind::Boolean(true), "TRUE"),
        (TokenKind::Boolean(false), "FALSE"),
        (NUMBER, "1.0"),
        (LITERAL, "word"),
        (DOUBLE, "\""),
        (LITERAL, "quoted"),
        (DOUBLE, "\""),
        (OPEN_SQUARE, "["),
        (LITERAL, "name"),
        (CLOSE_SQUARE, "]"),
        (COLON, ":"),
    ]);
    let mut parser = parser(&list, &bump);
    assert_eq!(parser.object_key(&expression), Ok(&Node::String("$root")));
    assert_eq!(parser.object_key(&expression), Ok(&Node::String("null")));
    assert_eq!(parser.object_key(&expression), Ok(&Node::String("true")));
    assert_eq!(parser.object_key(&expression), Ok(&Node::String("false")));
    assert_eq!(parser.object_key(&expression), Ok(&Node::String("1.0")));
    assert_eq!(parser.object_key(&expression), Ok(&Node::String("word")));
    assert_eq!(parser.object_key(&expression), Ok(&Node::String("quoted")));
    assert_eq!(parser.object_key(&expression), Ok(&Node::Identifier("name")));
    assert_eq!(
        parser.object_key(&expression),
        Err(ParserError::FailedToParse {
            message: "Operator is not supported as object key".to_string(),
            span: (12, 13),
        })
    );
}

#[test]
fn template_is_no_object_key() {
    let bump = Bump::new();
    let list = tokens(&[(BACKTICK, "`"), (LITERAL, "a")]);
    let mut parser = parser(&list, &bump);
    assert_eq!(
        parser.object_key(&expression),
        Err(ParserError::FailedToParse {
            message: "TemplateString expression not supported as object key".to_string(),
            span: (0, 1),
        })
    );
    let start = TokenKind::TemplateString(TemplateString::ExpressionStart);
    let list = tokens(&[(start, "${")]);
    let mut parser = Parser::try_new(&list, &bump).unwrap().standard();
    assert_eq!(
        parser.object_key(&expression),
        Err(ParserError::FailedToParse {
            message: "TemplateString expression not supported as object key".to_string(),
            span: (0, 1),
        })
    );
}
