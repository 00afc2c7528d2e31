use bumpalo::Bump;
use zen_parser::ast::{Node, NodeRef};
use zen_parser::builtin::BuiltInFunction;
use zen_parser::error::{ParserError, ParserResult};
use zen_parser::parser::{Parser, Standard};
use zen_parser::token::{Bracket, Identifier, Operator, Token, TokenKind};

const NUMBER: TokenKind = TokenKind::Number;
const LITERAL: TokenKind = TokenKind::Literal;
const DOT: TokenKind = TokenKind::Operator(Operator::Dot);
const COMMA: TokenKind = TokenKind::Operator(Operator::Comma);
const OPEN: TokenKind = TokenKind::Bracket(Bracket::LeftParenthesis);
const CLOSE: TokenKind = TokenKind::Bracket(Bracket::RightParenthesis);

fn token<'a>(index: u32, kind: TokenKind, value: &'a str) -> Token<'a> {
    Token { span: (index, index + 1), kind, value }
}

/// Tokens from kinds and texts; the span of a token is its index.
fn tokens<'a>(parts: &[(TokenKind, &'a str)]) -> Vec<Token<'a>> {
    let mut list = Vec::new();
    for (index, (kind, value)) in parts.iter().enumerate() {
        list.push(token(index as u32, *kind, value));
    }
    list
}

/// A parser of expressions that knows nothing but literals.
fn expression<'a, 't>(
    parser: Parser<'a, 't, Standard>,
) -> (ParserResult<NodeRef<'a>>, Parser<'a, 't, Standard>) {
    let mut parser = parser;
    let result = parser.literal(&expression);
    (result, parser)
}

fn parser<'a, 't>(list: &'t [Token<'a>], bump: &'a Bump) -> Parser<'a, 't, Standard> {
    Parser::try_new(list, bump).unwrap().standard()
}

/// Reads an identifier, the name of which is the depth at which it stands.
fn depth_probe<'a, 't>(
    parser: Parser<'a, 't, Standard>,
) -> (ParserResult<NodeRef<'a>>, Parser<'a, 't, Standard>) {
    let mut parser = parser;
    let name = match parser.depth() {
        0 => "outside",
        1 => "inside",
        _ => "deep",
    };
    match parser.next() {
        Ok(()) => (Ok(parser.node(Node::Identifier(name))), parser),
        Err(error) => (Err(error), parser),
    }
}

#[test]
fn closure_is_one_deeper() {
    let bump = Bump::new();
    let list = tokens(&[(LITERAL, "x"), (COMMA, ",")]);
    let mut parser = parser(&list, &bump);
    let body = Node::Identifier("inside");
    assert_eq!(parser.closure(&depth_probe), Ok(&Node::Closure(&body)));
    assert_eq!(parser.depth(), 0);
}

#[test]
fn failed_closure_stays_inside() {
    let bump = Bump::new();
    let list = tokens(&[(COMMA, ","), (LITERAL, "x")]);
    let mut parser = parser(&list, &bump);
    assert!(parser.closure(&expression).is_err());
    assert_eq!(parser.depth(), 1);
}

#[test]
fn identifier_alone() {
    let bump = Bump::new();
    let list = tokens(&[
        (LITERAL, "total"),
        (TokenKind::Identifier(Identifier::RootReference), "$root"),
        (TokenKind::Identifier(Identifier::CallbackReference), "#"),
        (NUMBER, "1"),
    ]);
    let mut parser = parser(&list, &bump);
    assert_eq!(parser.identifier(&expression), Ok(Some(&Node::Identifier("total"))));
    assert_eq!(parser.identifier(&expression), Ok(Some(&Node::Root)));
    assert_eq!(parser.identifier(&expression), Ok(Some(&Node::Identifier("#"))));
    assert_eq!(parser.identifier(&expression), Ok(None));
    assert_eq!(parser.position(), 3);
}

#[test]
fn call_with_one_argument() {
    let bump = Bump::new();
    let list = tokens(&[(LITERAL, "len"), (OPEN, "("), (LITERAL, "x"), (CLOSE, ")")]);
    let mut parser = parser(&list, &bump);
    let arguments = [&Node::Identifier("x")];
    assert_eq!(
        parser.identifier(&expression),
        Ok(Some(&Node::BuiltIn { kind: BuiltInFunction::Len, arguments: &arguments }))
    );
    assert!(parser.is_done());
}

#[test]
fn call_with_two_arguments() {
    let bump = Bump::new();
    let list = tokens(&[
        (LITERAL, "contains"),
        (OPEN, "("),
        (LITERAL, "x"),
        (COMMA, ","),
        (LITERAL, "y"),
        (CLOSE, ")"),
    ]);
    let mut parser = parser(&list, &bump);
    let arguments = [&Node::Identifier("outside"), &Node::Identifier("outside")];
    assert_eq!(
        parser.identifier(&depth_probe),
        Ok(Some(&Node::BuiltIn { kind: BuiltInFunction::Contains, arguments: &arguments }))
    );
}

#[test]
fn call_with_a_closure() {
    let bump = Bump::new();
    let list = tokens(&[
        (LITERAL, "map"),
        (OPEN, "("),
        (LITERAL, "x"),
        (COMMA, ","),
        (LITERAL, "y"),
        (CLOSE, ")"),
        (DOT, "."),
        (LITERAL, "z"),
    ]);
    let mut parser = parser(&list, &bump);
    let body = Node::Identifier("inside");
    let arguments = [&Node::Identifier("outside"), &Node::Closure(&body)];
    let call = Node::BuiltIn { kind: BuiltInFunction::MapEach, arguments: &arguments };
    let property = Node::String("z");
    assert_eq!(
        parser.identifier(&depth_probe),
        Ok(Some(&Node::Member { node: &call, property: &property }))
    );
    assert_eq!(parser.depth(), 0);
}

#[test]
fn nested_closures_are_counted() {
    let bump = Bump::new();
    // filter(a, map(b, c))
    let list = tokens(&[
        (LITERAL, "filter"),
        (OPEN, "("),
        (LITERAL, "a"),
        (COMMA, ","),
        (LITERAL, "map"),
        (OPEN, "("),
        (LITERAL, "b"),
        (COMMA, ","),
        (LITERAL, "c"),
        (CLOSE, ")"),
        (CLOSE, ")"),
    ]);
    let mut parser = parser(&list, &bump);
    let c = Node::Identifier("c");
    let inner = [&Node::Identifier("b"), &Node::Closure(&c)];
    let map = Node::BuiltIn { kind: BuiltInFunction::MapEach, arguments: &inner };
    let outer = [&Node::Identifier("a"), &Node::Closure(&map)];
    assert_eq!(
        parser.literal(&expression),
        Ok(&Node::BuiltIn { kind: BuiltInFunction::Filter, arguments: &outer })
    );
    assert_eq!(parser.depth(), 0);
}

#[test]
fn unknown_function_is_reported() {
    let bump = Bump::new();
    let list = tokens(&[(LITERAL, "length"), (OPEN, "("), (LITERAL, "x"), (CLOSE, ")")]);
    let mut parser = parser(&list, &bump);
    assert_eq!(
        parser.identifier(&expression),
        Err(ParserError::UnknownBuiltIn { name: "length".to_string(), span: (0, 1) })
    );
    assert_eq!(parser.position(), 1);
}

#[test]
fn missing_argument_is_reported() {
    let bump = Bump::new();
    let list = tokens(&[(LITERAL, "contains"), (OPEN, "("), (LITERAL, "x"), (CLOSE, ")")]);
    let mut parser = parser(&list, &bump);
    assert_eq!(
        parser.identifier(&expression),
        Err(ParserError::UnexpectedToken {
            expected: "Comma".to_string(),
            received: "RightParenthesis".to_string(),
            span: (3, 4),
        })
    );
}
