//! Tokens, as the lexer hands them to the parser.
use vstd::prelude::*;

verus! {

/// A half-open range of offsets into the source text.
pub type Span = (u32, u32);

/// A token: what it is, where it stands and the text it was read from.
#[derive(Debug, Clone, Copy, PartialEq, Eq)]
pub struct Token<'arena> {
    pub span: Span,
    pub kind: TokenKind,
    pub value: &'arena str,
}

#[derive(Debug, Clone, Copy, PartialEq, Eq, Structural)]
pub enum TokenKind {
    Identifier(Identifier),
    Boolean(bool),
    Number,
    Literal,
    Operator(Operator),
    Bracket(Bracket),
    QuotationMark(QuotationMark),
    TemplateString(TemplateString),
}

/// Identifiers with a meaning of their own.
#[derive(Debug, Clone, Copy, PartialEq, Eq, Structural)]
pub enum Identifier {
    ContextReference,
    RootReference,
    CallbackReference,
    Null,
}

#[derive(Debug, Clone, Copy, PartialEq, Eq, Structural)]
pub enum Operator {
    Arithmetic(ArithmeticOperator),
    Logical(LogicalOperator),
    Comparison(ComparisonOperator),
    Range,
    Comma,
    Slice,
    Dot,
    QuestionMark,
}

#[derive(Debug, Clone, Copy, PartialEq, Eq, Structural)]
pub enum ArithmeticOperator {
    Add,
    Subtract,
    Multiply,
    Divide,
    Modulus,
    Power,
}

#[derive(Debug, Clone, Copy, PartialEq, Eq, Structural)]
pub enum LogicalOperator {
    And,
    Or,
    Not,
    NullishCoalescing,
}

#[derive(Debug, Clone, Copy, PartialEq, Eq, Structural)]
pub enum ComparisonOperator {
    Equal,
    NotEqual,
    LessThan,
    GreaterThan,
    LessThanOrEqual,
    GreaterThanOrEqual,
    In,
    NotIn,
}

#[derive(Debug, Clone, Copy, PartialEq, Eq, Structural)]
pub enum Bracket {
    LeftParenthesis,
    RightParenthesis,
    LeftSquareBracket,
    RightSquareBracket,
    LeftCurlyBracket,
    RightCurlyBracket,
}

#[derive(Debug, Clone, Copy, PartialEq, Eq, Structural)]
pub enum QuotationMark {
    SingleQuote,
    DoubleQuote,
    Backtick,
}

/// The marks that enclose an expression inside a template string.
#[derive(Debug, Clone, Copy, PartialEq, Eq, Structural)]
pub enum TemplateString {
    ExpressionStart,
    ExpressionEnd,
}

impl Identifier {
    /// The text that the identifier is written as.
    pub open spec fn text(self) -> &'static str {
        match self {
            Identifier::ContextReference => "$",
            Identifier::RootReference => "$root",
            Identifier::CallbackReference => "#",
            Identifier::Null => "null",
        }
    }

    /// Returns the text that the identifier is written as.
    pub fn as_str(&self) -> (text: &'static str)
        ensures
            text == self.text(),
    {
        match self {
            Identifier::ContextReference => "$",
            Identifier::RootReference => "$root",
            Identifier::CallbackReference => "#",
            Identifier::Null => "null",
        }
    }

    /// The name of the identifier in messages.
    pub open spec fn name(self) -> Seq<char> {
        match self {
            Identifier::ContextReference => "ContextReference"@,
            Identifier::RootReference => "RootReference"@,
            Identifier::CallbackReference => "CallbackReference"@,
            Identifier::Null => "Null"@,
        }
    }

    fn label(&self) -> (label: &'static str)
        ensures
            label@ == self.name(),
    {
        match self {
            Identifier::ContextReference => "ContextReference",
            Identifier::RootReference => "RootReference",
            Identifier::CallbackReference => "CallbackReference",
            Identifier::Null => "Null",
        }
    }
}

impl ArithmeticOperator {
    /// The name of the operator in messages.
    pub open spec fn name(self) -> Seq<char> {
        match self {
            ArithmeticOperator::Add => "Add"@,
            ArithmeticOperator::Subtract => "Subtract"@,
            ArithmeticOperator::Multiply => "Multiply"@,
            ArithmeticOperator::Divide => "Divide"@,
            ArithmeticOperator::Modulus => "Modulus"@,
            ArithmeticOperator::Power => "Power"@,
        }
    }

    fn label(&self) -> (label: &'static str)
        ensures
            label@ == self.name(),
    {
        match self {
            ArithmeticOperator::Add => "Add",
            ArithmeticOperator::Subtract => "Subtract",
            ArithmeticOperator::Multiply => "Multiply",
            ArithmeticOperator::Divide => "Divide",
            ArithmeticOperator::Modulus => "Modulus",
            ArithmeticOperator::Power => "Power",
        }
    }
}

impl LogicalOperator {
    /// The name of the operator in messages.
    pub open spec fn name(self) -> Seq<char> {
        match self {
            LogicalOperator::And => "And"@,
            LogicalOperator::Or => "Or"@,
            LogicalOperator::Not => "Not"@,
            LogicalOperator::NullishCoalescing => "NullishCoalescing"@,
        }
    }

    fn label(&self) -> (label: &'static str)
        ensures
            label@ == self.name(),
    {
        match self {
            LogicalOperator::And => "And",
            LogicalOperator::Or => "Or",
            LogicalOperator::Not => "Not",
            LogicalOperator::NullishCoalescing => "NullishCoalescing",
        }
    }
}

impl ComparisonOperator {
    /// The name of the operator in messages.
    pub open spec fn name(self) -> Seq<char> {
        match self {
            ComparisonOperator::Equal => "Equal"@,
            ComparisonOperator::NotEqual => "NotEqual"@,
            ComparisonOperator::LessThan => "LessThan"@,
            ComparisonOperator::GreaterThan => "GreaterThan"@,
            ComparisonOperator::LessThanOrEqual => "LessThanOrEqual"@,
            ComparisonOperator::GreaterThanOrEqual => "GreaterThanOrEqual"@,
            ComparisonOperator::In => "In"@,
            ComparisonOperator::NotIn => "NotIn"@,
        }
    }

    fn label(&self) -> (label: &'static str)
        ensures
            label@ == self.name(),
    {
        match self {
            ComparisonOperator::Equal => "Equal",
            ComparisonOperator::NotEqual => "NotEqual",
            ComparisonOperator::LessThan => "LessThan",
            ComparisonOperator::GreaterThan => "GreaterThan",
            ComparisonOperator::LessThanOrEqual => "LessThanOrEqual",
            ComparisonOperator::GreaterThanOrEqual => "GreaterThanOrEqual",
            ComparisonOperator::In => "In",
            ComparisonOperator::NotIn => "NotIn",
        }
    }
}

impl Operator {
    /// The name of the operator in messages.
    pub open spec fn name(self) -> Seq<char> {
        match self {
            Operator::Arithmetic(operator) => operator.name(),
            Operator::Logical(operator) => operator.name(),
            Operator::Comparison(operator) => operator.name(),
            Operator::Range => "Range"@,
            Operator::Comma => "Comma"@,
            Operator::Slice => "Slice"@,
            Operator::Dot => "Dot"@,
            Operator::QuestionMark => "QuestionMark"@,
        }
    }

    fn label(&self) -> (label: &'static str)
        ensures
            label@ == self.name(),
    {
        match self {
            Operator::Arithmetic(operator) => operator.label(),
            Operator::Logical(operator) => operator.label(),
            Operator::Comparison(operator) => operator.label(),
            Operator::Range => "Range",
            Operator::Comma => "Comma",
            Operator::Slice => "Slice",
            Operator::Dot => "Dot",
            Operator::QuestionMark => "QuestionMark",
        }
    }
}

impl Bracket {
    /// The name of the bracket in messages.
    pub open spec fn name(self) -> Seq<char> {
        match self {
            Bracket::LeftParenthesis => "LeftParenthesis"@,
            Bracket::RightParenthesis => "RightParenthesis"@,
            Bracket::LeftSquareBracket => "LeftSquareBracket"@,
            Bracket::RightSquareBracket => "RightSquareBracket"@,
            Bracket::LeftCurlyBracket => "LeftCurlyBracket"@,
            Bracket::RightCurlyBracket => "RightCurlyBracket"@,
        }
    }

    fn label(&self) -> (label: &'static str)
        ensures
            label@ == self.name(),
    {
        match self {
            Bracket::LeftParenthesis => "LeftParenthesis",
            Bracket::RightParenthesis => "RightParenthesis",
            Bracket::LeftSquareBracket => "LeftSquareBracket",
            Bracket::RightSquareBracket => "RightSquareBracket",
            Bracket::LeftCurlyBracket => "LeftCurlyBracket",
            Bracket::RightCurlyBracket => "RightCurlyBracket",
        }
    }
}

impl QuotationMark {
    /// The name of the quotation mark in messages.
    pub open spec fn name(self) -> Seq<char> {
        match self {
            QuotationMark::SingleQuote => "SingleQuote"@,
            QuotationMark::DoubleQuote => "DoubleQuote"@,
            QuotationMark::Backtick => "Backtick"@,
        }
    }

    fn label(&self) -> (label: &'static str)
        ensures
            label@ == self.name(),
    {
        match self {
            QuotationMark::SingleQuote => "SingleQuote",
            QuotationMark::DoubleQuote => "DoubleQuote",
            QuotationMark::Backtick => "Backtick",
        }
    }
}

impl TemplateString {
    /// The name of the mark in messages.
    pub open spec fn name(self) -> Seq<char> {
        match self {
            TemplateString::ExpressionStart => "ExpressionStart"@,
            TemplateString::ExpressionEnd => "ExpressionEnd"@,
        }
    }

    fn label(&self) -> (label: &'static str)
        ensures
            label@ == self.name(),
    {
        match self {
            TemplateString::ExpressionStart => "ExpressionStart",
            TemplateString::ExpressionEnd => "ExpressionEnd",
        }
    }
}

impl TokenKind {
    /// The name of the kind in messages.
    pub open spec fn name(self) -> Seq<char> {
        match self {
            TokenKind::Identifier(identifier) => identifier.name(),
            TokenKind::Boolean(_) => "Boolean"@,
            TokenKind::Number => "Number"@,
            TokenKind::Literal => "Literal"@,
            TokenKind::Operator(operator) => operator.name(),
            TokenKind::Bracket(bracket) => bracket.name(),
            TokenKind::QuotationMark(quotation_mark) => quotation_mark.name(),
            TokenKind::TemplateString(template) => template.name(),
        }
    }

    fn label(&self) -> (label: &'static str)
        ensures
            label@ == self.name(),
    {
        match self {
            TokenKind::Identifier(identifier) => identifier.label(),
            TokenKind::Boolean(_) => "Boolean",
            TokenKind::Number => "Number",
            TokenKind::Literal => "Literal",
            TokenKind::Operator(operator) => operator.label(),
            TokenKind::Bracket(bracket) => bracket.label(),
            TokenKind::QuotationMark(quotation_mark) => quotation_mark.label(),
            TokenKind::TemplateString(template) => template.label(),
        }
    }

    /// Returns the name of the kind in messages.
    pub fn to_string(&self) -> (text: String)
        ensures
            text@ == self.name(),
    {
        self.label().to_string()
    }
}

} // verus!
