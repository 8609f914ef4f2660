//! Tokens and literal values: the values that every stage shares.
use crate::number::equal;
use crate::number::number_text;
use crate::number::same_number;
use crate::number::to_text;
use vstd::prelude::*;
use vstd::std_specs::cmp::PartialEqSpecImpl;
use vstd::string::StringExecFns;

verus! {

/// The kind of a token.
#[derive(Debug, Clone, Copy, PartialEq, Eq, Structural)]
pub enum TokenTypes {
    // Single-character tokens.
    LeftParen,
    RightParen,
    LeftBrace,
    RightBrace,
    Comma,
    Dot,
    Minus,
    Plus,
    Semicolon,
    Slash,
    Star,
    // One or two character tokens.
    Bang,
    BangEqual,
    Equal,
    EqualEqual,
    Greater,
    GreaterEqual,
    Less,
    LessEqual,
    // Literals.
    Identifier,
    String,
    Number,
    /// The not-a-number literal. No source text scans to it; a token sequence
    /// built by hand may hold it.
    NaN,
    // Keywords.
    And,
    Class,
    Else,
    False,
    Fun,
    For,
    If,
    Nil,
    Or,
    Print,
    Return,
    Super,
    This,
    True,
    Var,
    While,
    /// End of input.
    Eof,
}

/// A value of the language. The absent value, `nil`, is no variant: it is the
/// `None` of an `Option<Literal>`.
#[derive(Debug)]
pub enum Literal {
    /// A text.
    String(String),
    /// A number, by its IEEE 754 binary64 bit pattern.
    Number(u64),
    /// A truth value.
    Boolean(bool),
    /// What zero divided by zero gives: a value of its own, no number.
    NaN,
}

/// What a [`Literal`] stands for.
pub enum LiteralValue {
    Text(Seq<char>),
    Number(u64),
    Boolean(bool),
    NaN,
}

impl View for Literal {
    type V = LiteralValue;

    open spec fn view(&self) -> LiteralValue {
        match self {
            Literal::String(s) => LiteralValue::Text(s@),
            Literal::Number(n) => LiteralValue::Number(*n),
            Literal::Boolean(b) => LiteralValue::Boolean(*b),
            Literal::NaN => LiteralValue::NaN,
        }
    }
}

/// What an optional literal stands for: `None` is the language's `nil`.
pub open spec fn optional_value(literal: Option<Literal>) -> Option<LiteralValue> {
    match literal {
        Some(l) => Some(l@),
        None => None,
    }
}

/// Equality of two values: values of different kinds are never equal, texts
/// are equal character by character, numbers as IEEE 754 has it, and the
/// not-a-number value equals itself.
pub open spec fn same_value(a: LiteralValue, b: LiteralValue) -> bool {
    match (a, b) {
        (LiteralValue::Text(x), LiteralValue::Text(y)) => x == y,
        (LiteralValue::Number(x), LiteralValue::Number(y)) => same_number(x, y),
        (LiteralValue::Boolean(x), LiteralValue::Boolean(y)) => x == y,
        (LiteralValue::NaN, LiteralValue::NaN) => true,
        _ => false,
    }
}

impl PartialEq for Literal {
    fn eq(&self, other: &Self) -> (r: bool) {
        match (self, other) {
            (Literal::String(x), Literal::String(y)) => *x == *y,
            (Literal::Number(x), Literal::Number(y)) => equal(*x, *y),
            (Literal::Boolean(x), Literal::Boolean(y)) => *x == *y,
            (Literal::NaN, Literal::NaN) => true,
            _ => false,
        }
    }
}

impl PartialEqSpecImpl for Literal {
    open spec fn obeys_eq_spec() -> bool {
        true
    }

    open spec fn eq_spec(&self, other: &Self) -> bool {
        same_value(self@, other@)
    }
}

impl Clone for Literal {
    fn clone(&self) -> (r: Self)
        ensures
            r@ == self@,
    {
        match self {
            Literal::String(s) => Literal::String(s.clone()),
            Literal::Number(n) => Literal::Number(*n),
            Literal::Boolean(b) => Literal::Boolean(*b),
            Literal::NaN => Literal::NaN,
        }
    }
}

/// How a value is written: a text as it is, a number in decimal, a truth
/// value as `true` or `false`, the not-a-number value as `NaN`, and the
/// absent value as `nil`.
pub open spec fn value_text(value: Option<LiteralValue>) -> Seq<char> {
    match value {
        Some(LiteralValue::Text(s)) => s,
        Some(LiteralValue::Number(n)) => number_text(n),
        Some(LiteralValue::Boolean(b)) => if b {
            "true"@
        } else {
            "false"@
        },
        Some(LiteralValue::NaN) => "NaN"@,
        None => "nil"@,
    }
}

/// The written form of a value, `nil` for `None`.
pub fn text_of(value: &Option<Literal>) -> (r: String)
    ensures
        r@ == value_text(optional_value(*value)),
{
    match value {
        Some(Literal::String(s)) => s.clone(),
        Some(Literal::Number(n)) => to_text(*n),
        Some(Literal::Boolean(b)) => if *b {
            String::from_str("true")
        } else {
            String::from_str("false")
        },
        Some(Literal::NaN) => String::from_str("NaN"),
        None => String::from_str("nil"),
    }
}

/// A copy of an optional literal.
pub fn clone_optional(literal: &Option<Literal>) -> (r: Option<Literal>)
    ensures
        optional_value(r) == optional_value(*literal),
{
    match literal {
        Some(l) => Some(l.clone()),
        None => None,
    }
}

/// A lexical unit: its kind, the source text it was scanned from, the value of
/// a string or number, and the line it stands on (lines count from 1).
#[derive(Debug, PartialEq)]
pub struct Token {
    pub token_type: TokenTypes,
    pub lexeme: String,
    pub literal: Option<Literal>,
    pub line: u32,
}

/// What a [`Token`] stands for.
pub struct TokenValue {
    pub token_type: TokenTypes,
    pub lexeme: Seq<char>,
    pub literal: Option<LiteralValue>,
    pub line: u32,
}

impl View for Token {
    type V = TokenValue;

    open spec fn view(&self) -> TokenValue {
        TokenValue {
            token_type: self.token_type,
            lexeme: self.lexeme@,
            literal: optional_value(self.literal),
            line: self.line,
        }
    }
}

/// What a sequence of tokens stands for.
pub open spec fn token_values(tokens: Seq<Token>) -> Seq<TokenValue> {
    tokens.map_values(|t: Token| t@)
}

impl Token {
    /// A token of the four parts given.
    pub fn new(token_type: TokenTypes, lexeme: String, literal: Option<Literal>, line: u32) -> (r:
        Self)
        ensures
            r.token_type == token_type,
            r.lexeme == lexeme,
            r.literal == literal,
            r.line == line,
    {
        Self { token_type, lexeme, line, literal }
    }
}

impl Clone for Token {
    fn clone(&self) -> (r: Self)
        ensures
            r@ == self@,
    {
        Token {
            token_type: self.token_type,
            lexeme: self.lexeme.clone(),
            literal: clone_optional(&self.literal),
            line: self.line,
        }
    }
}

} // verus!
