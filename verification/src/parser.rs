//! The parser: tokens in, statements out, by recursive descent.
//!
//! The grammar, from the loosest binding rule to the tightest:
//!
//! ```text
//! program      → declaration* EOF
//! declaration  → varDecl | statement
//! varDecl      → "var" IDENTIFIER ( "=" expression )? ";"
//! statement    → exprStmt | printStmt | block
//! block        → "{" declaration* "}"
//! exprStmt     → expression ";"
//! printStmt    → "print" expression ";"
//! expression   → assignment
//! assignment   → IDENTIFIER "=" assignment | equality
//! equality     → comparison ( ( "!=" | "==" ) comparison )*
//! comparison   → term ( ( ">" | ">=" | "<" | "<=" ) term )*
//! term         → factor ( ( "-" | "+" ) factor )*
//! factor       → unary ( ( "/" | "*" ) unary )*
//! unary        → ( "!" | "-" ) unary | primary
//! primary      → NUMBER | STRING | IDENTIFIER | "true" | "false" | "nil" | "NaN"
//!              | "(" expression ")"
//! ```
//!
//! Each rule is a spec function of the same name, from a token sequence and a
//! place in it to what the rule gives there: a tree and the number of tokens
//! it took, or the failure and the place at which parsing stopped. The
//! methods of [`Parser`] compute them.
use crate::ast::stmt_values;
use crate::ast::Assign;
use crate::ast::Binary;
use crate::ast::Block;
use crate::ast::Expr;
use crate::ast::ExprValue;
use crate::ast::Expression;
use crate::ast::Grouping;
use crate::ast::Literal;
use crate::ast::Print;
use crate::ast::Stmt;
use crate::ast::StmtValue;
use crate::ast::Unary;
use crate::ast::Var;
use crate::ast::Variable;
use crate::errors::Error;
use crate::errors::ErrorValue;
use crate::errors::Failure;
use crate::errors::JBreadErrors;
use crate::errors::JBreadResult;
use crate::token::clone_optional;
use crate::token::token_values;
use crate::token::Literal as LiteralEnum;
use crate::token::LiteralValue;
use crate::token::Token;
use crate::token::TokenTypes;
use crate::token::TokenValue;
use vstd::prelude::*;
use vstd::string::StringExecFns;

verus! {

/// What a grammar rule gives at a place in a token sequence.
pub enum Parsed<T> {
    /// The rule matched: its tree, and the number of tokens it took.
    Done { value: T, used: nat },
    /// The rule did not match: the failure, and the place at which parsing stopped.
    Failed { error: Failure, at: nat },
}

impl<T> Parsed<T> {
    /// The same result for a rule that took `n` tokens before this one began.
    pub open spec fn after(self, n: nat) -> Parsed<T> {
        match self {
            Parsed::Done { value, used } => Parsed::Done { value, used: used + n },
            Parsed::Failed { error, at } => Parsed::Failed { error, at },
        }
    }
}

/// The number of tokens from `p` to the end of the sequence.
pub open spec fn remaining(ts: Seq<TokenValue>, p: nat) -> nat {
    if p < ts.len() {
        (ts.len() - p) as nat
    } else {
        0
    }
}

/// The kind of the token at `p`; end of input where the sequence has ended.
pub open spec fn kind_at(ts: Seq<TokenValue>, p: nat) -> TokenTypes {
    if p < ts.len() {
        ts[p as int].token_type
    } else {
        TokenTypes::Eof
    }
}

/// The parser stands at the end: at the end-of-input token, or behind the last token.
pub open spec fn at_end(ts: Seq<TokenValue>, p: nat) -> bool {
    kind_at(ts, p) == TokenTypes::Eof
}

/// The token at `p` is of the kind `kind`, and the parser is not at the end.
pub open spec fn is_at(ts: Seq<TokenValue>, p: nat, kind: TokenTypes) -> bool {
    !at_end(ts, p) && kind_at(ts, p) == kind
}

/// The token at `p`. Behind the last token it is an end-of-input token
/// on the line of the last token (line 1 where there is no token at all).
pub open spec fn token_at(ts: Seq<TokenValue>, p: nat) -> TokenValue {
    if p < ts.len() {
        ts[p as int]
    } else {
        TokenValue {
            token_type: TokenTypes::Eof,
            lexeme: Seq::empty(),
            literal: None,
            line: if ts.len() > 0 {
                ts.last().line
            } else {
                1
            },
        }
    }
}

/// The failure of a rule at `token`: its line, its lexeme, and what was expected.
pub open spec fn parse_error(token: TokenValue, message: Seq<char>) -> Failure {
    Failure::ParseError(ErrorValue { line: token.line, place: token.lexeme, message })
}

/// `primary → NUMBER | STRING | IDENTIFIER | "true" | "false" | "nil" | "NaN" | "(" expression ")"`.
/// Where no alternative matches, the failure names the token before the
/// place (the token at the place where there is none before).
pub open spec fn primary(ts: Seq<TokenValue>, p: nat) -> Parsed<ExprValue>
    decreases remaining(ts, p), 0nat,
{
    if is_at(ts, p, TokenTypes::False) {
        Parsed::Done {
            value: ExprValue::Literal { value: Some(LiteralValue::Boolean(false)) },
            used: 1,
        }
    } else if is_at(ts, p, TokenTypes::True) {
        Parsed::Done { value: ExprValue::Literal { value: Some(LiteralValue::Boolean(true)) }, used: 1 }
    } else if is_at(ts, p, TokenTypes::Nil) {
        Parsed::Done { value: ExprValue::Literal { value: None }, used: 1 }
    } else if is_at(ts, p, TokenTypes::NaN) {
        Parsed::Done { value: ExprValue::Literal { value: Some(LiteralValue::NaN) }, used: 1 }
    } else if is_at(ts, p, TokenTypes::String) || is_at(ts, p, TokenTypes::Number) {
        Parsed::Done { value: ExprValue::Literal { value: ts[p as int].literal }, used: 1 }
    } else if is_at(ts, p, TokenTypes::Identifier) {
        Parsed::Done { value: ExprValue::Variable { name: ts[p as int] }, used: 1 }
    } else if is_at(ts, p, TokenTypes::LeftParen) {
        match expression(ts, p + 1) {
            Parsed::Done { value, used } => {
                if is_at(ts, p + 1 + used, TokenTypes::RightParen) {
                    Parsed::Done {
                        value: ExprValue::Grouping { expression: Box::new(value) },
                        used: used + 2,
                    }
                } else {
                    Parsed::Failed {
                        error: parse_error(
                            token_at(ts, p + 1 + used),
                            "Expect ')' after expression."@,
                        ),
                        at: p + 1 + used,
                    }
                }
            },
            Parsed::Failed { error, at } => Parsed::Failed { error, at },
        }
    } else {
        Parsed::Failed {
            error: parse_error(
                if p > 0 {
                    token_at(ts, (p - 1) as nat)
                } else {
                    token_at(ts, p)
                },
                "Expected Expression"@,
            ),
            at: p,
        }
    }
}

/// `unary → ( "!" | "-" ) unary | primary`.
pub open spec fn unary(ts: Seq<TokenValue>, p: nat) -> Parsed<ExprValue>
    decreases remaining(ts, p), 1nat,
{
    if is_at(ts, p, TokenTypes::Bang) || is_at(ts, p, TokenTypes::Minus) {
        match unary(ts, p + 1) {
            Parsed::Done { value, used } => Parsed::Done {
                value: ExprValue::Unary { operator: ts[p as int], right: Box::new(value) },
                used: used + 1,
            },
            Parsed::Failed { error, at } => Parsed::Failed { error, at },
        }
    } else {
        primary(ts, p)
    }
}

/// The binary operators of each level of precedence, the tightest first:
/// level 1 is `factor`, 2 is `term`, 3 is `comparison`, 4 is `equality`.
pub open spec fn is_operator(level: nat, kind: TokenTypes) -> bool {
    if level == 1 {
        kind == TokenTypes::Slash || kind == TokenTypes::Star
    } else if level == 2 {
        kind == TokenTypes::Minus || kind == TokenTypes::Plus
    } else if level == 3 {
        kind == TokenTypes::Greater || kind == TokenTypes::GreaterEqual || kind == TokenTypes::Less
            || kind == TokenTypes::LessEqual
    } else if level == 4 {
        kind == TokenTypes::BangEqual || kind == TokenTypes::EqualEqual
    } else {
        false
    }
}

/// An operand of a binary rule: the rule of the next tighter level.
pub open spec fn operand(ts: Seq<TokenValue>, p: nat, level: nat) -> Parsed<ExprValue>
    decreases remaining(ts, p), 3 * level + 2,
{
    if level <= 1 {
        unary(ts, p)
    } else {
        binary(ts, p, (level - 1) as nat)
    }
}

/// A binary rule: `operand ( operator operand )*`, with the operators of `level`.
/// The operators associate to the left.
pub open spec fn binary(ts: Seq<TokenValue>, p: nat, level: nat) -> Parsed<ExprValue>
    decreases remaining(ts, p), 3 * level + 4,
{
    if level == 0 {
        unary(ts, p)
    } else {
        match operand(ts, p, level) {
            Parsed::Done { value, used } => binary_rest(ts, p + used, level, value).after(used),
            Parsed::Failed { error, at } => Parsed::Failed { error, at },
        }
    }
}

/// The rest of a binary rule behind the operand `left`: `( operator operand )*`.
pub open spec fn binary_rest(ts: Seq<TokenValue>, p: nat, level: nat, left: ExprValue) -> Parsed<
    ExprValue,
>
    decreases remaining(ts, p), 3 * level + 3,
{
    if !at_end(ts, p) && is_operator(level, kind_at(ts, p)) {
        match operand(ts, p + 1, level) {
            Parsed::Done { value, used } => binary_rest(
                ts,
                p + 1 + used,
                level,
                ExprValue::Binary {
                    left: Box::new(left),
                    operator: ts[p as int],
                    right: Box::new(value),
                },
            ).after(1 + used),
            Parsed::Failed { error, at } => Parsed::Failed { error, at },
        }
    } else {
        Parsed::Done { value: left, used: 0 }
    }
}

/// `factor → unary ( ( "/" | "*" ) unary )*`.
pub open spec fn factor(ts: Seq<TokenValue>, p: nat) -> Parsed<ExprValue> {
    binary(ts, p, 1)
}

/// `term → factor ( ( "-" | "+" ) factor )*`.
pub open spec fn term(ts: Seq<TokenValue>, p: nat) -> Parsed<ExprValue> {
    binary(ts, p, 2)
}

/// `comparison → term ( ( ">" | ">=" | "<" | "<=" ) term )*`.
pub open spec fn comparison(ts: Seq<TokenValue>, p: nat) -> Parsed<ExprValue> {
    binary(ts, p, 3)
}

/// `equality → comparison ( ( "!=" | "==" ) comparison )*`.
pub open spec fn equality(ts: Seq<TokenValue>, p: nat) -> Parsed<ExprValue> {
    binary(ts, p, 4)
}

/// `assignment → IDENTIFIER "=" assignment | equality`. The left side is
/// parsed as an equality; where `=` follows, it must be a variable, and the
/// failure names the `=`.
pub open spec fn assignment(ts: Seq<TokenValue>, p: nat) -> Parsed<ExprValue>
    decreases remaining(ts, p), 17nat,
{
    match binary(ts, p, 4) {
        Parsed::Done { value: target, used } => {
            if is_at(ts, p + used, TokenTypes::Equal) {
                match assignment(ts, p + used + 1) {
                    Parsed::Done { value, used: more } => match target {
                        ExprValue::Variable { name } => Parsed::Done {
                            value: ExprValue::Assign { name, value: Box::new(value) },
                            used: used + 1 + more,
                        },
                        _ => Parsed::Failed {
                            error: parse_error(ts[(p + used) as int], "Invalid assignment target"@),
                            at: p + used + 1 + more,
                        },
                    },
                    Parsed::Failed { error, at } => Parsed::Failed { error, at },
                }
            } else {
                Parsed::Done { value: target, used }
            }
        },
        Parsed::Failed { error, at } => Parsed::Failed { error, at },
    }
}

/// `expression → assignment`.
pub open spec fn expression(ts: Seq<TokenValue>, p: nat) -> Parsed<ExprValue>
    decreases remaining(ts, p), 18nat,
{
    assignment(ts, p)
}

/// What a statement gives that ends in a token of the kind `kind` at `p`,
/// `used` tokens after it began.
pub open spec fn closed_by(
    ts: Seq<TokenValue>,
    p: nat,
    kind: TokenTypes,
    message: Seq<char>,
    value: StmtValue,
    used: nat,
) -> Parsed<StmtValue> {
    if is_at(ts, p, kind) {
        Parsed::Done { value, used: used + 1 }
    } else {
        Parsed::Failed { error: parse_error(token_at(ts, p), message), at: p }
    }
}

/// `exprStmt → expression ";"`.
pub open spec fn expression_statement(ts: Seq<TokenValue>, p: nat) -> Parsed<StmtValue>
    decreases remaining(ts, p), 19nat,
{
    match expression(ts, p) {
        Parsed::Done { value, used } => closed_by(
            ts,
            p + used,
            TokenTypes::Semicolon,
            "Expect ';' after expression."@,
            StmtValue::Expression { expression: value },
            used,
        ),
        Parsed::Failed { error, at } => Parsed::Failed { error, at },
    }
}

/// `printStmt → "print" expression ";"`, behind the `print`.
pub open spec fn print_statement(ts: Seq<TokenValue>, p: nat) -> Parsed<StmtValue>
    decreases remaining(ts, p), 19nat,
{
    match expression(ts, p) {
        Parsed::Done { value, used } => closed_by(
            ts,
            p + used,
            TokenTypes::Semicolon,
            "Expect ';' after value."@,
            StmtValue::Print { expression: value },
            used,
        ),
        Parsed::Failed { error, at } => Parsed::Failed { error, at },
    }
}

/// `varDecl → "var" IDENTIFIER ( "=" expression )? ";"`, behind the `var`.
pub open spec fn var_declaration(ts: Seq<TokenValue>, p: nat) -> Parsed<StmtValue>
    decreases remaining(ts, p), 19nat,
{
    if !is_at(ts, p, TokenTypes::Identifier) {
        Parsed::Failed { error: parse_error(token_at(ts, p), "Expected a variable name"@), at: p }
    } else if is_at(ts, p + 1, TokenTypes::Equal) {
        match expression(ts, p + 2) {
            Parsed::Done { value, used } => closed_by(
                ts,
                p + 2 + used,
                TokenTypes::Semicolon,
                "Expected ';' after variable declaration"@,
                StmtValue::Var { name: ts[p as int], initializer: Some(value) },
                2 + used,
            ),
            Parsed::Failed { error, at } => Parsed::Failed { error, at },
        }
    } else {
        closed_by(
            ts,
            p + 1,
            TokenTypes::Semicolon,
            "Expected ';' after variable declaration"@,
            StmtValue::Var { name: ts[p as int], initializer: None },
            1,
        )
    }
}

/// `declaration → varDecl | statement`, `statement → exprStmt | printStmt | block`.
pub open spec fn statement(ts: Seq<TokenValue>, p: nat) -> Parsed<StmtValue>
    decreases remaining(ts, p), 20nat,
{
    if is_at(ts, p, TokenTypes::Var) {
        var_declaration(ts, p + 1).after(1)
    } else if is_at(ts, p, TokenTypes::Print) {
        print_statement(ts, p + 1).after(1)
    } else if is_at(ts, p, TokenTypes::LeftBrace) {
        block_statement(ts, p + 1).after(1)
    } else {
        expression_statement(ts, p)
    }
}

/// A sequence of results with `first` in front of it.
pub open spec fn preceded(first: Seq<StmtValue>, rest: Parsed<Seq<StmtValue>>) -> Parsed<
    Seq<StmtValue>,
> {
    match rest {
        Parsed::Done { value, used } => Parsed::Done { value: first + value, used },
        Parsed::Failed { error, at } => Parsed::Failed { error, at },
    }
}

/// `declaration*` inside a block: declarations up to a `}` or the end of input.
/// (Every declaration takes a token or more; were there one that took none,
/// the sequence would end with it.)
pub open spec fn block_items(ts: Seq<TokenValue>, p: nat) -> Parsed<Seq<StmtValue>>
    decreases remaining(ts, p), 21nat,
{
    if is_at(ts, p, TokenTypes::RightBrace) || at_end(ts, p) {
        Parsed::Done { value: Seq::empty(), used: 0 }
    } else {
        match statement(ts, p) {
            Parsed::Done { value, used } => {
                if used > 0 {
                    preceded(seq![value], block_items(ts, p + used).after(used))
                } else {
                    Parsed::Done { value: seq![value], used }
                }
            },
            Parsed::Failed { error, at } => Parsed::Failed { error, at },
        }
    }
}

/// `block → "{" declaration* "}"`, behind the `{`.
pub open spec fn block_statement(ts: Seq<TokenValue>, p: nat) -> Parsed<StmtValue>
    decreases remaining(ts, p), 22nat,
{
    match block_items(ts, p) {
        Parsed::Done { value, used } => closed_by(
            ts,
            p + used,
            TokenTypes::RightBrace,
            "Expect '}' after block."@,
            StmtValue::Block { statements: value },
            used,
        ),
        Parsed::Failed { error, at } => Parsed::Failed { error, at },
    }
}

/// `program → declaration* EOF`: declarations up to the end of input.
pub open spec fn program(ts: Seq<TokenValue>, p: nat) -> Parsed<Seq<StmtValue>>
    decreases remaining(ts, p), 21nat,
{
    if at_end(ts, p) {
        Parsed::Done { value: Seq::empty(), used: 0 }
    } else {
        match statement(ts, p) {
            Parsed::Done { value, used } => {
                if used > 0 {
                    preceded(seq![value], program(ts, p + used).after(used))
                } else {
                    Parsed::Done { value: seq![value], used }
                }
            },
            Parsed::Failed { error, at } => Parsed::Failed { error, at },
        }
    }
}

/// The token at `p` is of one of the kinds `kinds`, and the parser is not at the end.
pub open spec fn is_any(ts: Seq<TokenValue>, p: nat, kinds: Seq<TokenTypes>) -> bool {
    !at_end(ts, p) && kinds.contains(kind_at(ts, p))
}

/// The parser: a token sequence and a place in it.
pub struct Parser<'a> {
    tokens: &'a Vec<Token>,
    current: usize,
}

/// What a method that parses an expression does: it returns what the rule
/// gives, and leaves the parser behind the tokens taken, or where parsing stopped.
pub open spec fn parses_expr(
    before: Parser,
    after: Parser,
    result: JBreadResult<Expr>,
    rule: Parsed<ExprValue>,
) -> bool {
    &&& after.well_formed()
    &&& after.tokens() == before.tokens()
    &&& match rule {
        Parsed::Done { value, used } => {
            &&& result matches Ok(e)
            &&& e@ == value
            &&& after.position() == before.position() + used
        },
        Parsed::Failed { error, at } => {
            &&& result matches Err(e)
            &&& e@ == error
            &&& after.position() == at
        },
    }
}

/// What a method that parses a statement does.
pub open spec fn parses_stmt(
    before: Parser,
    after: Parser,
    result: JBreadResult<Stmt>,
    rule: Parsed<StmtValue>,
) -> bool {
    &&& after.well_formed()
    &&& after.tokens() == before.tokens()
    &&& match rule {
        Parsed::Done { value, used } => {
            &&& result matches Ok(s)
            &&& s@ == value
            &&& after.position() == before.position() + used
        },
        Parsed::Failed { error, at } => {
            &&& result matches Err(e)
            &&& e@ == error
            &&& after.position() == at
        },
    }
}

/// What a method that parses a sequence of statements does.
pub open spec fn parses_stmts(
    before: Parser,
    after: Parser,
    result: JBreadResult<Vec<Stmt>>,
    rule: Parsed<Seq<StmtValue>>,
) -> bool {
    &&& after.well_formed()
    &&& after.tokens() == before.tokens()
    &&& match rule {
        Parsed::Done { value, used } => {
            &&& result matches Ok(s)
            &&& stmt_values(s@) == value
            &&& after.position() == before.position() + used
        },
        Parsed::Failed { error, at } => {
            &&& result matches Err(e)
            &&& e@ == error
            &&& after.position() == at
        },
    }
}

impl<'a> Parser<'a> {
    /// The tokens that the parser reads.
    pub closed spec fn tokens(&self) -> Seq<TokenValue> {
        token_values(self.tokens@)
    }

    /// The number of tokens that the parser has taken.
    pub closed spec fn position(&self) -> nat {
        self.current as nat
    }

    /// The parser stands in its token sequence or right behind it.
    pub closed spec fn well_formed(&self) -> bool {
        self.current <= self.tokens@.len()
    }

    /// A parser in front of the first of `tokens`.
    pub fn new(tokens: &'a Vec<Token>) -> (r: Self)
        ensures
            r.well_formed(),
            r.tokens() == token_values(tokens@),
            r.position() == 0,
    {
        Self { tokens, current: 0 }
    }

    /// Takes the next token if it is of one of the kinds given.
    fn match_token(&mut self, token_types: &[TokenTypes]) -> (r: bool)
        requires
            old(self).well_formed(),
        ensures
            final(self).well_formed(),
            final(self).tokens == old(self).tokens,
            r == is_any(old(self).tokens(), old(self).position(), token_types@),
            final(self).current == old(self).current + if r {
                1int
            } else {
                0int
            },
    {
        let mut i: usize = 0;
        while i < token_types.len()
            invariant
                *self == *old(self),
                self.well_formed(),
                i <= token_types.len(),
                forall|k: int|
                    0 <= k < i ==> !is_at(self.tokens(), self.position(), #[trigger] token_types@[k]),
            decreases token_types.len() - i,
        {
            if self.check(&token_types[i]) {
                self.advance();
                return true;
            }
            i += 1;
        }
        false
    }

    /// The token before the place.
    fn previous(&self) -> (r: &Token)
        requires
            self.well_formed(),
            self.position() > 0,
        ensures
            r@ == self.tokens()[self.position() - 1],
    {
        &self.tokens[self.current - 1]
    }

    /// Whether the next token is of the kind given.
    fn check(&self, token_type: &TokenTypes) -> (r: bool)
        requires
            self.well_formed(),
        ensures
            r == is_at(self.tokens(), self.position(), *token_type),
    {
        if self.is_at_end() {
            return false;
        }
        self.tokens[self.current].token_type == *token_type
    }

    /// Steps over the next token, unless the parser is at the end.
    fn advance(&mut self)
        requires
            old(self).well_formed(),
        ensures
            final(self).well_formed(),
            final(self).tokens == old(self).tokens,
            final(self).current == old(self).current + if at_end(
                old(self).tokens(),
                old(self).position(),
            ) {
                0int
            } else {
                1int
            },
    {
        if self.current < self.tokens.len() && self.tokens[self.current].token_type
            != TokenTypes::Eof {
            self.current += 1;
        }
    }

    /// Whether the parser stands at the end of its tokens.
    fn is_at_end(&self) -> (r: bool)
        requires
            self.well_formed(),
        ensures
            r == at_end(self.tokens(), self.position()),
    {
        self.current >= self.tokens.len() || self.tokens[self.current].token_type
            == TokenTypes::Eof
    }

    /// The next token; behind the last token, an end-of-input token.
    fn peek(&self) -> (r: Token)
        requires
            self.well_formed(),
        ensures
            r@ == token_at(self.tokens(), self.position()),
    {
        if self.current < self.tokens.len() {
            self.tokens[self.current].clone()
        } else {
            let line: u32 = if self.tokens.len() > 0 {
                self.tokens[self.tokens.len() - 1].line
            } else {
                1
            };
            Token::new(TokenTypes::Eof, String::new(), None, line)
        }
    }

    /// Takes the next token if it is of the kind given, and fails with `arg` if it is not.
    fn consume(&mut self, token_type: TokenTypes, arg: &str) -> (r: JBreadResult<Token>)
        requires
            old(self).well_formed(),
        ensures
            final(self).well_formed(),
            final(self).tokens == old(self).tokens,
            is_at(old(self).tokens(), old(self).position(), token_type) ==> (r matches Ok(t) && t@
                == old(self).tokens()[old(self).position() as int]) && final(self).current == old(
                self,
            ).current + 1,
            !is_at(old(self).tokens(), old(self).position(), token_type) ==> (r matches Err(e)
                && e@ == parse_error(token_at(old(self).tokens(), old(self).position()), arg@))
                && final(self).current == old(self).current,
    {
        if self.check(&token_type) {
            self.advance();
            Ok(self.previous().clone())
        } else {
            let token = self.peek();
            Err(Self::error(&token, arg))
        }
    }

    /// The failure at `peek` with the message `arg`.
    fn error(peek: &Token, arg: &str) -> (r: JBreadErrors)
        ensures
            r@ == parse_error(peek@, arg@),
    {
        JBreadErrors::ParseError(Error::new(peek.line, peek.lexeme.clone(), String::from_str(arg)))
    }

    /// Parses `primary`.
    pub fn primary(&mut self) -> (r: JBreadResult<Expr>)
        requires
            old(self).well_formed(),
        ensures
            parses_expr(*old(self), *final(self), r, primary(old(self).tokens(), old(self).position())),
        decreases remaining(old(self).tokens(), old(self).position()), 0nat,
    {
        if self.match_token(&[TokenTypes::False]) {
            Ok(Expr::Literal(Literal { value: Some(LiteralEnum::Boolean(false)) }))
        } else if self.match_token(&[TokenTypes::True]) {
            Ok(Expr::Literal(Literal { value: Some(LiteralEnum::Boolean(true)) }))
        } else if self.match_token(&[TokenTypes::Nil]) {
            Ok(Expr::Literal(Literal { value: None }))
        } else if self.match_token(&[TokenTypes::NaN]) {
            Ok(Expr::Literal(Literal { value: Some(LiteralEnum::NaN) }))
        } else if self.match_token(&[TokenTypes::String, TokenTypes::Number]) {
            Ok(Expr::Literal(Literal { value: clone_optional(&self.previous().literal) }))
        } else if self.match_token(&[TokenTypes::Identifier]) {
            Ok(Expr::Variable(Variable { name: self.previous().clone() }))
        } else if self.match_token(&[TokenTypes::LeftParen]) {
            match self.expression() {
                Ok(expr) => match self.consume(
                    TokenTypes::RightParen,
                    "Expect ')' after expression.",
                ) {
                    Ok(_) => Ok(Expr::Grouping(Grouping { expression: Box::new(expr) })),
                    Err(e) => Err(e),
                },
                Err(e) => Err(e),
            }
        } else if self.current > 0 {
            Err(Self::error(self.previous(), "Expected Expression"))
        } else {
            let token = self.peek();
            Err(Self::error(&token, "Expected Expression"))
        }
    }

    /// Parses `unary`.
    pub fn unary(&mut self) -> (r: JBreadResult<Expr>)
        requires
            old(self).well_formed(),
        ensures
            parses_expr(*old(self), *final(self), r, unary(old(self).tokens(), old(self).position())),
        decreases remaining(old(self).tokens(), old(self).position()), 1nat,
    {
        if self.match_token(&[TokenTypes::Bang, TokenTypes::Minus]) {
            let operator = self.previous().clone();
            match self.unary() {
                Ok(right) => Ok(Expr::Unary(Unary { right: Box::new(right), operator })),
                Err(e) => Err(e),
            }
        } else {
            self.primary()
        }
    }

    /// Takes the next token if it is a binary operator of `level`.
    fn match_operator(&mut self, level: u8) -> (r: bool)
        requires
            old(self).well_formed(),
        ensures
            final(self).well_formed(),
            final(self).tokens == old(self).tokens,
            r == (!at_end(old(self).tokens(), old(self).position()) && is_operator(
                level as nat,
                kind_at(old(self).tokens(), old(self).position()),
            )),
            final(self).current == old(self).current + if r {
                1int
            } else {
                0int
            },
    {
        if level == 1 {
            self.match_token(&[TokenTypes::Slash, TokenTypes::Star])
        } else if level == 2 {
            self.match_token(&[TokenTypes::Minus, TokenTypes::Plus])
        } else if level == 3 {
            self.match_token(
                &[
                    TokenTypes::Greater,
                    TokenTypes::GreaterEqual,
                    TokenTypes::Less,
                    TokenTypes::LessEqual,
                ],
            )
        } else if level == 4 {
            self.match_token(&[TokenTypes::BangEqual, TokenTypes::EqualEqual])
        } else {
            false
        }
    }

    /// Parses an operand of the binary rule of `level`.
    fn operand(&mut self, level: u8) -> (r: JBreadResult<Expr>)
        requires
            old(self).well_formed(),
            1 <= level <= 4,
        ensures
            parses_expr(
                *old(self),
                *final(self),
                r,
                operand(old(self).tokens(), old(self).position(), level as nat),
            ),
        decreases remaining(old(self).tokens(), old(self).position()), 3 * level + 2,
    {
        if level == 1 {
            self.unary()
        } else if level == 2 {
            self.factor()
        } else if level == 3 {
            self.term()
        } else {
            self.comparison()
        }
    }

    /// Parses the rest of the binary rule of `level` behind the operand `left`.
    fn binary_rest(&mut self, level: u8, left: Expr) -> (r: JBreadResult<Expr>)
        requires
            old(self).well_formed(),
            1 <= level <= 4,
        ensures
            parses_expr(
                *old(self),
                *final(self),
                r,
                binary_rest(old(self).tokens(), old(self).position(), level as nat, left@),
            ),
        decreases remaining(old(self).tokens(), old(self).position()), 3 * level + 3,
    {
        let ghost ts = self.tokens();
        let ghost start = self.position();
        let ghost goal = binary_rest(ts, start, level as nat, left@);
        let mut expr = left;
        loop
            invariant
                self.well_formed(),
                self.tokens() == ts,
                ts == old(self).tokens(),
                start == old(self).position(),
                goal == binary_rest(ts, start, level as nat, left@),
                1 <= level <= 4,
                start <= self.position(),
                goal == binary_rest(ts, self.position(), level as nat, expr@).after(
                    (self.position() - start) as nat,
                ),
                goal is Failed ==> binary_rest(ts, self.position(), level as nat, expr@) is Failed,
            decreases remaining(ts, self.position()),
        {
            if !self.match_operator(level) {
                return Ok(expr);
            }
            let operator = self.previous().clone();
            match self.operand(level) {
                Ok(right) => {
                    expr = Expr::Binary(Binary { left: Box::new(expr), right: Box::new(right), operator });
                },
                Err(e) => {
                    return Err(e);
                },
            }
        }
    }

    /// Parses `factor`.
    pub fn factor(&mut self) -> (r: JBreadResult<Expr>)
        requires
            old(self).well_formed(),
        ensures
            parses_expr(*old(self), *final(self), r, factor(old(self).tokens(), old(self).position())),
        decreases remaining(old(self).tokens(), old(self).position()), 7nat,
    {
        match self.unary() {
            Ok(expr) => self.binary_rest(1, expr),
            Err(e) => Err(e),
        }
    }

    /// Parses `term`.
    pub fn term(&mut self) -> (r: JBreadResult<Expr>)
        requires
            old(self).well_formed(),
        ensures
            parses_expr(*old(self), *final(self), r, term(old(self).tokens(), old(self).position())),
        decreases remaining(old(self).tokens(), old(self).position()), 10nat,
    {
        match self.factor() {
            Ok(expr) => self.binary_rest(2, expr),
            Err(e) => Err(e),
        }
    }

    /// Parses `comparison`.
    pub fn comparison(&mut self) -> (r: JBreadResult<Expr>)
        requires
            old(self).well_formed(),
        ensures
            parses_expr(
                *old(self),
                *final(self),
                r,
                comparison(old(self).tokens(), old(self).position()),
            ),
        decreases remaining(old(self).tokens(), old(self).position()), 13nat,
    {
        match self.term() {
            Ok(expr) => self.binary_rest(3, expr),
            Err(e) => Err(e),
        }
    }

    /// Parses `equality`.
    pub fn equality(&mut self) -> (r: JBreadResult<Expr>)
        requires
            old(self).well_formed(),
        ensures
            parses_expr(*old(self), *final(self), r, equality(old(self).tokens(), old(self).position())),
        decreases remaining(old(self).tokens(), old(self).position()), 16nat,
    {
        match self.comparison() {
            Ok(expr) => self.binary_rest(4, expr),
            Err(e) => Err(e),
        }
    }

    /// Parses `assignment`.
    pub fn assignment(&mut self) -> (r: JBreadResult<Expr>)
        requires
            old(self).well_formed(),
        ensures
            parses_expr(
                *old(self),
                *final(self),
                r,
                assignment(old(self).tokens(), old(self).position()),
            ),
        decreases remaining(old(self).tokens(), old(self).position()), 17nat,
    {
        let expr = match self.equality() {
            Ok(expr) => expr,
            Err(e) => {
                return Err(e);
            },
        };
        if self.match_token(&[TokenTypes::Equal]) {
            let equals = self.previous().clone();
            let value = match self.assignment() {
                Ok(value) => value,
                Err(e) => {
                    return Err(e);
                },
            };
            match expr {
                Expr::Variable(Variable { name }) => {
                    return Ok(Expr::Assign(Assign { name, value: Box::new(value) }));
                },
                _ => {
                    return Err(Self::error(&equals, "Invalid assignment target"));
                },
            }
        }
        Ok(expr)
    }

    /// Parses `expression`.
    pub fn expression(&mut self) -> (r: JBreadResult<Expr>)
        requires
            old(self).well_formed(),
        ensures
            parses_expr(
                *old(self),
                *final(self),
                r,
                expression(old(self).tokens(), old(self).position()),
            ),
        decreases remaining(old(self).tokens(), old(self).position()), 18nat,
    {
        self.assignment()
    }

    /// Parses `exprStmt`.
    pub fn expression_statement(&mut self) -> (r: JBreadResult<Stmt>)
        requires
            old(self).well_formed(),
        ensures
            parses_stmt(
                *old(self),
                *final(self),
                r,
                expression_statement(old(self).tokens(), old(self).position()),
            ),
        decreases remaining(old(self).tokens(), old(self).position()), 19nat,
    {
        let expr = match self.expression() {
            Ok(expr) => expr,
            Err(e) => {
                return Err(e);
            },
        };
        match self.consume(TokenTypes::Semicolon, "Expect ';' after expression.") {
            Ok(_) => Ok(Stmt::Expression(Expression { expression: Box::new(expr) })),
            Err(e) => Err(e),
        }
    }

    /// Parses `printStmt`, behind its `print`.
    pub fn print_statement(&mut self) -> (r: JBreadResult<Stmt>)
        requires
            old(self).well_formed(),
        ensures
            parses_stmt(
                *old(self),
                *final(self),
                r,
                print_statement(old(self).tokens(), old(self).position()),
            ),
        decreases remaining(old(self).tokens(), old(self).position()), 19nat,
    {
        let expr = match self.expression() {
            Ok(expr) => expr,
            Err(e) => {
                return Err(e);
            },
        };
        match self.consume(TokenTypes::Semicolon, "Expect ';' after value.") {
            Ok(_) => Ok(Stmt::Print(Print { expression: Box::new(expr) })),
            Err(e) => Err(e),
        }
    }

    /// Parses `varDecl`, behind its `var`.
    pub fn var_decleration(&mut self) -> (r: JBreadResult<Stmt>)
        requires
            old(self).well_formed(),
        ensures
            parses_stmt(
                *old(self),
                *final(self),
                r,
                var_declaration(old(self).tokens(), old(self).position()),
            ),
        decreases remaining(old(self).tokens(), old(self).position()), 19nat,
    {
        let name = match self.consume(TokenTypes::Identifier, "Expected a variable name") {
            Ok(name) => name,
            Err(e) => {
                return Err(e);
            },
        };
        let mut initializer = None;
        if self.match_token(&[TokenTypes::Equal]) {
            match self.expression() {
                Ok(expr) => {
                    initializer = Some(Box::new(expr));
                },
                Err(e) => {
                    return Err(e);
                },
            }
        }
        match self.consume(TokenTypes::Semicolon, "Expected ';' after variable declaration") {
            Ok(_) => Ok(Stmt::Var(Var { name, initializer })),
            Err(e) => Err(e),
        }
    }

    /// Parses `declaration`: a variable declaration or a statement.
    pub fn statement(&mut self) -> (r: JBreadResult<Stmt>)
        requires
            old(self).well_formed(),
        ensures
            parses_stmt(*old(self), *final(self), r, statement(old(self).tokens(), old(self).position())),
        decreases remaining(old(self).tokens(), old(self).position()), 20nat,
    {
        if self.match_token(&[TokenTypes::Var]) {
            self.var_decleration()
        } else if self.match_token(&[TokenTypes::Print]) {
            self.print_statement()
        } else if self.match_token(&[TokenTypes::LeftBrace]) {
            self.block_statement()
        } else {
            self.expression_statement()
        }
    }

    /// Parses `block`, behind its `{`.
    pub fn block_statement(&mut self) -> (r: JBreadResult<Stmt>)
        requires
            old(self).well_formed(),
        ensures
            parses_stmt(
                *old(self),
                *final(self),
                r,
                block_statement(old(self).tokens(), old(self).position()),
            ),
        decreases remaining(old(self).tokens(), old(self).position()), 22nat,
    {
        let ghost ts = self.tokens();
        let ghost start = self.position();
        let ghost goal = block_items(ts, start);
        let mut statements: Vec<Stmt> = Vec::new();
        while !self.check(&TokenTypes::RightBrace) && !self.is_at_end()
            invariant
                self.well_formed(),
                self.tokens() == ts,
                ts == old(self).tokens(),
                start == old(self).position(),
                start <= self.position(),
                goal == block_items(ts, start),
                goal == preceded(
                    stmt_values(statements@),
                    block_items(ts, self.position()).after((self.position() - start) as nat),
                ),
            decreases remaining(ts, self.position()),
        {
            let ghost before = stmt_values(statements@);
            let ghost here = self.position();
            match self.statement() {
                Ok(s) => {
                    let ghost earlier = statements@;
                    let ghost tree = s@;
                    statements.push(s);
                    proof {
                        lemma_statement_advances(ts, here);
                        assert(statements@.drop_last() =~= earlier);
                        assert(stmt_values(statements@) == before.push(tree));
                        let rest = block_items(ts, self.position());
                        match rest {
                            Parsed::Done { value, used } => {
                                assert(before + (seq![tree] + value) =~= before.push(tree) + value);
                            },
                            Parsed::Failed { error, at } => {},
                        }
                    }
                },
                Err(e) => {
                    return Err(e);
                },
            }
        }
        proof {
            assert(stmt_values(statements@) + Seq::<StmtValue>::empty() =~= stmt_values(statements@));
        }
        match self.consume(TokenTypes::RightBrace, "Expect '}' after block.") {
            Ok(_) => Ok(Stmt::Block(Block { statements })),
            Err(e) => Err(e),
        }
    }

    /// Parses `program`: all the statements up to the end of input. It stops
    /// at the first that fails, and returns that failure alone.
    pub fn parse(&mut self) -> (r: JBreadResult<Vec<Stmt>>)
        requires
            old(self).well_formed(),
        ensures
            parses_stmts(*old(self), *final(self), r, program(old(self).tokens(), old(self).position())),
    {
        let ghost ts = self.tokens();
        let ghost start = self.position();
        let ghost goal = program(ts, start);
        let mut statements: Vec<Stmt> = Vec::new();
        while !self.is_at_end()
            invariant
                self.well_formed(),
                self.tokens() == ts,
                ts == old(self).tokens(),
                start == old(self).position(),
                start <= self.position(),
                goal == program(ts, start),
                goal == preceded(
                    stmt_values(statements@),
                    program(ts, self.position()).after((self.position() - start) as nat),
                ),
            decreases remaining(ts, self.position()),
        {
            let ghost before = stmt_values(statements@);
            let ghost here = self.position();
            match self.statement() {
                Ok(s) => {
                    let ghost earlier = statements@;
                    let ghost tree = s@;
                    statements.push(s);
                    proof {
                        lemma_statement_advances(ts, here);
                        assert(statements@.drop_last() =~= earlier);
                        assert(stmt_values(statements@) == before.push(tree));
                        let rest = program(ts, self.position());
                        match rest {
                            Parsed::Done { value, used } => {
                                assert(before + (seq![tree] + value) =~= before.push(tree) + value);
                            },
                            Parsed::Failed { error, at } => {},
                        }
                    }
                },
                Err(e) => {
                    return Err(e);
                },
            }
        }
        proof {
            assert(stmt_values(statements@) + Seq::<StmtValue>::empty() =~= stmt_values(statements@));
        }
        Ok(statements)
    }
}

/// A statement that is parsed takes at least one token.
pub proof fn lemma_statement_advances(ts: Seq<TokenValue>, p: nat)
    ensures
        statement(ts, p) matches Parsed::Done { value, used } ==> used > 0,
{
}

/// The grammar rules for expressions.
pub enum ExprRule {
    Expression,
    Assignment,
    Equality,
    Comparison,
    Term,
    Factor,
    Unary,
    Primary,
}

/// The grammar rules for statements.
pub enum StmtRule {
    ExpressionStatement,
    PrintStatement,
    BlockStatement,
    Statement,
}

/// What a grammar rule for expressions gives at a place in a token sequence.
pub open spec fn expr_rule(rule: ExprRule, ts: Seq<TokenValue>, p: nat) -> Parsed<ExprValue> {
    match rule {
        ExprRule::Expression => expression(ts, p),
        ExprRule::Assignment => assignment(ts, p),
        ExprRule::Equality => equality(ts, p),
        ExprRule::Comparison => comparison(ts, p),
        ExprRule::Term => term(ts, p),
        ExprRule::Factor => factor(ts, p),
        ExprRule::Unary => unary(ts, p),
        ExprRule::Primary => primary(ts, p),
    }
}

/// What a grammar rule for statements gives at a place in a token sequence.
pub open spec fn stmt_rule(rule: StmtRule, ts: Seq<TokenValue>, p: nat) -> Parsed<StmtValue> {
    match rule {
        StmtRule::ExpressionStatement => expression_statement(ts, p),
        StmtRule::PrintStatement => print_statement(ts, p),
        StmtRule::BlockStatement => block_statement(ts, p),
        StmtRule::Statement => statement(ts, p),
    }
}

/// A parser of expressions, with one method for each grammar rule. What the
/// method for a rule does is said by [`follows`](ParseExpr::follows).
pub trait ParseExpr {
    /// The parser can be asked to parse.
    spec fn ready(&self) -> bool;

    /// What the method for `rule` does: how the parser after the call and
    /// the result relate to the parser before it.
    spec fn follows(&self, after: &Self, rule: ExprRule, result: JBreadResult<Expr>) -> bool;

    fn expression(&mut self) -> (r: JBreadResult<Expr>)
        requires
            old(self).ready(),
        ensures
            final(self).ready(),
            old(self).follows(final(self), ExprRule::Expression, r),
    ;

    fn assignment(&mut self) -> (r: JBreadResult<Expr>)
        requires
            old(self).ready(),
        ensures
            final(self).ready(),
            old(self).follows(final(self), ExprRule::Assignment, r),
    ;

    fn equality(&mut self) -> (r: JBreadResult<Expr>)
        requires
            old(self).ready(),
        ensures
            final(self).ready(),
            old(self).follows(final(self), ExprRule::Equality, r),
    ;

    fn comparison(&mut self) -> (r: JBreadResult<Expr>)
        requires
            old(self).ready(),
        ensures
            final(self).ready(),
            old(self).follows(final(self), ExprRule::Comparison, r),
    ;

    fn term(&mut self) -> (r: JBreadResult<Expr>)
        requires
            old(self).ready(),
        ensures
            final(self).ready(),
            old(self).follows(final(self), ExprRule::Term, r),
    ;

    fn factor(&mut self) -> (r: JBreadResult<Expr>)
        requires
            old(self).ready(),
        ensures
            final(self).ready(),
            old(self).follows(final(self), ExprRule::Factor, r),
    ;

    fn unary(&mut self) -> (r: JBreadResult<Expr>)
        requires
            old(self).ready(),
        ensures
            final(self).ready(),
            old(self).follows(final(self), ExprRule::Unary, r),
    ;

    fn primary(&mut self) -> (r: JBreadResult<Expr>)
        requires
            old(self).ready(),
        ensures
            final(self).ready(),
            old(self).follows(final(self), ExprRule::Primary, r),
    ;
}

/// A parser of statements, with one method for each grammar rule. What the
/// method for a rule does is said by [`follows`](ParseStmt::follows).
pub trait ParseStmt {
    /// The parser can be asked to parse.
    spec fn ready(&self) -> bool;

    /// What the method for `rule` does: how the parser after the call and
    /// the result relate to the parser before it.
    spec fn follows(&self, after: &Self, rule: StmtRule, result: JBreadResult<Stmt>) -> bool;

    fn expression_statement(&mut self) -> (r: JBreadResult<Stmt>)
        requires
            old(self).ready(),
        ensures
            final(self).ready(),
            old(self).follows(final(self), StmtRule::ExpressionStatement, r),
    ;

    fn print_statement(&mut self) -> (r: JBreadResult<Stmt>)
        requires
            old(self).ready(),
        ensures
            final(self).ready(),
            old(self).follows(final(self), StmtRule::PrintStatement, r),
    ;

    fn block_statement(&mut self) -> (r: JBreadResult<Stmt>)
        requires
            old(self).ready(),
        ensures
            final(self).ready(),
            old(self).follows(final(self), StmtRule::BlockStatement, r),
    ;

    fn statement(&mut self) -> (r: JBreadResult<Stmt>)
        requires
            old(self).ready(),
        ensures
            final(self).ready(),
            old(self).follows(final(self), StmtRule::Statement, r),
    ;
}

impl<'a> ParseExpr for Parser<'a> {
    open spec fn ready(&self) -> bool {
        self.well_formed()
    }

    /// The method for a rule returns what the rule gives where the parser
    /// stands, and leaves the parser behind the tokens taken.
    open spec fn follows(&self, after: &Self, rule: ExprRule, result: JBreadResult<Expr>) -> bool {
        parses_expr(*self, *after, result, expr_rule(rule, self.tokens(), self.position()))
    }

    fn expression(&mut self) -> (r: JBreadResult<Expr>) {
        Parser::expression(self)
    }

    fn assignment(&mut self) -> (r: JBreadResult<Expr>) {
        Parser::assignment(self)
    }

    fn equality(&mut self) -> (r: JBreadResult<Expr>) {
        Parser::equality(self)
    }

    fn comparison(&mut self) -> (r: JBreadResult<Expr>) {
        Parser::comparison(self)
    }

    fn term(&mut self) -> (r: JBreadResult<Expr>) {
        Parser::term(self)
    }

    fn factor(&mut self) -> (r: JBreadResult<Expr>) {
        Parser::factor(self)
    }

    fn unary(&mut self) -> (r: JBreadResult<Expr>) {
        Parser::unary(self)
    }

    fn primary(&mut self) -> (r: JBreadResult<Expr>) {
        Parser::primary(self)
    }
}

impl<'a> ParseStmt for Parser<'a> {
    open spec fn ready(&self) -> bool {
        self.well_formed()
    }

    /// The method for a rule returns what the rule gives where the parser
    /// stands, and leaves the parser behind the tokens taken.
    open spec fn follows(&self, after: &Self, rule: StmtRule, result: JBreadResult<Stmt>) -> bool {
        parses_stmt(*self, *after, result, stmt_rule(rule, self.tokens(), self.position()))
    }

    fn expression_statement(&mut self) -> (r: JBreadResult<Stmt>) {
        Parser::expression_statement(self)
    }

    fn print_statement(&mut self) -> (r: JBreadResult<Stmt>) {
        Parser::print_statement(self)
    }

    fn block_statement(&mut self) -> (r: JBreadResult<Stmt>) {
        Parser::block_statement(self)
    }

    fn statement(&mut self) -> (r: JBreadResult<Stmt>) {
        Parser::statement(self)
    }
}

} // verus!
