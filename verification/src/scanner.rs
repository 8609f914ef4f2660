//! The scanner: source text in, tokens out.
//!
//! [`scan`] says what the tokens and the diagnostics of a source text are.
//! It reads the text from left to right and always takes the longest lexeme
//! that starts where it stands. [`Scanner`] computes it.
use crate::errors::Error;
use crate::errors::ErrorValue;
use crate::errors::Failure;
use crate::errors::JBreadErrors;
use crate::number::decimal_bits;
use crate::number::is_digit;
use crate::number::parse_decimal;
use crate::number::splits_at;
use crate::token::token_values;
use crate::token::Literal as LiteralEnum;
use crate::token::LiteralValue;
use crate::token::Token;
use crate::token::TokenTypes;
use crate::token::TokenValue;
use vstd::prelude::*;
use vstd::string::StrSliceExecFns;
use vstd::string::StringExecFns;

verus! {

/// Whether a character is a letter or a digit of any script, as
/// `char::is_alphanumeric` has it.
pub uninterp spec fn alphanumeric(c: char) -> bool;

/// `char::is_alphanumeric`, which goes by the Unicode tables that the standard
/// library holds. The contract gives the result its name and claims no more.
pub assume_specification[ char::is_alphanumeric ](c: char) -> (r: bool)
    ensures
        r == alphanumeric(c),
;

/// A character that may start an identifier: an ASCII letter or an underscore.
pub open spec fn starts_word(c: char) -> bool {
    'a' <= c <= 'z' || 'A' <= c <= 'Z' || c == '_'
}

/// A character that may go on an identifier: a letter, a digit, an underscore.
pub open spec fn in_word(c: char) -> bool {
    alphanumeric(c) || c == '_'
}

/// The character at `i`, or the null character where the text has ended.
pub open spec fn char_at(src: Seq<char>, i: int) -> char {
    if 0 <= i < src.len() {
        src[i]
    } else {
        '\0'
    }
}

/// How many characters from `from` on, one after the other, `keep` holds of.
pub open spec fn run(src: Seq<char>, from: int, keep: spec_fn(char) -> bool) -> nat
    decreases src.len() - from,
{
    if 0 <= from < src.len() && keep(src[from]) {
        1 + run(src, from + 1, keep)
    } else {
        0
    }
}

/// How many line feeds stand in `src` from `from` up to, not including, `to`.
pub open spec fn newlines(src: Seq<char>, from: int, to: int) -> nat
    decreases to - from,
{
    if to <= from || to > src.len() || from < 0 {
        0
    } else if src[to - 1] == '\n' {
        newlines(src, from, to - 1) + 1
    } else {
        newlines(src, from, to - 1)
    }
}

/// The line that is `n` lines after `line`. Line numbers stop at `u32::MAX`.
pub open spec fn line_after(line: u32, n: nat) -> u32 {
    if line + n >= u32::MAX {
        u32::MAX
    } else {
        (line + n) as u32
    }
}

/// The word that `text` is in the language, if it is one.
pub open spec fn keyword(text: Seq<char>) -> Option<TokenTypes> {
    if text == "and"@ {
        Some(TokenTypes::And)
    } else if text == "class"@ {
        Some(TokenTypes::Class)
    } else if text == "else"@ {
        Some(TokenTypes::Else)
    } else if text == "false"@ {
        Some(TokenTypes::False)
    } else if text == "for"@ {
        Some(TokenTypes::For)
    } else if text == "fun"@ {
        Some(TokenTypes::Fun)
    } else if text == "if"@ {
        Some(TokenTypes::If)
    } else if text == "nil"@ {
        Some(TokenTypes::Nil)
    } else if text == "or"@ {
        Some(TokenTypes::Or)
    } else if text == "print"@ {
        Some(TokenTypes::Print)
    } else if text == "return"@ {
        Some(TokenTypes::Return)
    } else if text == "super"@ {
        Some(TokenTypes::Super)
    } else if text == "this"@ {
        Some(TokenTypes::This)
    } else if text == "true"@ {
        Some(TokenTypes::True)
    } else if text == "var"@ {
        Some(TokenTypes::Var)
    } else if text == "while"@ {
        Some(TokenTypes::While)
    } else {
        None
    }
}

/// What the scanner does with the lexeme that starts at one place: how far
/// the lexeme goes, the line on which the scanner stands after it, and the
/// token or the diagnostic that it gives, if any.
pub struct Step {
    /// The number of characters of the lexeme after its first.
    pub more: nat,
    /// The line after the lexeme.
    pub line: u32,
    /// The token that the lexeme is.
    pub token: Option<TokenValue>,
    /// The diagnostic that the lexeme gives.
    pub error: Option<Failure>,
}

/// The text of the lexeme that starts at `start` and has `more` characters after its first.
pub open spec fn lexeme(src: Seq<char>, start: int, more: nat) -> Seq<char> {
    src.subrange(start, start + 1 + more)
}

/// A lexeme that is a token without a value.
pub open spec fn plain(kind: TokenTypes, src: Seq<char>, start: int, more: nat, line: u32) -> Step {
    Step {
        more,
        line,
        token: Some(
            TokenValue { token_type: kind, lexeme: lexeme(src, start, more), literal: None, line },
        ),
        error: None,
    }
}

/// A lexeme that is passed over: white space or a comment.
pub open spec fn skipped(more: nat, line: u32) -> Step {
    Step { more, line, token: None, error: None }
}

/// A lexeme that cannot be scanned. The diagnostic names the line and the lexeme.
pub open spec fn refused(src: Seq<char>, start: int, more: nat, line: u32, message: Seq<char>) -> Step {
    Step {
        more,
        line,
        token: None,
        error: Some(
            Failure::ParseError(ErrorValue { line, place: lexeme(src, start, more), message }),
        ),
    }
}

/// An operator of one character, or of two where `=` follows.
pub open spec fn one_or_two(
    src: Seq<char>,
    start: int,
    line: u32,
    alone: TokenTypes,
    with_equal: TokenTypes,
) -> Step {
    if char_at(src, start + 1) == '=' {
        plain(with_equal, src, start, 1, line)
    } else {
        plain(alone, src, start, 0, line)
    }
}

/// A slash: the start of a comment that runs to the end of the line, or a token.
pub open spec fn slash_step(src: Seq<char>, start: int, line: u32) -> Step {
    if char_at(src, start + 1) == '/' {
        skipped(1 + run(src, start + 2, |c: char| c != '\n'), line)
    } else {
        plain(TokenTypes::Slash, src, start, 0, line)
    }
}

/// A string: everything up to the next double quote, line feeds included.
/// Its token stands on the line on which the string ends. A string that the
/// text ends in is refused, on the line on which the text ends.
pub open spec fn string_step(src: Seq<char>, start: int, line: u32) -> Step {
    let inside = run(src, start + 1, |c: char| c != '"');
    let close = start + 1 + inside;
    let last_line = line_after(line, newlines(src, start + 1, close));
    if close >= src.len() {
        refused(src, start, inside, last_line, "Unterminated string."@)
    } else {
        Step {
            more: inside + 1,
            line: last_line,
            token: Some(
                TokenValue {
                    token_type: TokenTypes::String,
                    lexeme: lexeme(src, start, inside + 1),
                    literal: Some(LiteralValue::Text(src.subrange(start + 1, close))),
                    line: last_line,
                },
            ),
            error: None,
        }
    }
}

/// How many characters after its first digit a number has: the digits that
/// follow and, where a dot and a digit come next, the dot and all the digits
/// after it. A dot that no digit follows is left where it stands.
pub open spec fn number_more(src: Seq<char>, start: int) -> nat {
    let whole = run(src, start + 1, |c: char| is_digit(c));
    let dot = start + 1 + whole;
    if char_at(src, dot) == '.' && is_digit(char_at(src, dot + 1)) {
        whole + 1 + run(src, dot + 1, |c: char| is_digit(c))
    } else {
        whole
    }
}

/// A number: its value is what its lexeme denotes in decimal.
pub open spec fn number_step(src: Seq<char>, start: int, line: u32) -> Step {
    let more = number_more(src, start);
    Step {
        more,
        line,
        token: Some(
            TokenValue {
                token_type: TokenTypes::Number,
                lexeme: lexeme(src, start, more),
                literal: Some(LiteralValue::Number(decimal_bits(lexeme(src, start, more))->0)),
                line,
            },
        ),
        error: None,
    }
}

/// A word: a keyword where the language has it, an identifier otherwise.
pub open spec fn word_step(src: Seq<char>, start: int, line: u32) -> Step {
    let more = run(src, start + 1, |c: char| in_word(c));
    match keyword(lexeme(src, start, more)) {
        Some(kind) => plain(kind, src, start, more, line),
        None => plain(TokenTypes::Identifier, src, start, more, line),
    }
}

/// What the scanner does with the lexeme that starts at `start`, standing on `line`.
pub open spec fn scan_step(src: Seq<char>, start: int, line: u32) -> Step
    recommends
        0 <= start < src.len(),
{
    let c = src[start];
    if c == '(' {
        plain(TokenTypes::LeftParen, src, start, 0, line)
    } else if c == ')' {
        plain(TokenTypes::RightParen, src, start, 0, line)
    } else if c == '{' {
        plain(TokenTypes::LeftBrace, src, start, 0, line)
    } else if c == '}' {
        plain(TokenTypes::RightBrace, src, start, 0, line)
    } else if c == ',' {
        plain(TokenTypes::Comma, src, start, 0, line)
    } else if c == '.' {
        plain(TokenTypes::Dot, src, start, 0, line)
    } else if c == '-' {
        plain(TokenTypes::Minus, src, start, 0, line)
    } else if c == '+' {
        plain(TokenTypes::Plus, src, start, 0, line)
    } else if c == ';' {
        plain(TokenTypes::Semicolon, src, start, 0, line)
    } else if c == '*' {
        plain(TokenTypes::Star, src, start, 0, line)
    } else if c == '!' {
        one_or_two(src, start, line, TokenTypes::Bang, TokenTypes::BangEqual)
    } else if c == '=' {
        one_or_two(src, start, line, TokenTypes::Equal, TokenTypes::EqualEqual)
    } else if c == '<' {
        one_or_two(src, start, line, TokenTypes::Less, TokenTypes::LessEqual)
    } else if c == '>' {
        one_or_two(src, start, line, TokenTypes::Greater, TokenTypes::GreaterEqual)
    } else if c == '/' {
        slash_step(src, start, line)
    } else if c == '\t' || c == '\r' || c == ' ' {
        skipped(0, line)
    } else if c == '\n' {
        skipped(0, line_after(line, 1))
    } else if c == '"' {
        string_step(src, start, line)
    } else if is_digit(c) {
        number_step(src, start, line)
    } else if starts_word(c) {
        word_step(src, start, line)
    } else {
        refused(src, start, 0, line, "Unexpected character."@)
    }
}

/// The end-of-input token on `line`.
pub open spec fn end_of_input(line: u32) -> TokenValue {
    TokenValue { token_type: TokenTypes::Eof, lexeme: Seq::empty(), literal: None, line }
}

/// The number of characters from `pos` to the end of the text.
pub open spec fn left(src: Seq<char>, pos: int) -> nat {
    if pos < src.len() {
        (src.len() - pos) as nat
    } else {
        0
    }
}

/// What a scan gives: the tokens, and the diagnostics of what could not be scanned.
pub struct Scan {
    pub tokens: Seq<TokenValue>,
    pub errors: Seq<Failure>,
}

/// The scan of `src` from `pos` on, standing on `line`: the tokens of the
/// lexemes in order, then one end-of-input token on the last line.
pub open spec fn scan_from(src: Seq<char>, pos: int, line: u32) -> Scan
    decreases left(src, pos),
{
    if pos < 0 || pos >= src.len() {
        Scan { tokens: seq![end_of_input(line)], errors: Seq::empty() }
    } else {
        let step = scan_step(src, pos, line);
        let rest = scan_from(src, pos + 1 + step.more, step.line);
        Scan {
            tokens: match step.token {
                Some(t) => seq![t] + rest.tokens,
                None => rest.tokens,
            },
            errors: match step.error {
                Some(e) => seq![e] + rest.errors,
                None => rest.errors,
            },
        }
    }
}

/// The scan of a source text: from its first character, on line 1.
pub open spec fn scan(src: Seq<char>) -> Scan {
    scan_from(src, 0, 1)
}

/// What a sequence of diagnostics stands for.
pub open spec fn failures(errors: Seq<JBreadErrors>) -> Seq<Failure> {
    errors.map_values(|e: JBreadErrors| e@)
}

/// A run is as long as the stretch of characters that `keep` holds of.
pub proof fn lemma_run(src: Seq<char>, from: int, keep: spec_fn(char) -> bool, n: nat)
    requires
        0 <= from,
        from + n <= src.len(),
        forall|k: int| from <= k < from + n ==> keep(#[trigger] src[k]),
        from + n == src.len() || !keep(src[from + n]),
    ensures
        run(src, from, keep) == n,
    decreases n,
{
    if n > 0 {
        lemma_run(src, from + 1, keep, (n - 1) as nat);
    }
}

/// What is scanned from a place is what its first lexeme gives, then what is
/// scanned from behind that lexeme.
proof fn lemma_scan_unfold(src: Seq<char>, pos: int, line: u32)
    requires
        0 <= pos < src.len(),
    ensures
        ({
            let step = scan_step(src, pos, line);
            let rest = scan_from(src, pos + 1 + step.more, step.line);
            let all = scan_from(src, pos, line);
            &&& all.tokens == (match step.token {
                Some(t) => seq![t] + rest.tokens,
                None => rest.tokens,
            })
            &&& all.errors == (match step.error {
                Some(e) => seq![e] + rest.errors,
                None => rest.errors,
            })
        }),
{
}

/// A token of a lexeme is no end-of-input token, and it has a value if and
/// only if it is a string or a number.
pub proof fn lemma_step_token(src: Seq<char>, start: int, line: u32)
    requires
        0 <= start < src.len(),
    ensures
        scan_step(src, start, line).token matches Some(t) ==> t.token_type != TokenTypes::Eof && (
        t.literal is Some <==> t.token_type == TokenTypes::String || t.token_type
            == TokenTypes::Number),
{
}

/// A scan ends in one end-of-input token and holds no other, and a token has
/// a value if and only if it is a string or a number.
pub proof fn lemma_scan_tokens(src: Seq<char>, pos: int, line: u32)
    ensures
        ({
            let tokens = scan_from(src, pos, line).tokens;
            &&& tokens.len() >= 1
            &&& tokens.last().token_type == TokenTypes::Eof
            &&& forall|i: int|
                0 <= i < tokens.len() - 1 ==> (#[trigger] tokens[i]).token_type != TokenTypes::Eof
            &&& forall|i: int|
                0 <= i < tokens.len() ==> ((#[trigger] tokens[i]).literal is Some <==> tokens[i].token_type
                    == TokenTypes::String || tokens[i].token_type == TokenTypes::Number)
        }),
    decreases left(src, pos),
{
    if 0 <= pos < src.len() {
        let step = scan_step(src, pos, line);
        lemma_step_token(src, pos, line);
        lemma_scan_tokens(src, pos + 1 + step.more, step.line);
        let rest = scan_from(src, pos + 1 + step.more, step.line).tokens;
        let tokens = scan_from(src, pos, line).tokens;
        match step.token {
            Some(t) => {
                assert(tokens == seq![t] + rest);
                assert forall|i: int| 0 <= i < tokens.len() implies (i < tokens.len() - 1 ==> (
                #[trigger] tokens[i]).token_type != TokenTypes::Eof) && (tokens[i].literal is Some
                    <==> tokens[i].token_type == TokenTypes::String || tokens[i].token_type
                    == TokenTypes::Number) by {
                    if i > 0 {
                        assert(tokens[i] == rest[i - 1]);
                    }
                }
            },
            None => {},
        }
    }
}

/// The scanner. It holds the source text, the place up to which it has
/// scanned, and the tokens and diagnostics that it has found so far.
pub struct Scanner {
    tokens: Vec<Token>,
    errors: Vec<JBreadErrors>,
    source: String,
    length: usize,
    start: usize,
    current: usize,
    line: u32,
}

impl Default for Scanner {
    /// A scanner of the empty text.
    fn default() -> (r: Self)
        ensures
            r.well_formed(),
            r.source() == Seq::<char>::empty(),
            r.position() == 0,
            r.line() == 1,
            r.tokens() == Seq::<TokenValue>::empty(),
            r.errors() == Seq::<Failure>::empty(),
    {
        let source = String::new();
        let length = source.as_str().unicode_len();
        Self { tokens: Vec::new(), errors: Vec::new(), source, length, start: 0, current: 0, line: 1 }
    }
}

impl Scanner {
    /// The scanner stands inside its text.
    pub closed spec fn well_formed(&self) -> bool {
        &&& self.length == self.source@.len()
        &&& self.start <= self.current <= self.length
    }

    /// The source text.
    pub closed spec fn source(&self) -> Seq<char> {
        self.source@
    }

    /// The number of characters scanned so far.
    pub closed spec fn position(&self) -> int {
        self.current as int
    }

    /// The line on which the scanner stands.
    pub closed spec fn line(&self) -> u32 {
        self.line
    }

    /// The tokens found so far.
    pub closed spec fn tokens(&self) -> Seq<TokenValue> {
        token_values(self.tokens@)
    }

    /// The diagnostics given so far.
    pub closed spec fn errors(&self) -> Seq<Failure> {
        failures(self.errors@)
    }

    /// A scanner at the start of `source`, on line 1, with nothing found yet.
    pub fn new(source: &str) -> (r: Self)
        ensures
            r.well_formed(),
            r.source() == source@,
            r.position() == 0,
            r.line() == 1,
            r.tokens() == Seq::<TokenValue>::empty(),
            r.errors() == Seq::<Failure>::empty(),
    {
        let length = source.unicode_len();
        Self {
            source: String::from_str(source),
            length,
            tokens: Vec::new(),
            errors: Vec::new(),
            start: 0,
            current: 0,
            line: 1,
        }
    }

    /// Scans from where the scanner stands to the end of the text, adds the
    /// end-of-input token, and returns all the tokens found so far. On a new
    /// scanner these are the tokens of the source text.
    pub fn scan_tokens(&mut self) -> (r: &Vec<Token>)
        requires
            old(self).well_formed(),
        ensures
            final(self).well_formed(),
            final(self).source() == old(self).source(),
            final(self).position() == old(self).source().len(),
            final(self).tokens() == old(self).tokens() + scan_from(
                old(self).source(),
                old(self).position(),
                old(self).line(),
            ).tokens,
            final(self).errors() == old(self).errors() + scan_from(
                old(self).source(),
                old(self).position(),
                old(self).line(),
            ).errors,
            token_values(r@) == final(self).tokens(),
            final(self).line() == final(self).tokens().last().line,
            old(self).position() == 0 && old(self).line() == 1 && old(self).tokens().len() == 0
                ==> final(self).tokens() == scan(old(self).source()).tokens,
            old(self).position() == 0 && old(self).line() == 1 && old(self).errors().len() == 0
                ==> final(self).errors() == scan(old(self).source()).errors,
    {
        let ghost src = self.source@;
        let ghost goal = scan_from(src, self.current as int, self.line);
        while !self.is_at_end()
            invariant
                self.source@ == src,
                self.well_formed(),
                self.current <= self.length,
                old(self).tokens() + goal.tokens == self.tokens() + scan_from(
                    src,
                    self.current as int,
                    self.line,
                ).tokens,
                old(self).errors() + goal.errors == self.errors() + scan_from(
                    src,
                    self.current as int,
                    self.line,
                ).errors,
            decreases self.length - self.current,
        {
            let ghost before_tokens = self.tokens();
            let ghost before_errors = self.errors();
            let ghost pos = self.current as int;
            let ghost line = self.line;
            self.start = self.current;
            self.scan_single_token();
            proof {
                lemma_scan_unfold(src, pos, line);
                let step = scan_step(src, pos, line);
                let rest = scan_from(src, pos + 1 + step.more, step.line);
                match step.token {
                    Some(t) => {
                        assert(before_tokens.push(t) + rest.tokens =~= before_tokens + (seq![t]
                            + rest.tokens));
                    },
                    None => {},
                }
                match step.error {
                    Some(e) => {
                        assert(before_errors.push(e) + rest.errors =~= before_errors + (seq![e]
                            + rest.errors));
                    },
                    None => {},
                }
            }
        }
        let ghost before_tokens = self.tokens();
        self.tokens.push(Token::new(TokenTypes::Eof, String::new(), None, self.line));
        proof {
            assert(self.tokens() =~= before_tokens.push(end_of_input(self.line)));
            assert(before_tokens + seq![end_of_input(self.line)] =~= before_tokens.push(
                end_of_input(self.line),
            ));
            assert(self.errors() + Seq::<Failure>::empty() =~= self.errors());
            if old(self).tokens().len() == 0 {
                assert(old(self).tokens() + goal.tokens =~= goal.tokens);
            }
            if old(self).errors().len() == 0 {
                assert(old(self).errors() + goal.errors =~= goal.errors);
            }
        }
        &self.tokens
    }

    /// The diagnostics given so far.
    pub fn diagnostics(&self) -> (r: &Vec<JBreadErrors>)
        ensures
            failures(r@) == self.errors(),
    {
        &self.errors
    }

    /// Hands out the diagnostics given so far and forgets them.
    pub fn take_diagnostics(&mut self) -> (r: Vec<JBreadErrors>)
        requires
            old(self).well_formed(),
        ensures
            final(self).well_formed(),
            failures(r@) == old(self).errors(),
            final(self).errors() == Seq::<Failure>::empty(),
            final(self).source() == old(self).source(),
            final(self).position() == old(self).position(),
            final(self).line() == old(self).line(),
            final(self).tokens() == old(self).tokens(),
    {
        let mut taken: Vec<JBreadErrors> = Vec::new();
        std::mem::swap(&mut self.errors, &mut taken);
        assert(failures(self.errors@) =~= Seq::<Failure>::empty());
        taken
    }

    fn is_at_end(&self) -> (r: bool)
        ensures
            r == (self.current >= self.length),
    {
        self.current >= self.length
    }

    /// Scans the lexeme that starts where the scanner stands.
    fn scan_single_token(&mut self)
        requires
            old(self).well_formed(),
            old(self).start == old(self).current,
            old(self).current < old(self).length,
        ensures
            final(self).well_formed(),
            final(self).source@ == old(self).source@,
            final(self).length == old(self).length,
            final(self).current == old(self).current + 1 + scan_step(
                old(self).source@,
                old(self).current as int,
                old(self).line,
            ).more,
            final(self).line == scan_step(
                old(self).source@,
                old(self).current as int,
                old(self).line,
            ).line,
            final(self).tokens() == (match scan_step(
                old(self).source@,
                old(self).current as int,
                old(self).line,
            ).token {
                Some(t) => old(self).tokens().push(t),
                None => old(self).tokens(),
            }),
            final(self).errors() == (match scan_step(
                old(self).source@,
                old(self).current as int,
                old(self).line,
            ).error {
                Some(e) => old(self).errors().push(e),
                None => old(self).errors(),
            }),
    {
        let chr = self.advance();
        match chr {
            '(' => self.add_token(TokenTypes::LeftParen),
            ')' => self.add_token(TokenTypes::RightParen),
            '{' => self.add_token(TokenTypes::LeftBrace),
            '}' => self.add_token(TokenTypes::RightBrace),
            ',' => self.add_token(TokenTypes::Comma),
            '.' => self.add_token(TokenTypes::Dot),
            '-' => self.add_token(TokenTypes::Minus),
            '+' => self.add_token(TokenTypes::Plus),
            ';' => self.add_token(TokenTypes::Semicolon),
            '*' => self.add_token(TokenTypes::Star),
            '!' => {
                if self.match_next('=') {
                    self.add_token(TokenTypes::BangEqual)
                } else {
                    self.add_token(TokenTypes::Bang)
                }
            },
            '=' => {
                if self.match_next('=') {
                    self.add_token(TokenTypes::EqualEqual)
                } else {
                    self.add_token(TokenTypes::Equal)
                }
            },
            '<' => {
                if self.match_next('=') {
                    self.add_token(TokenTypes::LessEqual)
                } else {
                    self.add_token(TokenTypes::Less)
                }
            },
            '>' => {
                if self.match_next('=') {
                    self.add_token(TokenTypes::GreaterEqual)
                } else {
                    self.add_token(TokenTypes::Greater)
                }
            },
            '/' => {
                if self.match_next('/') {
                    self.comment();
                } else {
                    self.add_token(TokenTypes::Slash)
                }
            },
            '\t' => (),
            '\r' => (),
            ' ' => (),
            '\n' => self.line = next_line(self.line),
            '"' => self.string(),
            _ => {
                if digit(chr) {
                    self.number()
                } else if letter(chr) {
                    self.identifier()
                } else {
                    self.report("Unexpected character.")
                }
            },
        }
    }

    /// Passes over the rest of a comment: everything up to the end of the line.
    fn comment(&mut self)
        requires
            old(self).well_formed(),
            old(self).current == old(self).start + 2,
        ensures
            final(self).well_formed(),
            final(self).source@ == old(self).source@,
            final(self).length == old(self).length,
            final(self).start == old(self).start,
            final(self).line == old(self).line,
            final(self).tokens@ == old(self).tokens@,
            final(self).errors@ == old(self).errors@,
            final(self).current == old(self).current + run(
                old(self).source@,
                old(self).current as int,
                |c: char| c != '\n',
            ),
    {
        while !self.is_at_end() && self.peek() != '\n'
            invariant
                self.source@ == old(self).source@,
                self.length == old(self).length,
                self.well_formed(),
                self.start == old(self).start,
                self.line == old(self).line,
                self.tokens@ == old(self).tokens@,
                self.errors@ == old(self).errors@,
                old(self).current <= self.current <= self.length,
                forall|k: int| old(self).current <= k < self.current ==> #[trigger] self.source@[k] != '\n',
            decreases self.length - self.current,
        {
            self.advance();
        }
        proof {
            lemma_run(
                self.source@,
                old(self).current as int,
                |c: char| c != '\n',
                (self.current - old(self).current) as nat,
            );
        }
    }

    /// Scans the rest of a word, and adds the keyword or identifier that it is.
    fn identifier(&mut self)
        requires
            old(self).well_formed(),
            old(self).current == old(self).start + 1,
        ensures
            final(self).well_formed(),
            final(self).source@ == old(self).source@,
            final(self).length == old(self).length,
            final(self).line == old(self).line,
            final(self).errors@ == old(self).errors@,
            final(self).current == old(self).current + word_step(
                old(self).source@,
                old(self).start as int,
                old(self).line,
            ).more,
            final(self).tokens() == old(self).tokens().push(
                word_step(old(self).source@, old(self).start as int, old(self).line).token->0,
            ),
    {
        while !self.is_at_end() && (self.peek().is_alphanumeric() || self.peek() == '_')
            invariant
                self.source@ == old(self).source@,
                self.length == old(self).length,
                self.well_formed(),
                self.start == old(self).start,
                self.line == old(self).line,
                self.tokens@ == old(self).tokens@,
                self.errors@ == old(self).errors@,
                old(self).current <= self.current <= self.length,
                forall|k: int| old(self).current <= k < self.current ==> in_word(#[trigger] self.source@[k]),
            decreases self.length - self.current,
        {
            self.advance();
        }
        proof {
            lemma_run(
                self.source@,
                old(self).current as int,
                |c: char| in_word(c),
                (self.current - old(self).current) as nat,
            );
        }
        let text = self.source.as_str().substring_char(self.start, self.current);
        match keyword_of(text) {
            Some(token_type) => self.add_token(token_type),
            None => self.add_token(TokenTypes::Identifier),
        }
    }

    /// Scans the rest of a number, and adds its token.
    fn number(&mut self)
        requires
            old(self).well_formed(),
            old(self).current == old(self).start + 1,
            is_digit(old(self).source@[old(self).start as int]),
        ensures
            final(self).well_formed(),
            final(self).source@ == old(self).source@,
            final(self).length == old(self).length,
            final(self).line == old(self).line,
            final(self).errors@ == old(self).errors@,
            final(self).current == old(self).current + number_more(
                old(self).source@,
                old(self).start as int,
            ),
            final(self).tokens() == old(self).tokens().push(
                number_step(old(self).source@, old(self).start as int, old(self).line).token->0,
            ),
    {
        let ghost src = self.source@;
        while digit(self.peek())
            invariant
                self.source@ == src,
                self.length == old(self).length,
                self.well_formed(),
                self.start == old(self).start,
                self.line == old(self).line,
                self.tokens@ == old(self).tokens@,
                self.errors@ == old(self).errors@,
                old(self).current <= self.current <= self.length,
                forall|k: int| old(self).current <= k < self.current ==> is_digit(#[trigger] src[k]),
            decreases self.length - self.current,
        {
            self.advance();
        }
        let ghost dot = self.current as int;
        proof {
            lemma_run(
                src,
                old(self).current as int,
                |c: char| is_digit(c),
                (self.current - old(self).current) as nat,
            );
        }
        if self.peek() == '.' && digit(self.peek_next(1)) {
            self.advance();
            while digit(self.peek())
                invariant
                    self.source@ == src,
                    self.length == old(self).length,
                    self.well_formed(),
                    self.start == old(self).start,
                    self.line == old(self).line,
                    self.tokens@ == old(self).tokens@,
                    self.errors@ == old(self).errors@,
                    dot + 1 <= self.current <= self.length,
                    forall|k: int| dot + 1 <= k < self.current ==> is_digit(#[trigger] src[k]),
                decreases self.length - self.current,
            {
                self.advance();
            }
            proof {
                lemma_run(src, dot + 1, |c: char| is_digit(c), (self.current - dot - 1) as nat);
            }
        }
        let text = self.source.as_str().substring_char(self.start, self.current);
        proof {
            let s = text@;
            let start = self.start as int;
            assert(forall|i: int| 0 <= i < s.len() ==> s[i] == src[start + i]);
            let split = dot - start;
            assert(forall|i: int| 0 <= i < split ==> is_digit(#[trigger] s[i]));
            if self.current > dot {
                assert(s[split] == '.');
                assert(forall|i: int| split + 1 <= i < s.len() ==> is_digit(#[trigger] s[i]));
            }
            assert(splits_at(s, split));
        }
        match parse_decimal(text) {
            Some(bits) => self.add_token_with_value(TokenTypes::Number, LiteralEnum::Number(bits)),
            None => {},
        }
    }

    /// Scans the rest of a string, and adds its token or refuses it.
    fn string(&mut self)
        requires
            old(self).well_formed(),
            old(self).current == old(self).start + 1,
        ensures
            final(self).well_formed(),
            final(self).source@ == old(self).source@,
            final(self).length == old(self).length,
            final(self).current == old(self).current + string_step(
                old(self).source@,
                old(self).start as int,
                old(self).line,
            ).more,
            final(self).line == string_step(
                old(self).source@,
                old(self).start as int,
                old(self).line,
            ).line,
            final(self).tokens() == (match string_step(
                old(self).source@,
                old(self).start as int,
                old(self).line,
            ).token {
                Some(t) => old(self).tokens().push(t),
                None => old(self).tokens(),
            }),
            final(self).errors() == (match string_step(
                old(self).source@,
                old(self).start as int,
                old(self).line,
            ).error {
                Some(e) => old(self).errors().push(e),
                None => old(self).errors(),
            }),
    {
        let ghost src = self.source@;
        let ghost first = old(self).current as int;
        while !self.is_at_end() && self.peek() != '"'
            invariant
                self.source@ == src,
                self.length == old(self).length,
                self.well_formed(),
                self.start == old(self).start,
                self.tokens@ == old(self).tokens@,
                self.errors@ == old(self).errors@,
                0 <= first <= self.current <= self.length,
                forall|k: int| first <= k < self.current ==> #[trigger] src[k] != '"',
                self.line == line_after(old(self).line, newlines(src, first, self.current as int)),
            decreases self.length - self.current,
        {
            if self.peek() == '\n' {
                self.line = next_line(self.line);
            }
            self.advance();
            assert(newlines(src, first, self.current as int) == newlines(
                src,
                first,
                self.current - 1,
            ) + if src[self.current - 1] == '\n' {
                1int
            } else {
                0int
            });
        }
        proof {
            lemma_run(src, first, |c: char| c != '"', (self.current - first) as nat);
        }
        if self.is_at_end() {
            self.report("Unterminated string.");
            return ;
        }
        self.advance();
        let value = self.source.as_str().substring_char(self.start + 1, self.current - 1);
        self.add_token_with_value(
            TokenTypes::String,
            LiteralEnum::String(String::from_str(value)),
        );
    }

    /// The character at which the scanner stands, the null character at the end.
    fn peek(&self) -> (r: char)
        requires
            self.well_formed(),
        ensures
            r == char_at(self.source@, self.current as int),
    {
        if self.is_at_end() {
            '\0'
        } else {
            self.source.as_str().get_char(self.current)
        }
    }

    /// The character `count` places after the one at which the scanner stands.
    fn peek_next(&self, count: usize) -> (r: char)
        requires
            self.well_formed(),
        ensures
            r == char_at(self.source@, self.current + count),
    {
        if count >= self.length - self.current {
            '\0'
        } else {
            self.source.as_str().get_char(self.current + count)
        }
    }

    /// Steps over the next character if it is `expected`.
    fn match_next(&mut self, expected: char) -> (r: bool)
        requires
            old(self).well_formed(),
        ensures
            final(self).well_formed(),
            final(self).source@ == old(self).source@,
            final(self).length == old(self).length,
            final(self).start == old(self).start,
            final(self).line == old(self).line,
            final(self).tokens@ == old(self).tokens@,
            final(self).errors@ == old(self).errors@,
            r == (old(self).current < old(self).length && old(self).source@[old(self).current as int]
                == expected),
            final(self).current == old(self).current + if r {
                1int
            } else {
                0int
            },
    {
        if self.is_at_end() {
            return false;
        }
        if self.source.as_str().get_char(self.current) != expected {
            return false;
        }
        self.current += 1;
        true
    }

    /// Steps over the next character and returns it.
    fn advance(&mut self) -> (r: char)
        requires
            old(self).well_formed(),
            old(self).current < old(self).length,
        ensures
            final(self).well_formed(),
            final(self).source@ == old(self).source@,
            final(self).length == old(self).length,
            final(self).start == old(self).start,
            final(self).line == old(self).line,
            final(self).tokens@ == old(self).tokens@,
            final(self).errors@ == old(self).errors@,
            final(self).current == old(self).current + 1,
            r == old(self).source@[old(self).current as int],
    {
        let chr = self.source.as_str().get_char(self.current);
        self.current += 1;
        chr
    }

    /// Adds a token without a value for the lexeme scanned.
    fn add_token(&mut self, token_type: TokenTypes)
        requires
            old(self).well_formed(),
        ensures
            final(self).well_formed(),
            final(self).source@ == old(self).source@,
            final(self).length == old(self).length,
            final(self).start == old(self).start,
            final(self).current == old(self).current,
            final(self).line == old(self).line,
            final(self).errors@ == old(self).errors@,
            final(self).tokens() == old(self).tokens().push(
                TokenValue {
                    token_type,
                    lexeme: old(self).source@.subrange(
                        old(self).start as int,
                        old(self).current as int,
                    ),
                    literal: None,
                    line: old(self).line,
                },
            ),
    {
        let text = String::from_str(self.source.as_str().substring_char(self.start, self.current));
        let token = Token::new(token_type, text, None, self.line);
        self.tokens.push(token);
        assert(token_values(self.tokens@) =~= token_values(old(self).tokens@).push(token@));
    }

    /// Adds a token with a value for the lexeme scanned.
    fn add_token_with_value(&mut self, token_type: TokenTypes, literal: LiteralEnum)
        requires
            old(self).well_formed(),
        ensures
            final(self).well_formed(),
            final(self).source@ == old(self).source@,
            final(self).length == old(self).length,
            final(self).start == old(self).start,
            final(self).current == old(self).current,
            final(self).line == old(self).line,
            final(self).errors@ == old(self).errors@,
            final(self).tokens() == old(self).tokens().push(
                TokenValue {
                    token_type,
                    lexeme: old(self).source@.subrange(
                        old(self).start as int,
                        old(self).current as int,
                    ),
                    literal: Some(literal@),
                    line: old(self).line,
                },
            ),
    {
        let text = String::from_str(self.source.as_str().substring_char(self.start, self.current));
        let token = Token::new(token_type, text, Some(literal), self.line);
        self.tokens.push(token);
        assert(token_values(self.tokens@) =~= token_values(old(self).tokens@).push(token@));
    }

    /// Records that the lexeme scanned cannot be a token.
    fn report(&mut self, message: &str)
        requires
            old(self).well_formed(),
        ensures
            final(self).well_formed(),
            final(self).source@ == old(self).source@,
            final(self).length == old(self).length,
            final(self).start == old(self).start,
            final(self).current == old(self).current,
            final(self).line == old(self).line,
            final(self).tokens@ == old(self).tokens@,
            final(self).errors() == old(self).errors().push(
                Failure::ParseError(
                    ErrorValue {
                        line: old(self).line,
                        place: old(self).source@.subrange(
                            old(self).start as int,
                            old(self).current as int,
                        ),
                        message: message@,
                    },
                ),
            ),
    {
        let text = String::from_str(self.source.as_str().substring_char(self.start, self.current));
        let error = JBreadErrors::ParseError(Error::new(self.line, text, String::from_str(message)));
        self.errors.push(error);
        assert(failures(self.errors@) =~= failures(old(self).errors@).push(error@));
    }
}

/// The line after `line`; line numbers stop at `u32::MAX`.
fn next_line(line: u32) -> (r: u32)
    ensures
        r == line_after(line, 1),
{
    if line < u32::MAX {
        line + 1
    } else {
        line
    }
}

/// Whether `c` is an ASCII decimal digit.
fn digit(c: char) -> (r: bool)
    ensures
        r == is_digit(c),
{
    '0' <= c && c <= '9'
}

/// Whether `c` may start an identifier.
fn letter(c: char) -> (r: bool)
    ensures
        r == starts_word(c),
{
    ('a' <= c && c <= 'z') || ('A' <= c && c <= 'Z') || c == '_'
}

/// Whether two texts are the same, character by character.
fn same_text(a: &str, b: &str) -> (r: bool)
    ensures
        r == (a@ == b@),
{
    let n = a.unicode_len();
    if n != b.unicode_len() {
        return false;
    }
    let mut i: usize = 0;
    while i < n
        invariant
            n == a@.len(),
            n == b@.len(),
            i <= n,
            forall|k: int| 0 <= k < i ==> a@[k] == b@[k],
        decreases n - i,
    {
        if a.get_char(i) != b.get_char(i) {
            return false;
        }
        i += 1;
    }
    assert(a@ =~= b@);
    true
}

/// The keyword that `text` is, if it is one.
fn keyword_of(text: &str) -> (r: Option<TokenTypes>)
    ensures
        r == keyword(text@),
{
    if same_text(text, "and") {
        Some(TokenTypes::And)
    } else if same_text(text, "class") {
        Some(TokenTypes::Class)
    } else if same_text(text, "else") {
        Some(TokenTypes::Else)
    } else if same_text(text, "false") {
        Some(TokenTypes::False)
    } else if same_text(text, "for") {
        Some(TokenTypes::For)
    } else if same_text(text, "fun") {
        Some(TokenTypes::Fun)
    } else if same_text(text, "if") {
        Some(TokenTypes::If)
    } else if same_text(text, "nil") {
        Some(TokenTypes::Nil)
    } else if same_text(text, "or") {
        Some(TokenTypes::Or)
    } else if same_text(text, "print") {
        Some(TokenTypes::Print)
    } else if same_text(text, "return") {
        Some(TokenTypes::Return)
    } else if same_text(text, "super") {
        Some(TokenTypes::Super)
    } else if same_text(text, "this") {
        Some(TokenTypes::This)
    } else if same_text(text, "true") {
        Some(TokenTypes::True)
    } else if same_text(text, "var") {
        Some(TokenTypes::Var)
    } else if same_text(text, "while") {
        Some(TokenTypes::While)
    } else {
        None
    }
}

} // verus!
