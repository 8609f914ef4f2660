use jbread::errors::JBreadErrors;
use jbread::scanner::Scanner;
use jbread::token::Literal as LiteralEnum;
use jbread::token::Token;
use jbread::token::TokenTypes;

fn number(value: f64) -> Option<LiteralEnum> {
    Some(LiteralEnum::Number(value.to_bits()))
}

fn kinds(source: &str) -> Vec<TokenTypes> {
    let mut scanner = Scanner::new(source);
    scanner.scan_tokens().iter().map(|t| t.token_type).collect()
}

fn lexemes(source: &str) -> Vec<String> {
    let mut scanner = Scanner::new(source);
    scanner.scan_tokens().iter().map(|t| t.lexeme.clone()).collect()
}

#[test]
fn test_scanner_addition() {
    let mut scanner = Scanner::new("1 + 2");
    let tokens = scanner.scan_tokens().iter().collect::<Vec<&Token>>();
    assert_eq!(tokens.len(), 4);
    assert_eq!(
        tokens,
        vec![
            &Token {
                token_type: TokenTypes::Number,
                literal: number(1.0),
                lexeme: "1".to_string(),
                line: 1
            },
            &Token {
                token_type: TokenTypes::Plus,
                literal: None,
                lexeme: "+".to_string(),
                line: 1
            },
            &Token {
                token_type: TokenTypes::Number,
                literal: number(2.0),
                lexeme: "2".to_string(),
                line: 1
            },
            &Token {
                token_type: TokenTypes::Eof,
                literal: None,
                lexeme: "".to_string(),
                line: 1
            }
        ]
    );
}

#[test]
fn test_scanner_comments() {
    let mut scanner = Scanner::new("// This is a comment");
    let tokens: Vec<&Token> = scanner.scan_tokens().iter().collect();
    assert_eq!(tokens.len(), 1);
    assert_eq!(
        tokens,
        vec![&Token {
            token_type: TokenTypes::Eof,
            literal: None,
            lexeme: "".to_string(),
            line: 1
        }]
    );
}

#[test]
fn test_scanner_string() {
    let mut scanner = Scanner::new("\"This is a string\"");
    let tokens: Vec<&Token> = scanner.scan_tokens().iter().collect();
    assert_eq!(tokens.len(), 2);
    assert_eq!(
        tokens,
        vec![
            &Token {
                token_type: TokenTypes::String,
                literal: Some(LiteralEnum::String("This is a string".to_string())),
                lexeme: "\"This is a string\"".to_string(),
                line: 1
            },
            &Token {
                token_type: TokenTypes::Eof,
                literal: None,
                lexeme: "".to_string(),
                line: 1
            }
        ]
    );
}

#[test]
fn scanner_short_comment_gives_end_of_input_only() {
    assert_eq!(kinds("// comment"), vec![TokenTypes::Eof]);
}

#[test]
fn scanner_empty_source() {
    let mut scanner = Scanner::new("");
    let tokens = scanner.scan_tokens();
    assert_eq!(tokens.len(), 1);
    assert_eq!(tokens[0], Token::new(TokenTypes::Eof, String::new(), None, 1));
    assert!(scanner.diagnostics().is_empty());
    let mut empty = Scanner::default();
    assert_eq!(empty.scan_tokens().len(), 1);
}

#[test]
fn scanner_single_character_tokens() {
    assert_eq!(
        kinds("(){},.-+;*/"),
        vec![
            TokenTypes::LeftParen,
            TokenTypes::RightParen,
            TokenTypes::LeftBrace,
            TokenTypes::RightBrace,
            TokenTypes::Comma,
            TokenTypes::Dot,
            TokenTypes::Minus,
            TokenTypes::Plus,
            TokenTypes::Semicolon,
            TokenTypes::Star,
            TokenTypes::Slash,
            TokenTypes::Eof,
        ]
    );
}

#[test]
fn scanner_takes_the_longer_operator() {
    assert_eq!(
        kinds("! != = == < <= > >="),
        vec![
            TokenTypes::Bang,
            TokenTypes::BangEqual,
            TokenTypes::Equal,
            TokenTypes::EqualEqual,
            TokenTypes::Less,
            TokenTypes::LessEqual,
            TokenTypes::Greater,
            TokenTypes::GreaterEqual,
            TokenTypes::Eof,
        ]
    );
    assert_eq!(lexemes("!==="), vec!["!=", "==", ""]);
    assert_eq!(lexemes("<=>"), vec!["<=", ">", ""]);
    assert_eq!(kinds("!"), vec![TokenTypes::Bang, TokenTypes::Eof]);
}

#[test]
fn scanner_keywords_and_identifiers() {
    assert_eq!(
        kinds("and class else false for fun if nil or print return super this true var while"),
        vec![
            TokenTypes::And,
            TokenTypes::Class,
            TokenTypes::Else,
            TokenTypes::False,
            TokenTypes::For,
            TokenTypes::Fun,
            TokenTypes::If,
            TokenTypes::Nil,
            TokenTypes::Or,
            TokenTypes::Print,
            TokenTypes::Return,
            TokenTypes::Super,
            TokenTypes::This,
            TokenTypes::True,
            TokenTypes::Var,
            TokenTypes::While,
            TokenTypes::Eof,
        ]
    );
    assert_eq!(
        kinds("variable _x a1 orchid nan NaN Var"),
        vec![
            TokenTypes::Identifier,
            TokenTypes::Identifier,
            TokenTypes::Identifier,
            TokenTypes::Identifier,
            TokenTypes::Identifier,
            TokenTypes::Identifier,
            TokenTypes::Identifier,
            TokenTypes::Eof,
        ]
    );
    assert_eq!(lexemes("a_b2 c"), vec!["a_b2", "c", ""]);
    assert_eq!(lexemes("caf\u{e9}9 x"), vec!["caf\u{e9}9", "x", ""]);
}

#[test]
fn scanner_numbers() {
    let mut scanner = Scanner::new("12.5 7. .5 0.25 10");
    let tokens = scanner.scan_tokens();
    let got: Vec<(TokenTypes, String, Option<LiteralEnum>)> =
        tokens.iter().map(|t| (t.token_type, t.lexeme.clone(), t.literal.clone())).collect();
    assert_eq!(
        got,
        vec![
            (TokenTypes::Number, "12.5".to_string(), number(12.5)),
            (TokenTypes::Number, "7".to_string(), number(7.0)),
            (TokenTypes::Dot, ".".to_string(), None),
            (TokenTypes::Dot, ".".to_string(), None),
            (TokenTypes::Number, "5".to_string(), number(5.0)),
            (TokenTypes::Number, "0.25".to_string(), number(0.25)),
            (TokenTypes::Number, "10".to_string(), number(10.0)),
            (TokenTypes::Eof, "".to_string(), None),
        ]
    );
}

#[test]
fn scanner_number_values_are_correctly_rounded() {
    for text in ["0.1", "3.14159", "123456789012345678901234567890", "0.000001", "1.7976931348623157", "9007199254740993"] {
        let mut scanner = Scanner::new(text);
        let tokens = scanner.scan_tokens();
        let expected: f64 = text.parse().unwrap();
        assert_eq!(tokens[0].literal, number(expected), "{}", text);
        assert_eq!(tokens[0].lexeme, text);
    }
}

#[test]
fn scanner_counts_lines() {
    let mut scanner = Scanner::new("a\nb\n\n  c // d\ne");
    let lines: Vec<u32> = scanner.scan_tokens().iter().map(|t| t.line).collect();
    assert_eq!(lines, vec![1, 2, 4, 5, 5]);
}

#[test]
fn scanner_multi_line_string_stands_on_its_last_line() {
    let mut scanner = Scanner::new("\"a\nb\" x");
    let tokens = scanner.scan_tokens();
    assert_eq!(tokens.len(), 3);
    assert_eq!(tokens[0].token_type, TokenTypes::String);
    assert_eq!(tokens[0].literal, Some(LiteralEnum::String("a\nb".to_string())));
    assert_eq!(tokens[0].lexeme, "\"a\nb\"");
    assert_eq!(tokens[0].line, 2);
    assert_eq!(tokens[1].line, 2);
    assert_eq!(tokens[2].line, 2);
}

#[test]
fn scanner_reports_unterminated_string_and_goes_on() {
    let mut scanner = Scanner::new("1 \"abc\nd");
    let tokens: Vec<TokenTypes> = scanner.scan_tokens().iter().map(|t| t.token_type).collect();
    assert_eq!(tokens, vec![TokenTypes::Number, TokenTypes::Eof]);
    let diagnostics = scanner.diagnostics();
    assert_eq!(diagnostics.len(), 1);
    match &diagnostics[0] {
        JBreadErrors::ParseError(e) => {
            assert_eq!(e.message(), "Unterminated string.");
            assert_eq!(e.line(), 2);
            assert_eq!(e.place(), "\"abc\nd");
        }
        JBreadErrors::RunTimeException(_) => panic!("wrong kind"),
    }
}

#[test]
fn scanner_reports_unexpected_characters_and_goes_on() {
    let mut scanner = Scanner::new("1 @ 2\n# 3");
    let tokens: Vec<String> = scanner.scan_tokens().iter().map(|t| t.lexeme.clone()).collect();
    assert_eq!(tokens, vec!["1", "2", "3", ""]);
    let found: Vec<(u32, String, String)> = scanner
        .diagnostics()
        .iter()
        .map(|d| match d {
            JBreadErrors::ParseError(e) => (e.line(), e.place().to_string(), e.message().to_string()),
            JBreadErrors::RunTimeException(_) => panic!("wrong kind"),
        })
        .collect();
    assert_eq!(
        found,
        vec![
            (1, "@".to_string(), "Unexpected character.".to_string()),
            (2, "#".to_string(), "Unexpected character.".to_string()),
        ]
    );
    let taken = scanner.take_diagnostics();
    assert_eq!(taken.len(), 2);
    assert!(scanner.diagnostics().is_empty());
}

#[test]
fn scanner_scanning_again_adds_one_more_end_of_input() {
    let mut scanner = Scanner::new("x");
    assert_eq!(scanner.scan_tokens().len(), 2);
    let again: Vec<TokenTypes> = scanner.scan_tokens().iter().map(|t| t.token_type).collect();
    assert_eq!(again, vec![TokenTypes::Identifier, TokenTypes::Eof, TokenTypes::Eof]);
}

#[test]
fn scanner_comment_ends_at_the_line_end() {
    assert_eq!(lexemes("a // b c\nd"), vec!["a", "d", ""]);
    assert_eq!(kinds("/ /"), vec![TokenTypes::Slash, TokenTypes::Slash, TokenTypes::Eof]);
}
