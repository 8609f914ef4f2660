use jbread::ast::Assign;
use jbread::ast::Binary;
use jbread::ast::Block;
use jbread::ast::Expr;
use jbread::ast::Expression;
use jbread::ast::Grouping;
use jbread::ast::Literal;
use jbread::ast::Print;
use jbread::ast::Stmt;
use jbread::ast::Unary;
use jbread::ast::Var;
use jbread::parser::Parser;
use jbread::token::Literal as LiteralEnum;
use jbread::token::Token;
use jbread::token::TokenTypes;

#[test]
fn test_literal_bool() {
    let tokens = vec![
        Token::new(
            TokenTypes::True,
            "true".to_string(),
            Some(LiteralEnum::Boolean(true)),
            1,
        ),
        Token::new(TokenTypes::Eof, "".to_string(), None, 1),
    ];
    let mut parser = Parser::new(&tokens);

    let parsed_literal_true = parser.expression();
    assert!(parsed_literal_true.is_ok(), "Failed to parse true literal");
    assert_eq!(
        parsed_literal_true.unwrap(),
        Expr::Literal(Literal {
            value: Some(LiteralEnum::Boolean(true))
        }),
        "Parsed literal bool is not equal to expected literal true"
    );

    let tokens = vec![
        Token::new(
            TokenTypes::False,
            "false".to_string(),
            Some(LiteralEnum::Boolean(false)),
            1,
        ),
        Token::new(TokenTypes::Eof, "".to_string(), None, 1),
    ];
    let mut parser = Parser::new(&tokens);

    let parsed_literal_false = parser.expression();
    assert!(
        parsed_literal_false.is_ok(),
        "Failed to parse false literal"
    );
    assert_eq!(
        parsed_literal_false.unwrap(),
        Expr::Literal(Literal {
            value: Some(LiteralEnum::Boolean(false))
        }),
        "Parsed literal bool is not equal to expected literal false"
    );
}

#[test]
fn test_literal_nil() {
    let tokens = vec![
        Token::new(TokenTypes::Nil, "nil".to_string(), None, 1),
        Token::new(TokenTypes::Eof, "".to_string(), None, 1),
    ];
    let mut parser = Parser::new(&tokens);

    let parsed_literal_nil = parser.expression();
    assert!(parsed_literal_nil.is_ok(), "Failed to parse nil literal");
    assert_eq!(
        parsed_literal_nil.unwrap(),
        Expr::Literal(Literal { value: None }),
        "Parsed literal nil is not equal to expected literal nil"
    );
}

#[test]
fn test_literal_nan() {
    let tokens = vec![
        Token::new(TokenTypes::NaN, "nan".to_string(), None, 1),
        Token::new(TokenTypes::Eof, "".to_string(), None, 1),
    ];
    let mut parser = Parser::new(&tokens);

    let parsed_literal_nan = parser.expression();
    assert!(parsed_literal_nan.is_ok(), "Failed to parse nan literal");
    assert_eq!(
        parsed_literal_nan.unwrap(),
        Expr::Literal(Literal {
            value: Some(LiteralEnum::NaN)
        }),
        "Parsed literal nan is not equal to expected literal nan"
    );
}

#[test]
fn test_literal_string() {
    let tokens = vec![
        Token::new(
            TokenTypes::String,
            "test".to_string(),
            Some(LiteralEnum::String("test".to_string())),
            1,
        ),
        Token::new(TokenTypes::Eof, "".to_string(), None, 1),
    ];
    let mut parser = Parser::new(&tokens);

    let parsed_literal_string = parser.expression();
    assert!(
        parsed_literal_string.is_ok(),
        "Failed to parse string literal"
    );
    assert_eq!(
        parsed_literal_string.unwrap(),
        Expr::Literal(Literal {
            value: Some(LiteralEnum::String("test".to_string()))
        }),
        "Parsed literal string is not equal to expected literal string"
    );
}

#[test]
fn test_literal_number() {
    let tokens = vec![
        Token::new(
            TokenTypes::Number,
            "1".to_string(),
            Some(LiteralEnum::Number((1.0f64).to_bits())),
            1,
        ),
        Token::new(TokenTypes::Eof, "".to_string(), None, 1),
    ];
    let mut parser = Parser::new(&tokens);

    let parsed_literal_number = parser.expression();
    assert!(
        parsed_literal_number.is_ok(),
        "Failed to parse number literal"
    );
    assert_eq!(
        parsed_literal_number.unwrap(),
        Expr::Literal(Literal {
            value: Some(LiteralEnum::Number((1.0f64).to_bits()))
        }),
        "Parsed literal number is not equal to expected literal number"
    );
}

#[test]
fn test_unary() {
    let tokens = vec![
        Token::new(TokenTypes::Minus, "-".to_string(), None, 1),
        Token::new(
            TokenTypes::Number,
            "1".to_string(),
            Some(LiteralEnum::Number((1.0f64).to_bits())),
            1,
        ),
        Token::new(TokenTypes::Eof, "".to_string(), None, 1),
    ];
    let mut parser = Parser::new(&tokens);

    let parsed_unary = parser.expression();
    assert!(parsed_unary.is_ok(), "Failed to parse unary");
    assert_eq!(
        parsed_unary.unwrap(),
        Expr::Unary(Unary {
            operator: Token::new(TokenTypes::Minus, "-".to_string(), None, 1),
            right: Box::new(Expr::Literal(Literal {
                value: Some(LiteralEnum::Number((1.0f64).to_bits()))
            }))
        }),
        "Parsed unary is not equal to expected unary"
    );
}

#[test]
fn parser_test_grouping() {
    let tokens = vec![
        Token::new(TokenTypes::LeftParen, "(".to_string(), None, 1),
        Token::new(
            TokenTypes::Number,
            "1".to_string(),
            Some(LiteralEnum::Number((1.0f64).to_bits())),
            1,
        ),
        Token::new(TokenTypes::RightParen, ")".to_string(), None, 1),
        Token::new(TokenTypes::Eof, "".to_string(), None, 1),
    ];
    let mut parser = Parser::new(&tokens);

    let parsed_grouping = parser.expression();
    assert!(parsed_grouping.is_ok(), "Failed to parse grouping");
    assert_eq!(
        parsed_grouping.unwrap(),
        Expr::Grouping(Grouping {
            expression: Box::new(Expr::Literal(Literal {
                value: Some(LiteralEnum::Number((1.0f64).to_bits()))
            }))
        }),
        "Parsed grouping is not equal to expected grouping"
    );
}

#[test]
fn test_binary() {
    let tokens = vec![
        Token::new(
            TokenTypes::Number,
            "1".to_string(),
            Some(LiteralEnum::Number((1.0f64).to_bits())),
            1,
        ),
        Token::new(TokenTypes::Plus, "+".to_string(), None, 1),
        Token::new(
            TokenTypes::Number,
            "1".to_string(),
            Some(LiteralEnum::Number((1.0f64).to_bits())),
            1,
        ),
        Token::new(TokenTypes::Eof, "".to_string(), None, 1),
    ];
    let mut parser = Parser::new(&tokens);

    let parsed_binary = parser.expression();
    assert!(parsed_binary.is_ok(), "Failed to parse binary");
    assert_eq!(
        parsed_binary.unwrap(),
        Expr::Binary(Binary {
            left: Box::new(Expr::Literal(Literal {
                value: Some(LiteralEnum::Number((1.0f64).to_bits()))
            })),
            operator: Token::new(TokenTypes::Plus, "+".to_string(), None, 1),
            right: Box::new(Expr::Literal(Literal {
                value: Some(LiteralEnum::Number((1.0f64).to_bits()))
            }))
        }),
        "Parsed binary is not equal to expected binary"
    );
}

#[test]
fn test_var_decl() {
    let tokens = vec![
        Token::new(TokenTypes::Var, "var".to_string(), None, 1),
        Token::new(TokenTypes::Identifier, "test".to_string(), None, 1),
        Token::new(TokenTypes::Equal, "=".to_string(), None, 1),
        Token::new(
            TokenTypes::Number,
            "1".to_string(),
            Some(LiteralEnum::Number((1.0f64).to_bits())),
            1,
        ),
        Token::new(TokenTypes::Semicolon, ";".to_string(), None, 1),
    ];
    let mut parser = Parser::new(&tokens);

    let parsed_var_decl = parser.statement();

    assert!(parsed_var_decl.is_ok(), "Failed to parse var decl");
    assert_eq!(
        parsed_var_decl.unwrap(),
        Stmt::Var(Var {
            name: Token::new(TokenTypes::Identifier, "test".to_string(), None, 1),
            initializer: Some(Box::new(Expr::Literal(Literal {
                value: Some(LiteralEnum::Number((1.0f64).to_bits()))
            })))
        }),
        "Parsed var decl is not equal to expected var decl"
    );
}

#[test]
fn test_var_assign() {
    let tokens = vec![
        Token::new(TokenTypes::Identifier, "test".to_string(), None, 1),
        Token::new(TokenTypes::Equal, "=".to_string(), None, 1),
        Token::new(
            TokenTypes::Number,
            "1".to_string(),
            Some(LiteralEnum::Number((1.0f64).to_bits())),
            1,
        ),
        Token::new(TokenTypes::Semicolon, ";".to_string(), None, 1),
    ];
    let mut parser = Parser::new(&tokens);

    let parsed_var_assign = parser.expression();
    assert!(parsed_var_assign.is_ok(), "Failed to parse var assign");
    assert_eq!(
        parsed_var_assign.unwrap(),
        Expr::Assign(Assign {
            name: Token::new(TokenTypes::Identifier, "test".to_string(), None, 1),
            value: Box::new(Expr::Literal(Literal {
                value: Some(LiteralEnum::Number((1.0f64).to_bits()))
            }))
        }),
        "Parsed var assign is not equal to expected var assign"
    );
}

#[test]
fn test_print() {
    let tokens = vec![
        Token::new(TokenTypes::Print, "print".to_string(), None, 1),
        Token::new(
            TokenTypes::Number,
            "1".to_string(),
            Some(LiteralEnum::Number((1.0f64).to_bits())),
            1,
        ),
        Token::new(TokenTypes::Semicolon, ";".to_string(), None, 1),
    ];
    let mut parser = Parser::new(&tokens);

    let parsed_print = parser.statement();
    assert!(parsed_print.is_ok(), "Failed to parse print");
    assert_eq!(
        parsed_print.unwrap(),
        Stmt::Print(Print {
            expression: Box::new(Expr::Literal(Literal {
                value: Some(LiteralEnum::Number((1.0f64).to_bits()))
            }))
        }),
        "Parsed print is not equal to expected print"
    );
}

#[test]
fn test_stmt_expression() {
    let tokens = vec![
        Token::new(
            TokenTypes::Number,
            "1".to_string(),
            Some(LiteralEnum::Number((1.0f64).to_bits())),
            1,
        ),
        Token::new(TokenTypes::Semicolon, ";".to_string(), None, 1),
    ];
    let mut parser = Parser::new(&tokens);

    let parsed_stmt_expression = parser.statement();
    assert!(
        parsed_stmt_expression.is_ok(),
        "Failed to parse stmt expression"
    );
    assert_eq!(
        parsed_stmt_expression.unwrap(),
        Stmt::Expression(Expression {
            expression: Box::new(Expr::Literal(Literal {
                value: Some(LiteralEnum::Number((1.0f64).to_bits()))
            }))
        }),
        "Parsed stmt expression is not equal to expected stmt expression"
    );
}

#[test]
fn test_block() {
    let tokens = vec![
        Token::new(TokenTypes::LeftBrace, "{".to_string(), None, 1),
        Token::new(TokenTypes::RightBrace, "}".to_string(), None, 1),
    ];
    let mut parser = Parser::new(&tokens);

    let parsed_block = parser.statement();

    assert!(parsed_block.is_ok(), "Failed to parse block");
    assert_eq!(
        parsed_block.unwrap(),
        Stmt::Block(Block { statements: vec![] }),
        "Parsed block is not equal to expected block"
    );
}
