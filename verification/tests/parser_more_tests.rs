use jbread::ast::Assign;
use jbread::ast::Binary;
use jbread::ast::Block;
use jbread::ast::Expr;
use jbread::ast::Expression;
use jbread::ast::Literal;
use jbread::ast::Print;
use jbread::ast::Stmt;
use jbread::ast::Var;
use jbread::ast::Variable;
use jbread::errors::JBreadErrors;
use jbread::parser::ParseExpr;
use jbread::parser::ParseStmt;
use jbread::parser::Parser;
use jbread::scanner::Scanner;
use jbread::token::Literal as LiteralEnum;
use jbread::token::Token;
use jbread::token::TokenTypes;

fn scan(source: &str) -> Vec<Token> {
    let mut scanner = Scanner::new(source);
    scanner.scan_tokens().clone()
}

fn program(source: &str) -> Result<Vec<Stmt>, JBreadErrors> {
    let tokens = scan(source);
    let mut parser = Parser::new(&tokens);
    parser.parse()
}

fn parse_failure(source: &str) -> (u32, String, String) {
    match program(source) {
        Err(JBreadErrors::ParseError(e)) => (e.line(), e.place().to_string(), e.message().to_string()),
        Err(JBreadErrors::RunTimeException(_)) => panic!("wrong kind of failure"),
        Ok(_) => panic!("parsed"),
    }
}

fn number(value: f64) -> Expr {
    Expr::Literal(Literal { value: Some(LiteralEnum::Number(value.to_bits())) })
}

fn identifier(name: &str, line: u32) -> Token {
    Token::new(TokenTypes::Identifier, name.to_string(), None, line)
}

#[test]
fn parser_program_of_several_statements() {
    let statements = program("var a = 1;\nprint a;\n{ a = 2; }\na;").unwrap();
    assert_eq!(
        statements,
        vec![
            Stmt::Var(Var { name: identifier("a", 1), initializer: Some(Box::new(number(1.0))) }),
            Stmt::Print(Print {
                expression: Box::new(Expr::Variable(Variable { name: identifier("a", 2) }))
            }),
            Stmt::Block(Block {
                statements: vec![Stmt::Expression(Expression {
                    expression: Box::new(Expr::Assign(Assign {
                        name: identifier("a", 3),
                        value: Box::new(number(2.0)),
                    }))
                })]
            }),
            Stmt::Expression(Expression {
                expression: Box::new(Expr::Variable(Variable { name: identifier("a", 4) }))
            }),
        ]
    );
}

#[test]
fn parser_empty_program() {
    assert_eq!(program("").unwrap(), vec![]);
    assert_eq!(program("// nothing\n").unwrap(), vec![]);
    let none: Vec<Token> = vec![];
    let mut parser = Parser::new(&none);
    assert_eq!(parser.parse().unwrap(), vec![]);
}

#[test]
fn parser_declaration_without_initializer() {
    assert_eq!(
        program("var a;").unwrap(),
        vec![Stmt::Var(Var { name: identifier("a", 1), initializer: None })]
    );
}

#[test]
fn parser_nested_blocks() {
    let statements = program("{ { } { 1; } }").unwrap();
    assert_eq!(
        statements,
        vec![Stmt::Block(Block {
            statements: vec![
                Stmt::Block(Block { statements: vec![] }),
                Stmt::Block(Block {
                    statements: vec![Stmt::Expression(Expression {
                        expression: Box::new(number(1.0))
                    })]
                }),
            ]
        })]
    );
}

#[test]
fn parser_binary_operators_associate_to_the_left() {
    let tokens = scan("8 / 4 / 2");
    let mut parser = Parser::new(&tokens);
    let slash = Token::new(TokenTypes::Slash, "/".to_string(), None, 1);
    assert_eq!(
        parser.expression().unwrap(),
        Expr::Binary(Binary {
            left: Box::new(Expr::Binary(Binary {
                left: Box::new(number(8.0)),
                operator: slash.clone(),
                right: Box::new(number(4.0)),
            })),
            operator: slash,
            right: Box::new(number(2.0)),
        })
    );
}

#[test]
fn parser_missing_semicolon() {
    assert_eq!(
        parse_failure("1 + 2"),
        (1, "".to_string(), "Expect ';' after expression.".to_string())
    );
    assert_eq!(
        parse_failure("print 1\n2;"),
        (2, "2".to_string(), "Expect ';' after value.".to_string())
    );
    assert_eq!(
        parse_failure("var a = 1 }"),
        (1, "}".to_string(), "Expected ';' after variable declaration".to_string())
    );
    assert_eq!(
        parse_failure("var a b;"),
        (1, "b".to_string(), "Expected ';' after variable declaration".to_string())
    );
}

#[test]
fn parser_missing_variable_name() {
    assert_eq!(
        parse_failure("var 1 = 2;"),
        (1, "1".to_string(), "Expected a variable name".to_string())
    );
    assert_eq!(parse_failure("var"), (1, "".to_string(), "Expected a variable name".to_string()));
}

#[test]
fn parser_invalid_assignment_target() {
    assert_eq!(
        parse_failure("1 = 2;"),
        (1, "=".to_string(), "Invalid assignment target".to_string())
    );
    assert_eq!(
        parse_failure("a + b = 2;"),
        (1, "=".to_string(), "Invalid assignment target".to_string())
    );
    assert_eq!(
        parse_failure("(a) = 2;"),
        (1, "=".to_string(), "Invalid assignment target".to_string())
    );
}

#[test]
fn parser_missing_right_parenthesis_is_a_failure() {
    assert_eq!(
        parse_failure("(1 + 2;"),
        (1, ";".to_string(), "Expect ')' after expression.".to_string())
    );
    assert_eq!(
        parse_failure("\n(1"),
        (2, "".to_string(), "Expect ')' after expression.".to_string())
    );
}

#[test]
fn parser_missing_right_brace() {
    assert_eq!(
        parse_failure("{ 1;\n2;\n"),
        (3, "".to_string(), "Expect '}' after block.".to_string())
    );
}

#[test]
fn parser_unexpected_token_where_an_expression_should_start() {
    assert_eq!(parse_failure("1 + ;"), (1, "+".to_string(), "Expected Expression".to_string()));
    assert_eq!(parse_failure("print ;"), (1, "print".to_string(), "Expected Expression".to_string()));
    assert_eq!(parse_failure(";"), (1, ";".to_string(), "Expected Expression".to_string()));
    assert_eq!(parse_failure("}"), (1, "}".to_string(), "Expected Expression".to_string()));
    assert_eq!(parse_failure("-"), (1, "-".to_string(), "Expected Expression".to_string()));
}

#[test]
fn parser_stops_at_the_first_failure() {
    assert_eq!(
        parse_failure("1;\n2 3;\n4 5;"),
        (2, "3".to_string(), "Expect ';' after expression.".to_string())
    );
}

#[test]
fn parser_without_end_of_input_token() {
    let tokens = vec![
        Token::new(TokenTypes::Number, "1".to_string(), Some(LiteralEnum::Number(1.0f64.to_bits())), 7),
        Token::new(TokenTypes::Plus, "+".to_string(), None, 7),
    ];
    let mut parser = Parser::new(&tokens);
    match parser.expression() {
        Err(JBreadErrors::ParseError(e)) => {
            assert_eq!(e.message(), "Expected Expression");
            assert_eq!(e.place(), "+");
            assert_eq!(e.line(), 7);
        }
        _ => panic!("no parse failure"),
    }
    let one = vec![Token::new(
        TokenTypes::Number,
        "1".to_string(),
        Some(LiteralEnum::Number(1.0f64.to_bits())),
        7,
    )];
    let mut parser = Parser::new(&one);
    match parser.statement() {
        Err(JBreadErrors::ParseError(e)) => {
            assert_eq!(e.message(), "Expect ';' after expression.");
            assert_eq!(e.place(), "");
            assert_eq!(e.line(), 7);
        }
        _ => panic!("no parse failure"),
    }
}

#[test]
fn parser_rules_can_be_called_one_by_one() {
    let tokens = scan("1 * 2 + 3 < 4 == true");
    assert!(matches!(Parser::new(&tokens).primary(), Ok(Expr::Literal(_))));
    assert!(matches!(Parser::new(&tokens).unary(), Ok(Expr::Literal(_))));
    let star = |e: Expr| matches!(e, Expr::Binary(Binary { operator, .. }) if operator.lexeme == "*");
    let plus = |e: Expr| matches!(e, Expr::Binary(Binary { operator, .. }) if operator.lexeme == "+");
    let less = |e: Expr| matches!(e, Expr::Binary(Binary { operator, .. }) if operator.lexeme == "<");
    let same = |e: Expr| matches!(e, Expr::Binary(Binary { operator, .. }) if operator.lexeme == "==");
    assert!(star(Parser::new(&tokens).factor().unwrap()));
    assert!(plus(Parser::new(&tokens).term().unwrap()));
    assert!(less(Parser::new(&tokens).comparison().unwrap()));
    assert!(same(Parser::new(&tokens).equality().unwrap()));
    assert!(same(Parser::new(&tokens).assignment().unwrap()));
    let tokens = scan("print 1; var a; 2; }");
    let mut parser = Parser::new(&tokens);
    assert!(parser.expression().is_err());
    let tokens = scan("1; a = 2; x }");
    let mut parser = Parser::new(&tokens);
    assert!(matches!(parser.expression_statement(), Ok(Stmt::Expression(_))));
    assert!(matches!(parser.print_statement(), Ok(Stmt::Print(_))));
    assert!(parser.var_decleration().is_err());
    let tokens = scan("1; 2; } 3;");
    let mut parser = Parser::new(&tokens);
    match parser.block_statement() {
        Ok(Stmt::Block(Block { statements })) => assert_eq!(statements.len(), 2),
        _ => panic!("no block"),
    }
    assert!(matches!(parser.statement(), Ok(Stmt::Expression(_))));
}

#[test]
fn statements_can_be_copied() {
    let statements = program("var a = 1; { print a + 2; { a = -a; } var b; } (a);").unwrap();
    let copies = statements.clone();
    assert_eq!(copies, statements);
    for statement in &statements {
        assert_eq!(&statement.clone(), statement);
    }
    match &statements[1] {
        Stmt::Block(block) => assert_eq!(block.clone().statements.len(), 3),
        _ => panic!("no block"),
    }
}

fn first_expression<P: ParseExpr>(parser: &mut P) -> Result<Expr, JBreadErrors> {
    parser.expression()
}

fn first_statement<P: ParseStmt>(parser: &mut P) -> Result<Stmt, JBreadErrors> {
    parser.statement()
}

#[test]
fn parser_through_its_traits() {
    let tokens = scan("1 + 2; print 3; { } 4;");
    let mut parser = Parser::new(&tokens);
    assert!(matches!(first_expression(&mut parser), Ok(Expr::Binary(_))));
    assert!(first_statement(&mut parser).is_err());
    let mut parser = Parser::new(&tokens);
    assert!(matches!(first_statement(&mut parser), Ok(Stmt::Expression(_))));
    assert!(matches!(first_statement(&mut parser), Ok(Stmt::Print(_))));
    assert!(matches!(first_statement(&mut parser), Ok(Stmt::Block(_))));
    assert!(matches!(ParseStmt::expression_statement(&mut parser), Ok(Stmt::Expression(_))));
    let tokens = scan("-1 * 2 < 3 == a = 4");
    assert!(matches!(ParseExpr::primary(&mut Parser::new(&tokens)), Err(_)));
    assert!(matches!(ParseExpr::unary(&mut Parser::new(&tokens)), Ok(Expr::Unary(_))));
    assert!(matches!(ParseExpr::factor(&mut Parser::new(&tokens)), Ok(Expr::Binary(_))));
    assert!(matches!(ParseExpr::term(&mut Parser::new(&tokens)), Ok(Expr::Binary(_))));
    assert!(matches!(ParseExpr::comparison(&mut Parser::new(&tokens)), Ok(Expr::Binary(_))));
    assert!(matches!(ParseExpr::equality(&mut Parser::new(&tokens)), Ok(Expr::Binary(_))));
    assert!(matches!(ParseExpr::assignment(&mut Parser::new(&tokens)), Err(_)));
    let tokens = scan("3; }");
    assert!(matches!(ParseStmt::print_statement(&mut Parser::new(&tokens)), Ok(Stmt::Print(_))));
    assert!(matches!(ParseStmt::block_statement(&mut Parser::new(&tokens)), Ok(Stmt::Block(_))));
}
