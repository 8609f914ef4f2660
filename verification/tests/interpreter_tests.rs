use jbread::ast::Assign;
use jbread::ast::Binary;
use jbread::ast::Expr;
use jbread::ast::Grouping;
use jbread::ast::Literal;
use jbread::ast::Print;
use jbread::ast::Unary;
use jbread::ast::Var;
use jbread::ast::Variable;
use jbread::interpreter::interpret::Interpreter;
use jbread::token::Literal as LiteralEnum;
use jbread::token::Token;
use jbread::token::TokenTypes;

#[test]
fn test_binary_str_concat() {
    let expr = Binary {
        left: Box::new(Expr::Literal(Literal {
            value: Some(LiteralEnum::String("Hello".to_string())),
        })),
        operator: Token::new(TokenTypes::Plus, "+".to_string(), None, 1),
        right: Box::new(Expr::Literal(Literal {
            value: Some(LiteralEnum::String(" World!".to_string())),
        })),
    };
    let mut interpreter = Interpreter::default();

    let parsed_binary_expr = interpreter.visit_expr_binary(&expr);
    assert!(parsed_binary_expr.is_ok());
    assert_eq!(
        parsed_binary_expr.unwrap().value,
        Some(LiteralEnum::String("Hello World!".to_string()))
    );
}

#[test]
fn test_binary_num_add() {
    let expr = Binary {
        left: Box::new(Expr::Literal(Literal {
            value: Some(LiteralEnum::Number((1.0f64).to_bits())),
        })),
        operator: Token::new(TokenTypes::Plus, "+".to_string(), None, 1),
        right: Box::new(Expr::Literal(Literal {
            value: Some(LiteralEnum::Number((2.0f64).to_bits())),
        })),
    };
    let mut interpreter = Interpreter::default();

    let parsed_binary_expr = interpreter.visit_expr_binary(&expr);
    assert!(parsed_binary_expr.is_ok());
    assert_eq!(
        parsed_binary_expr.unwrap().value,
        Some(LiteralEnum::Number((3.0f64).to_bits()))
    );
}

#[test]
fn test_0_0_division() {
    let expr = Binary {
        left: Box::new(Expr::Literal(Literal {
            value: Some(LiteralEnum::Number((0.0f64).to_bits())),
        })),
        operator: Token::new(TokenTypes::Slash, "/".to_string(), None, 1),
        right: Box::new(Expr::Literal(Literal {
            value: Some(LiteralEnum::Number((0.0f64).to_bits())),
        })),
    };
    let mut interpreter = Interpreter::default();

    let parsed_binary_expr = interpreter.visit_expr_binary(&expr);
    assert!(parsed_binary_expr.is_ok());
    assert_eq!(parsed_binary_expr.unwrap().value, Some(LiteralEnum::NaN));
}

#[test]
fn test_binary_multipication() {
    let expr = Binary {
        left: Box::new(Expr::Literal(Literal {
            value: Some(LiteralEnum::Number((2.0f64).to_bits())),
        })),
        operator: Token::new(TokenTypes::Star, "*".to_string(), None, 1),
        right: Box::new(Expr::Literal(Literal {
            value: Some(LiteralEnum::Number((2.0f64).to_bits())),
        })),
    };
    let mut interpreter = Interpreter::default();

    let parsed_binary_expr = interpreter.visit_expr_binary(&expr);
    assert!(parsed_binary_expr.is_ok());
    assert_eq!(
        parsed_binary_expr.unwrap().value,
        Some(LiteralEnum::Number((4.0f64).to_bits()))
    );
}

#[test]
fn test_binary_division() {
    let expr = Binary {
        left: Box::new(Expr::Literal(Literal {
            value: Some(LiteralEnum::Number((4.0f64).to_bits())),
        })),
        operator: Token::new(TokenTypes::Slash, "/".to_string(), None, 1),
        right: Box::new(Expr::Literal(Literal {
            value: Some(LiteralEnum::Number((2.0f64).to_bits())),
        })),
    };
    let mut interpreter = Interpreter::default();

    let parsed_binary_expr = interpreter.visit_expr_binary(&expr);
    assert!(parsed_binary_expr.is_ok());
    assert_eq!(
        parsed_binary_expr.unwrap().value,
        Some(LiteralEnum::Number((2.0f64).to_bits()))
    );
}

#[test]
fn test_binary_subtraction() {
    let expr = Binary {
        left: Box::new(Expr::Literal(Literal {
            value: Some(LiteralEnum::Number((4.0f64).to_bits())),
        })),
        operator: Token::new(TokenTypes::Minus, "-".to_string(), None, 1),
        right: Box::new(Expr::Literal(Literal {
            value: Some(LiteralEnum::Number((2.0f64).to_bits())),
        })),
    };
    let mut interpreter = Interpreter::default();

    let parsed_binary_expr = interpreter.visit_expr_binary(&expr);
    assert!(parsed_binary_expr.is_ok());
    assert_eq!(
        parsed_binary_expr.unwrap().value,
        Some(LiteralEnum::Number((2.0f64).to_bits()))
    );
}

#[test]
fn test_binary_greater() {
    let expr = Binary {
        left: Box::new(Expr::Literal(Literal {
            value: Some(LiteralEnum::Number((4.0f64).to_bits())),
        })),
        operator: Token::new(TokenTypes::Greater, ">".to_string(), None, 1),
        right: Box::new(Expr::Literal(Literal {
            value: Some(LiteralEnum::Number((2.0f64).to_bits())),
        })),
    };
    let mut interpreter = Interpreter::default();

    let parsed_binary_expr = interpreter.visit_expr_binary(&expr);
    assert!(parsed_binary_expr.is_ok());
    assert_eq!(
        parsed_binary_expr.unwrap().value,
        Some(LiteralEnum::Boolean(true))
    );
}

#[test]
fn test_binary_greater_equal() {
    let expr = Binary {
        left: Box::new(Expr::Literal(Literal {
            value: Some(LiteralEnum::Number((4.0f64).to_bits())),
        })),
        operator: Token::new(TokenTypes::GreaterEqual, ">=".to_string(), None, 1),
        right: Box::new(Expr::Literal(Literal {
            value: Some(LiteralEnum::Number((2.0f64).to_bits())),
        })),
    };
    let mut interpreter = Interpreter::default();

    let parsed_binary_expr = interpreter.visit_expr_binary(&expr);
    assert!(parsed_binary_expr.is_ok());
    assert_eq!(
        parsed_binary_expr.unwrap().value,
        Some(LiteralEnum::Boolean(true))
    );
}

#[test]
fn test_binary_less() {
    let expr = Binary {
        left: Box::new(Expr::Literal(Literal {
            value: Some(LiteralEnum::Number((4.0f64).to_bits())),
        })),
        operator: Token::new(TokenTypes::Less, "<".to_string(), None, 1),
        right: Box::new(Expr::Literal(Literal {
            value: Some(LiteralEnum::Number((2.0f64).to_bits())),
        })),
    };
    let mut interpreter = Interpreter::default();

    let parsed_binary_expr = interpreter.visit_expr_binary(&expr);
    assert!(parsed_binary_expr.is_ok());
    assert_eq!(
        parsed_binary_expr.unwrap().value,
        Some(LiteralEnum::Boolean(false))
    );
}

#[test]
fn test_unary_negation() {
    let expr = Unary {
        operator: Token::new(TokenTypes::Minus, "-".to_string(), None, 1),
        right: Box::new(Expr::Literal(Literal {
            value: Some(LiteralEnum::Number((2.0f64).to_bits())),
        })),
    };
    let mut interpreter = Interpreter::default();

    let parsed_unary_expr = interpreter.visit_expr_unary(&expr);
    assert!(parsed_unary_expr.is_ok());
    assert_eq!(
        parsed_unary_expr.unwrap().value,
        Some(LiteralEnum::Number((-2.0f64).to_bits()))
    );
}

#[test]
fn interpret_test_grouping() {
    let expr = Grouping {
        expression: Box::new(Expr::Literal(Literal {
            value: Some(LiteralEnum::Number((2.0f64).to_bits())),
        })),
    };
    let mut interpreter = Interpreter::default();

    let parsed_grouping_expr = interpreter.visit_expr_grouping(&expr);
    assert!(parsed_grouping_expr.is_ok());
    assert_eq!(
        parsed_grouping_expr.unwrap().value,
        Some(LiteralEnum::Number((2.0f64).to_bits()))
    );
}

#[test]
fn test_string_and_int_addition() {
    let expr = Binary {
        left: Box::new(Expr::Literal(Literal {
            value: Some(LiteralEnum::String("Hello".to_string())),
        })),
        operator: Token::new(TokenTypes::Plus, "+".to_string(), None, 1),
        right: Box::new(Expr::Literal(Literal {
            value: Some(LiteralEnum::Number((2.0f64).to_bits())),
        })),
    };
    let mut interpreter = Interpreter::default();

    let parsed_binary_expr = interpreter.visit_expr_binary(&expr);
    assert!(parsed_binary_expr.is_err());
}

#[test]
fn test_var_fetching_without_initalization() {
    let expr = Variable {
        name: Token::new(TokenTypes::Identifier, "a".to_string(), None, 1),
    };
    let mut interpreter = Interpreter::default();

    let parsed_var_expr = interpreter.visit_expr_variable(&expr);
    assert!(parsed_var_expr.is_err());
}

#[test]
fn test_var_assignment_with_value() {
    let expr = Variable {
        name: Token::new(TokenTypes::Identifier, "a".to_string(), None, 1),
    };
    let mut interpreter = Interpreter::default();
    interpreter
        .environment
        .define("a", Some(LiteralEnum::Number((2.0f64).to_bits())));

    let parsed_var_expr = interpreter.visit_expr_variable(&expr);
    assert!(parsed_var_expr.is_ok());
    assert_eq!(
        parsed_var_expr.unwrap().value,
        Some(LiteralEnum::Number((2.0f64).to_bits()))
    );
}

#[test]
fn test_var_assignment_with_value_and_assignment() {
    let expr = Variable {
        name: Token::new(TokenTypes::Identifier, "a".to_string(), None, 1),
    };
    let mut interpreter = Interpreter::default();
    interpreter
        .environment
        .define("a", Some(LiteralEnum::Number((2.0f64).to_bits())));

    let parsed_var_expr = interpreter.visit_expr_variable(&expr);
    assert!(parsed_var_expr.is_ok());
    assert_eq!(
        parsed_var_expr.unwrap().value,
        Some(LiteralEnum::Number((2.0f64).to_bits()))
    );

    let assignment_expr = Assign {
        name: Token::new(TokenTypes::Identifier, "a".to_string(), None, 1),
        value: Box::new(Expr::Literal(Literal {
            value: Some(LiteralEnum::Number((3.0f64).to_bits())),
        })),
    };
    let parsed_assignment_expr = interpreter.visit_expr_assign(&assignment_expr);
    assert!(parsed_assignment_expr.is_ok());
    assert_eq!(
        parsed_assignment_expr.unwrap().value,
        Some(LiteralEnum::Number((3.0f64).to_bits()))
    );
}

#[test]
fn test_print_statement() {
    let expr = Expr::Literal(Literal {
        value: Some(LiteralEnum::Number((2.0f64).to_bits())),
    });
    let stmt = Print {
        expression: Box::new(expr),
    };
    let mut interpreter = Interpreter::default();

    let parsed_print_stmt = interpreter.visit_stmt_print(&stmt);
    assert!(parsed_print_stmt.is_ok());
}

#[test]
fn test_var_statement() {
    let stmt = Var {
        name: Token::new(TokenTypes::Identifier, "a".to_string(), None, 1),
        initializer: None,
    };
    let mut interpreter = Interpreter::default();

    let parsed_var_stmt = interpreter.visit_stmt_var(&stmt);
    assert!(parsed_var_stmt.is_ok());
}
