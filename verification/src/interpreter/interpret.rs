//! The evaluator: it walks the tree, computes values, and keeps the variables.
//!
//! [`evaluate`] says what an expression gives in a chain of scopes, and
//! [`execute`] what a statement does to the scopes and to the lines written
//! so far. [`Interpreter`] computes them.
use crate::ast::Assign;
use crate::ast::Binary;
use crate::ast::Block;
use crate::ast::Expr;
use crate::ast::ExprValue;
use crate::ast::Expression;
use crate::ast::Grouping;
use crate::ast::Literal;
use crate::ast::Print;
use crate::ast::Stmt;
use crate::ast::StmtValue;
use crate::ast::Unary;
use crate::ast::Var;
use crate::ast::Variable;
use crate::ast::VisitorExpr;
use crate::ast::VisitorStmt;
use crate::ast::lemma_stmt_values;
use crate::ast::stmt_value;
use crate::ast::stmt_values;
use crate::errors::Error;
use crate::errors::ErrorValue;
use crate::errors::Failure;
use crate::errors::JBreadErrors;
use crate::errors::JBreadResult;
use crate::interpreter::environment::assigned;
use crate::interpreter::environment::defined;
use crate::interpreter::environment::is_bound;
use crate::interpreter::environment::lookup;
use crate::interpreter::environment::undefined_variable;
use crate::interpreter::environment::Environment;
use crate::interpreter::environment::Scopes;
use crate::number::difference;
use crate::number::difference_bits;
use crate::number::is_zero;
use crate::number::less;
use crate::number::less_or_equal;
use crate::number::less_than;
use crate::number::at_most;
use crate::number::negate;
use crate::number::negated;
use crate::number::product;
use crate::number::product_bits;
use crate::number::quotient;
use crate::number::quotient_bits;
use crate::number::sum;
use crate::number::sum_bits;
use crate::number::zero;
use crate::token::clone_optional;
use crate::token::optional_value;
use crate::token::same_value;
use crate::token::text_of;
use crate::token::value_text;
use crate::token::Literal as LiteralEnum;
use crate::token::LiteralValue;
use crate::token::Token;
use crate::token::TokenTypes;
use crate::token::TokenValue;
use vstd::prelude::*;
use vstd::string::StringExecFns;

verus! {

broadcast use vstd::std_specs::vec::axiom_vec_index_decreases;

/// The failure of an operation at `token`: its line, its lexeme, and what went wrong.
pub open spec fn runtime_error(token: TokenValue, message: Seq<char>) -> Failure {
    Failure::RunTimeException(ErrorValue { line: token.line, place: token.lexeme, message })
}

/// What a unary operator gives when applied to a value. `-` negates a
/// number and `!` a truth value; they convert nothing. Any other token
/// is no unary operator.
pub open spec fn unary_value(operator: TokenValue, right: LiteralValue) -> Result<
    LiteralValue,
    Failure,
> {
    match operator.token_type {
        TokenTypes::Minus => match right {
            LiteralValue::Number(n) => Ok(LiteralValue::Number(negated(n))),
            _ => Err(runtime_error(operator, "Cannot convert non-number to number"@)),
        },
        TokenTypes::Bang => match right {
            LiteralValue::Boolean(b) => Ok(LiteralValue::Boolean(!b)),
            _ => Err(runtime_error(operator, "Cannot convert non-boolean to boolean"@)),
        },
        _ => Err(runtime_error(operator, "Invalid operator for unary expression"@)),
    }
}

/// The two numbers that an arithmetic operator or a comparison works on;
/// a failure where one of the operands is no number.
pub open spec fn both_numbers(operator: TokenValue, left: LiteralValue, right: LiteralValue) -> Result<
    (u64, u64),
    Failure,
> {
    match (left, right) {
        (LiteralValue::Number(a), LiteralValue::Number(b)) => Ok((a, b)),
        _ => Err(runtime_error(operator, "Cannot convert non-number to number"@)),
    }
}

/// What a binary operator gives when applied to two values.
///
/// `-` and `*` work on numbers, and so do the comparisons, which give a truth
/// value. `/` works on numbers; zero divided by zero is the not-a-number
/// value, every other quotient is the number that IEEE 754 division gives,
/// an infinity included. `==` and `!=` compare values of any kinds and never
/// fail. `+` joins two texts or adds two numbers. Any other token is no
/// binary operator.
pub open spec fn binary_value(operator: TokenValue, left: LiteralValue, right: LiteralValue) -> Result<
    LiteralValue,
    Failure,
> {
    match operator.token_type {
        TokenTypes::Minus => match both_numbers(operator, left, right) {
            Ok((a, b)) => Ok(LiteralValue::Number(difference_bits(a, b))),
            Err(f) => Err(f),
        },
        TokenTypes::Star => match both_numbers(operator, left, right) {
            Ok((a, b)) => Ok(LiteralValue::Number(product_bits(a, b))),
            Err(f) => Err(f),
        },
        TokenTypes::Greater => match both_numbers(operator, left, right) {
            Ok((a, b)) => Ok(LiteralValue::Boolean(less(b, a))),
            Err(f) => Err(f),
        },
        TokenTypes::GreaterEqual => match both_numbers(operator, left, right) {
            Ok((a, b)) => Ok(LiteralValue::Boolean(less_or_equal(b, a))),
            Err(f) => Err(f),
        },
        TokenTypes::Less => match both_numbers(operator, left, right) {
            Ok((a, b)) => Ok(LiteralValue::Boolean(less(a, b))),
            Err(f) => Err(f),
        },
        TokenTypes::LessEqual => match both_numbers(operator, left, right) {
            Ok((a, b)) => Ok(LiteralValue::Boolean(less_or_equal(a, b))),
            Err(f) => Err(f),
        },
        TokenTypes::BangEqual => Ok(LiteralValue::Boolean(!same_value(left, right))),
        TokenTypes::EqualEqual => Ok(LiteralValue::Boolean(same_value(left, right))),
        TokenTypes::Slash => match (left, right) {
            (LiteralValue::Number(a), LiteralValue::Number(b)) => {
                if is_zero(a) && is_zero(b) {
                    Ok(LiteralValue::NaN)
                } else {
                    Ok(LiteralValue::Number(quotient_bits(a, b)))
                }
            },
            _ => Err(runtime_error(operator, "Cannot divide non-number"@)),
        },
        TokenTypes::Plus => match (left, right) {
            (LiteralValue::Text(a), LiteralValue::Text(b)) => Ok(LiteralValue::Text(a + b)),
            (LiteralValue::Number(a), LiteralValue::Number(b)) => Ok(
                LiteralValue::Number(sum_bits(a, b)),
            ),
            _ => Err(runtime_error(operator, "Invalid operands"@)),
        },
        _ => Err(runtime_error(operator, "Invalid operator for binary expression"@)),
    }
}

/// What the evaluation of an expression gives: its value (`None` is `nil`)
/// or the failure that ended it, and the scopes as it left them.
pub struct Evaluated {
    pub result: Result<Option<LiteralValue>, Failure>,
    pub scopes: Scopes,
}

/// The evaluation of an expression in a chain of scopes.
///
/// The operands of an operator are evaluated from left to right, and an
/// operator is applied to values only: an operand that is `nil` is a failure.
/// The first failure ends the evaluation; what was assigned before it stays
/// assigned.
pub open spec fn evaluate(e: ExprValue, scopes: Scopes) -> Evaluated
    decreases e,
{
    match e {
        ExprValue::Literal { value } => Evaluated { result: Ok(value), scopes },
        ExprValue::Grouping { expression } => evaluate(*expression, scopes),
        ExprValue::Unary { operator, right } => {
            let operand = evaluate(*right, scopes);
            match operand.result {
                Err(f) => operand,
                Ok(None) => Evaluated {
                    result: Err(runtime_error(operator, "Right value is not a literal"@)),
                    scopes: operand.scopes,
                },
                Ok(Some(value)) => Evaluated {
                    result: match unary_value(operator, value) {
                        Ok(v) => Ok(Some(v)),
                        Err(f) => Err(f),
                    },
                    scopes: operand.scopes,
                },
            }
        },
        ExprValue::Binary { left, operator, right } => {
            let first = evaluate(*left, scopes);
            match first.result {
                Err(f) => first,
                Ok(None) => Evaluated {
                    result: Err(runtime_error(operator, "Left value is not a literal"@)),
                    scopes: first.scopes,
                },
                Ok(Some(a)) => {
                    let second = evaluate(*right, first.scopes);
                    match second.result {
                        Err(f) => second,
                        Ok(None) => Evaluated {
                            result: Err(runtime_error(operator, "Right value is not a literal"@)),
                            scopes: second.scopes,
                        },
                        Ok(Some(b)) => Evaluated {
                            result: match binary_value(operator, a, b) {
                                Ok(v) => Ok(Some(v)),
                                Err(f) => Err(f),
                            },
                            scopes: second.scopes,
                        },
                    }
                },
            }
        },
        ExprValue::Variable { name } => Evaluated {
            result: match lookup(scopes, name.lexeme) {
                Some(value) => Ok(value),
                None => Err(undefined_variable(name)),
            },
            scopes,
        },
        ExprValue::Assign { name, value } => {
            let given = evaluate(*value, scopes);
            match given.result {
                Err(f) => given,
                Ok(v) => {
                    if is_bound(given.scopes, name.lexeme) {
                        Evaluated { result: Ok(v), scopes: assigned(given.scopes, name.lexeme, v) }
                    } else {
                        Evaluated { result: Err(undefined_variable(name)), scopes: given.scopes }
                    }
                },
            }
        },
    }
}

/// What a program works on: the scopes, and the lines written so far.
pub struct World {
    pub scopes: Scopes,
    pub output: Seq<Seq<char>>,
}

/// What the execution of statements gives: the failure that ended it, if
/// one did, and the world as it left it.
pub struct Executed {
    pub failure: Option<Failure>,
    pub world: World,
}

/// The chain with an empty scope in front.
pub open spec fn entered(scopes: Scopes) -> Scopes {
    seq![Map::<Seq<char>, Option<LiteralValue>>::empty()] + scopes
}

/// The chain without its innermost scope; a chain of one scope stays.
pub open spec fn left(scopes: Scopes) -> Scopes {
    if scopes.len() > 1 {
        scopes.drop_first()
    } else {
        scopes
    }
}

/// The execution of a statement.
///
/// An expression statement evaluates and forgets the value. A print
/// statement writes the value as a line. A declaration binds the name in the
/// innermost scope, to the value of its initializer or to `nil`. A block runs
/// its statements in a scope of its own, which is gone when the block ends,
/// also when it ends in a failure.
pub open spec fn execute(s: StmtValue, world: World) -> Executed
    decreases s,
{
    match s {
        StmtValue::Expression { expression } => {
            let r = evaluate(expression, world.scopes);
            Executed {
                failure: match r.result {
                    Ok(_) => None,
                    Err(f) => Some(f),
                },
                world: World { scopes: r.scopes, output: world.output },
            }
        },
        StmtValue::Print { expression } => {
            let r = evaluate(expression, world.scopes);
            match r.result {
                Ok(v) => Executed {
                    failure: None,
                    world: World { scopes: r.scopes, output: world.output.push(value_text(v)) },
                },
                Err(f) => Executed {
                    failure: Some(f),
                    world: World { scopes: r.scopes, output: world.output },
                },
            }
        },
        StmtValue::Var { name, initializer } => match initializer {
            Some(e) => {
                let r = evaluate(e, world.scopes);
                match r.result {
                    Ok(v) => Executed {
                        failure: None,
                        world: World {
                            scopes: defined(r.scopes, name.lexeme, v),
                            output: world.output,
                        },
                    },
                    Err(f) => Executed {
                        failure: Some(f),
                        world: World { scopes: r.scopes, output: world.output },
                    },
                }
            },
            None => Executed {
                failure: None,
                world: World {
                    scopes: defined(world.scopes, name.lexeme, None),
                    output: world.output,
                },
            },
        },
        StmtValue::Block { statements } => {
            let inner = execute_all(
                statements,
                World { scopes: entered(world.scopes), output: world.output },
            );
            Executed {
                failure: inner.failure,
                world: World { scopes: left(inner.world.scopes), output: inner.world.output },
            }
        },
    }
}

/// The execution of statements one after the other, up to the first that fails.
pub open spec fn execute_all(stmts: Seq<StmtValue>, world: World) -> Executed
    decreases stmts,
{
    if stmts.len() == 0 {
        Executed { failure: None, world }
    } else {
        let first = execute(stmts[0], world);
        if first.failure is Some {
            first
        } else {
            execute_all(stmts.drop_first(), first.world)
        }
    }
}

/// What some lines of text stand for.
pub open spec fn lines(output: Seq<String>) -> Seq<Seq<char>> {
    output.map_values(|s: String| s@)
}

/// The evaluator: the variables, and the lines that print statements have written.
pub struct Interpreter {
    pub environment: Environment,
    output: Vec<String>,
}

/// What a method that evaluates an expression does: it returns what the
/// evaluation gives, leaves the scopes as the evaluation leaves them, and
/// writes nothing.
pub open spec fn evaluates(
    before: Interpreter,
    after: Interpreter,
    result: JBreadResult<Literal>,
    expected: Evaluated,
) -> bool {
    &&& after.scopes() == expected.scopes
    &&& after.written() == before.written()
    &&& match expected.result {
        Ok(value) => result matches Ok(l) && optional_value(l.value) == value,
        Err(failure) => result matches Err(e) && e@ == failure,
    }
}

/// What a method that executes statements does: it fails if and as the
/// execution does, and leaves the scopes and the lines written as the
/// execution leaves them.
pub open spec fn executes(
    before: Interpreter,
    after: Interpreter,
    result: JBreadResult<()>,
    expected: Executed,
) -> bool {
    &&& after.world() == expected.world
    &&& match expected.failure {
        None => result is Ok,
        Some(failure) => result matches Err(e) && e@ == failure,
    }
}

impl Default for Interpreter {
    /// An interpreter with the global scope alone, empty, and nothing written.
    fn default() -> (r: Self)
        ensures
            r.scopes() == seq![Map::<Seq<char>, Option<LiteralValue>>::empty()],
            r.written() == Seq::<Seq<char>>::empty(),
    {
        let r = Self { environment: Environment::default(), output: Vec::new() };
        assert(lines(r.output@) =~= Seq::<Seq<char>>::empty());
        r
    }
}

impl Interpreter {
    /// The scopes of the variables, the innermost first.
    pub closed spec fn scopes(&self) -> Scopes {
        self.environment@
    }

    /// The lines written so far.
    pub closed spec fn written(&self) -> Seq<Seq<char>> {
        lines(self.output@)
    }

    /// The scopes and the lines written so far.
    pub open spec fn world(&self) -> World {
        World { scopes: self.scopes(), output: self.written() }
    }

    /// An interpreter with the global scope alone, empty, and nothing written.
    pub fn new() -> (r: Self)
        ensures
            r.scopes() == seq![Map::<Seq<char>, Option<LiteralValue>>::empty()],
            r.written() == Seq::<Seq<char>>::empty(),
    {
        Interpreter::default()
    }

    /// The lines that print statements have written so far, the oldest first.
    pub fn output(&self) -> (r: &Vec<String>)
        ensures
            lines(r@) == self.written(),
    {
        &self.output
    }

    /// Hands out the lines written so far and forgets them.
    pub fn take_output(&mut self) -> (r: Vec<String>)
        ensures
            lines(r@) == old(self).written(),
            final(self).written() == Seq::<Seq<char>>::empty(),
            final(self).scopes() == old(self).scopes(),
    {
        let mut taken: Vec<String> = Vec::new();
        std::mem::swap(&mut self.output, &mut taken);
        assert(lines(self.output@) =~= Seq::<Seq<char>>::empty());
        taken
    }

    /// The failure at `token` with `message`.
    fn error(token: &Token, message: &str) -> (r: JBreadErrors)
        ensures
            r@ == runtime_error(token@, message@),
    {
        JBreadErrors::RunTimeException(
            Error::new(token.line, token.lexeme.clone(), String::from_str(message)),
        )
    }

    /// Applies a unary operator to a value.
    pub fn apply_unary(operator: &Token, right: LiteralEnum) -> (r: JBreadResult<LiteralEnum>)
        ensures
            match unary_value(operator@, right@) {
                Ok(value) => r matches Ok(v) && v@ == value,
                Err(failure) => r matches Err(e) && e@ == failure,
            },
    {
        match operator.token_type {
            TokenTypes::Minus => match right {
                LiteralEnum::Number(n) => Ok(LiteralEnum::Number(negate(n))),
                _ => Err(Self::error(operator, "Cannot convert non-number to number")),
            },
            TokenTypes::Bang => match right {
                LiteralEnum::Boolean(b) => Ok(LiteralEnum::Boolean(!b)),
                _ => Err(Self::error(operator, "Cannot convert non-boolean to boolean")),
            },
            _ => Err(Self::error(operator, "Invalid operator for unary expression")),
        }
    }

    /// The two numbers that an operator on numbers works on.
    fn numbers(operator: &Token, left: &LiteralEnum, right: &LiteralEnum) -> (r: JBreadResult<
        (u64, u64),
    >)
        ensures
            match both_numbers(operator@, left@, right@) {
                Ok(pair) => r == Ok::<(u64, u64), JBreadErrors>(pair),
                Err(failure) => r matches Err(e) && e@ == failure,
            },
    {
        match (left, right) {
            (LiteralEnum::Number(a), LiteralEnum::Number(b)) => Ok((*a, *b)),
            _ => Err(Self::error(operator, "Cannot convert non-number to number")),
        }
    }

    /// Applies a binary operator to two values.
    pub fn apply_binary(operator: &Token, left: LiteralEnum, right: LiteralEnum) -> (r: JBreadResult<
        LiteralEnum,
    >)
        ensures
            match binary_value(operator@, left@, right@) {
                Ok(value) => r matches Ok(v) && v@ == value,
                Err(failure) => r matches Err(e) && e@ == failure,
            },
    {
        match operator.token_type {
            TokenTypes::Minus => match Self::numbers(operator, &left, &right) {
                Ok((a, b)) => Ok(LiteralEnum::Number(difference(a, b))),
                Err(e) => Err(e),
            },
            TokenTypes::Star => match Self::numbers(operator, &left, &right) {
                Ok((a, b)) => Ok(LiteralEnum::Number(product(a, b))),
                Err(e) => Err(e),
            },
            TokenTypes::Greater => match Self::numbers(operator, &left, &right) {
                Ok((a, b)) => Ok(LiteralEnum::Boolean(less_than(b, a))),
                Err(e) => Err(e),
            },
            TokenTypes::GreaterEqual => match Self::numbers(operator, &left, &right) {
                Ok((a, b)) => Ok(LiteralEnum::Boolean(at_most(b, a))),
                Err(e) => Err(e),
            },
            TokenTypes::Less => match Self::numbers(operator, &left, &right) {
                Ok((a, b)) => Ok(LiteralEnum::Boolean(less_than(a, b))),
                Err(e) => Err(e),
            },
            TokenTypes::LessEqual => match Self::numbers(operator, &left, &right) {
                Ok((a, b)) => Ok(LiteralEnum::Boolean(at_most(a, b))),
                Err(e) => Err(e),
            },
            TokenTypes::BangEqual => Ok(LiteralEnum::Boolean(left != right)),
            TokenTypes::EqualEqual => Ok(LiteralEnum::Boolean(left == right)),
            TokenTypes::Slash => match (left, right) {
                (LiteralEnum::Number(a), LiteralEnum::Number(b)) => {
                    if zero(a) && zero(b) {
                        Ok(LiteralEnum::NaN)
                    } else {
                        Ok(LiteralEnum::Number(quotient(a, b)))
                    }
                },
                _ => Err(Self::error(operator, "Cannot divide non-number")),
            },
            TokenTypes::Plus => match (left, right) {
                (LiteralEnum::String(a), LiteralEnum::String(b)) => Ok(
                    LiteralEnum::String(a.concat(b.as_str())),
                ),
                (LiteralEnum::Number(a), LiteralEnum::Number(b)) => Ok(LiteralEnum::Number(sum(a, b))),
                _ => Err(Self::error(operator, "Invalid operands")),
            },
            _ => Err(Self::error(operator, "Invalid operator for binary expression")),
        }
    }

    /// Evaluates an expression.
    pub fn evalute(&mut self, expr: &Expr) -> (r: JBreadResult<Literal>)
        ensures
            evaluates(*old(self), *final(self), r, evaluate(expr@, old(self).scopes())),
        decreases expr,
    {
        match expr {
            Expr::Binary(e) => self.visit_expr_binary(e),
            Expr::Grouping(e) => self.visit_expr_grouping(e),
            Expr::Literal(e) => self.visit_expr_literal(e),
            Expr::Unary(e) => self.visit_expr_unary(e),
            Expr::Variable(e) => self.visit_expr_variable(e),
            Expr::Assign(e) => self.visit_expr_assign(e),
        }
    }

    /// Evaluates both operands, the left one first, and applies the operator.
    pub fn visit_expr_binary(&mut self, expr: &Binary) -> (r: JBreadResult<Literal>)
        ensures
            evaluates(*old(self), *final(self), r, evaluate(expr@, old(self).scopes())),
        decreases expr,
    {
        let left = match self.evalute(&*expr.left) {
            Ok(l) => match l.value {
                Some(v) => v,
                None => {
                    return Err(Self::error(&expr.operator, "Left value is not a literal"));
                },
            },
            Err(e) => {
                return Err(e);
            },
        };
        let right = match self.evalute(&*expr.right) {
            Ok(l) => match l.value {
                Some(v) => v,
                None => {
                    return Err(Self::error(&expr.operator, "Right value is not a literal"));
                },
            },
            Err(e) => {
                return Err(e);
            },
        };
        match Self::apply_binary(&expr.operator, left, right) {
            Ok(v) => Ok(Literal { value: Some(v) }),
            Err(e) => Err(e),
        }
    }

    /// Evaluates what stands in the parentheses.
    pub fn visit_expr_grouping(&mut self, expr: &Grouping) -> (r: JBreadResult<Literal>)
        ensures
            evaluates(*old(self), *final(self), r, evaluate(expr@, old(self).scopes())),
        decreases expr,
    {
        self.evalute(&*expr.expression)
    }

    /// A literal is its own value.
    pub fn visit_expr_literal(&mut self, expr: &Literal) -> (r: JBreadResult<Literal>)
        ensures
            evaluates(
                *old(self),
                *final(self),
                r,
                evaluate(expr@, old(self).scopes()),
            ),
    {
        Ok(Literal { value: clone_optional(&expr.value) })
    }

    /// Evaluates the operand and applies the operator.
    pub fn visit_expr_unary(&mut self, expr: &Unary) -> (r: JBreadResult<Literal>)
        ensures
            evaluates(*old(self), *final(self), r, evaluate(expr@, old(self).scopes())),
        decreases expr,
    {
        let right_value = match self.evalute(&*expr.right) {
            Ok(l) => match l.value {
                Some(v) => v,
                None => {
                    return Err(Self::error(&expr.operator, "Right value is not a literal"));
                },
            },
            Err(e) => {
                return Err(e);
            },
        };
        match Self::apply_unary(&expr.operator, right_value) {
            Ok(v) => Ok(Literal { value: Some(v) }),
            Err(e) => Err(e),
        }
    }

    /// The value of a variable, from the innermost scope that binds it.
    pub fn visit_expr_variable(&mut self, expr: &Variable) -> (r: JBreadResult<Literal>)
        ensures
            evaluates(*old(self), *final(self), r, evaluate(expr@, old(self).scopes())),
    {
        match self.environment.get(&expr.name) {
            Ok(value) => Ok(Literal { value }),
            Err(err) => Err(err),
        }
    }

    /// Evaluates the right side and assigns it; the value assigned is the result.
    pub fn visit_expr_assign(&mut self, expr: &Assign) -> (r: JBreadResult<Literal>)
        ensures
            evaluates(*old(self), *final(self), r, evaluate(expr@, old(self).scopes())),
        decreases expr,
    {
        let evaluated = match self.evalute(&*expr.value) {
            Ok(l) => l,
            Err(e) => {
                return Err(e);
            },
        };
        match self.environment.assign(&expr.name, clone_optional(&evaluated.value)) {
            Ok(_) => Ok(evaluated),
            Err(e) => Err(e),
        }
    }

    /// Executes a statement.
    pub fn execute(&mut self, stmt: &Stmt) -> (r: JBreadResult<()>)
        ensures
            executes(*old(self), *final(self), r, execute(stmt@, old(self).world())),
        decreases stmt,
    {
        match stmt {
            Stmt::Expression(s) => self.visit_stmt_expression(s),
            Stmt::Print(s) => self.visit_stmt_print(s),
            Stmt::Var(s) => self.visit_stmt_var(s),
            Stmt::Block(s) => self.visit_stmt_block(s),
        }
    }

    /// Executes statements one after the other, up to the first that fails.
    pub fn interpret(&mut self, stmts: &[Stmt]) -> (r: JBreadResult<()>)
        ensures
            executes(*old(self), *final(self), r, execute_all(stmt_values(stmts@), old(self).world())),
    {
        let ghost all = stmt_values(stmts@);
        let ghost goal = execute_all(all, self.world());
        let mut i: usize = 0;
        proof {
            lemma_stmt_values(stmts@);
            assert(all.subrange(0, all.len() as int) =~= all);
        }
        while i < stmts.len()
            invariant
                i <= stmts.len(),
                all == stmt_values(stmts@),
                all.len() == stmts@.len(),
                forall|k: int| 0 <= k < all.len() ==> #[trigger] all[k] == stmt_value(stmts@[k]),
                goal == execute_all(all, old(self).world()),
                goal == execute_all(all.subrange(i as int, all.len() as int), self.world()),
            decreases stmts.len() - i,
        {
            let ghost rest = all.subrange(i as int, all.len() as int);
            assert(rest[0] == stmts@[i as int]@);
            assert(rest.drop_first() =~= all.subrange(i + 1, all.len() as int));
            match self.execute(&stmts[i]) {
                Ok(_) => {},
                Err(e) => {
                    return Err(e);
                },
            }
            i += 1;
        }
        Ok(())
    }

    /// Executes statements in a scope of their own, which is gone afterwards.
    pub fn execute_block(&mut self, statements: &Vec<Stmt>) -> (r: JBreadResult<()>)
        ensures
            executes(
                *old(self),
                *final(self),
                r,
                execute(
                    StmtValue::Block { statements: stmt_values(statements@) },
                    old(self).world(),
                ),
            ),
        decreases statements,
    {
        let ghost all = stmt_values(statements@);
        self.environment.enter();
        let ghost goal = execute_all(all, self.world());
        let mut i: usize = 0;
        let mut failure: Option<JBreadErrors> = None;
        proof {
            lemma_stmt_values(statements@);
            assert(all.subrange(0, all.len() as int) =~= all);
        }
        while i < statements.len() && failure.is_none()
            invariant
                i <= statements.len(),
                all == stmt_values(statements@),
                all.len() == statements@.len(),
                forall|k: int| 0 <= k < all.len() ==> #[trigger] all[k] == stmt_value(statements@[k]),
                failure is None ==> goal == execute_all(
                    all.subrange(i as int, all.len() as int),
                    self.world(),
                ),
                failure matches Some(e) ==> goal.failure == Some(e@) && goal.world == self.world(),
            decreases statements.len() - i + if failure is None {
                    1int
                } else {
                    0int
                },
        {
            let ghost rest = all.subrange(i as int, all.len() as int);
            assert(rest[0] == statements@[i as int]@);
            assert(rest.drop_first() =~= all.subrange(i + 1, all.len() as int));
            match self.execute(&statements[i]) {
                Ok(_) => {
                    i += 1;
                },
                Err(e) => {
                    failure = Some(e);
                },
            }
        }
        self.environment.leave();
        match failure {
            Some(e) => Err(e),
            None => Ok(()),
        }
    }

    /// Evaluates the expression and forgets its value.
    pub fn visit_stmt_expression(&mut self, expr: &Expression) -> (r: JBreadResult<()>)
        ensures
            executes(*old(self), *final(self), r, execute(expr@, old(self).world())),
    {
        match self.evalute(&*expr.expression) {
            Ok(_) => Ok(()),
            Err(e) => Err(e),
        }
    }

    /// Evaluates the expression and writes its value as a line.
    pub fn visit_stmt_print(&mut self, expr: &Print) -> (r: JBreadResult<()>)
        ensures
            executes(*old(self), *final(self), r, execute(expr@, old(self).world())),
    {
        match self.evalute(&*expr.expression) {
            Ok(value) => {
                let ghost before = self.output@;
                let line = text_of(&value.value);
                self.output.push(line);
                assert(lines(self.output@) =~= lines(before).push(line@));
                Ok(())
            },
            Err(e) => Err(e),
        }
    }

    /// Binds the name in the innermost scope, to the value of the initializer or to `nil`.
    pub fn visit_stmt_var(&mut self, stmt: &Var) -> (r: JBreadResult<()>)
        ensures
            executes(*old(self), *final(self), r, execute(stmt@, old(self).world())),
    {
        let value = match &stmt.initializer {
            Some(expr) => match self.evalute(&**expr) {
                Ok(l) => l,
                Err(e) => {
                    return Err(e);
                },
            },
            None => Literal { value: None },
        };
        self.environment.define(stmt.name.lexeme.as_str(), value.value);
        Ok(())
    }

    /// Executes the statements of the block in a scope of their own.
    pub fn visit_stmt_block(&mut self, expr: &Block) -> (r: JBreadResult<()>)
        ensures
            executes(*old(self), *final(self), r, execute(expr@, old(self).world())),
        decreases expr,
    {
        self.execute_block(&expr.statements)
    }
}

impl VisitorExpr for Interpreter {
    type Result = JBreadResult<Literal>;

    /// A visit evaluates the node.
    open spec fn visits(&self, after: &Self, node: ExprValue, result: Self::Result) -> bool {
        evaluates(*self, *after, result, evaluate(node, self.scopes()))
    }

    fn visit_expr_binary(&mut self, expr: &Binary) -> (r: Self::Result) {
        Interpreter::visit_expr_binary(self, expr)
    }

    fn visit_expr_grouping(&mut self, expr: &Grouping) -> (r: Self::Result) {
        Interpreter::visit_expr_grouping(self, expr)
    }

    fn visit_expr_literal(&mut self, expr: &Literal) -> (r: Self::Result) {
        Interpreter::visit_expr_literal(self, expr)
    }

    fn visit_expr_unary(&mut self, expr: &Unary) -> (r: Self::Result) {
        Interpreter::visit_expr_unary(self, expr)
    }

    fn visit_expr_variable(&mut self, expr: &Variable) -> (r: Self::Result) {
        Interpreter::visit_expr_variable(self, expr)
    }

    fn visit_expr_assign(&mut self, expr: &Assign) -> (r: Self::Result) {
        Interpreter::visit_expr_assign(self, expr)
    }
}

impl VisitorStmt for Interpreter {
    type Result = JBreadResult<()>;

    /// A visit executes the statement.
    open spec fn visits(&self, after: &Self, node: StmtValue, result: Self::Result) -> bool {
        executes(*self, *after, result, execute(node, self.world()))
    }

    fn visit_stmt_expression(&mut self, expr: &Expression) -> (r: Self::Result) {
        Interpreter::visit_stmt_expression(self, expr)
    }

    fn visit_stmt_print(&mut self, expr: &Print) -> (r: Self::Result) {
        Interpreter::visit_stmt_print(self, expr)
    }

    fn visit_stmt_var(&mut self, stmt: &Var) -> (r: Self::Result) {
        Interpreter::visit_stmt_var(self, stmt)
    }

    fn visit_stmt_block(&mut self, expr: &Block) -> (r: Self::Result) {
        Interpreter::visit_stmt_block(self, expr)
    }
}

} // verus!
