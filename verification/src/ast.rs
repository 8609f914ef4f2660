//! The syntax tree: expressions and statements, each node owning its children,
//! and the visitors that work on it.
use crate::token::clone_optional;
use crate::token::optional_value;
use crate::token::Literal as LiteralEnum;
use crate::token::LiteralValue;
use crate::token::Token;
use crate::token::TokenValue;
use crate::tool::traits::AstNode;
use crate::tool::traits::AstStmt;
use vstd::prelude::*;

verus! {

broadcast use vstd::std_specs::vec::axiom_vec_index_decreases;

/// Two operands and the operator between them.
#[derive(Debug, PartialEq)]
pub struct Binary {
    pub left: Box<Expr>,
    pub operator: Token,
    pub right: Box<Expr>,
}

/// An expression in parentheses.
#[derive(Debug, PartialEq)]
pub struct Grouping {
    pub expression: Box<Expr>,
}

/// A value written out; `None` is `nil`.
#[derive(Debug, PartialEq)]
pub struct Literal {
    pub value: Option<LiteralEnum>,
}

/// An operator in front of its operand.
#[derive(Debug, PartialEq)]
pub struct Unary {
    pub operator: Token,
    pub right: Box<Expr>,
}

/// The use of a variable.
#[derive(Debug, PartialEq)]
pub struct Variable {
    pub name: Token,
}

/// An assignment to a variable.
#[derive(Debug, PartialEq)]
pub struct Assign {
    pub name: Token,
    pub value: Box<Expr>,
}

/// An expression.
#[derive(Debug, PartialEq)]
pub enum Expr {
    Binary(Binary),
    Grouping(Grouping),
    Literal(Literal),
    Unary(Unary),
    Variable(Variable),
    Assign(Assign),
}

/// An expression evaluated for its effect.
#[derive(Debug, PartialEq)]
pub struct Expression {
    pub expression: Box<Expr>,
}

/// An expression evaluated and written out.
#[derive(Debug, PartialEq)]
pub struct Print {
    pub expression: Box<Expr>,
}

/// The declaration of a variable, with or without a first value.
#[derive(Debug, PartialEq)]
pub struct Var {
    pub name: Token,
    pub initializer: Option<Box<Expr>>,
}

/// Statements in a scope of their own.
#[derive(Debug, PartialEq)]
pub struct Block {
    pub statements: Vec<Stmt>,
}

/// A statement.
#[derive(Debug, PartialEq)]
pub enum Stmt {
    Expression(Expression),
    Print(Print),
    Var(Var),
    Block(Block),
}

/// What an [`Expr`] stands for: the tree, with its tokens and values by what they stand for.
#[allow(inconsistent_fields)]
pub enum ExprValue {
    Binary { left: Box<ExprValue>, operator: TokenValue, right: Box<ExprValue> },
    Grouping { expression: Box<ExprValue> },
    Literal { value: Option<LiteralValue> },
    Unary { operator: TokenValue, right: Box<ExprValue> },
    Variable { name: TokenValue },
    Assign { name: TokenValue, value: Box<ExprValue> },
}

/// What a [`Stmt`] stands for.
pub enum StmtValue {
    Expression { expression: ExprValue },
    Print { expression: ExprValue },
    Var { name: TokenValue, initializer: Option<ExprValue> },
    Block { statements: Seq<StmtValue> },
}

/// The tree that an expression stands for.
pub open spec fn expr_value(e: Expr) -> ExprValue
    decreases e,
{
    match e {
        Expr::Binary(b) => ExprValue::Binary {
            left: Box::new(expr_value(*b.left)),
            operator: b.operator@,
            right: Box::new(expr_value(*b.right)),
        },
        Expr::Grouping(g) => ExprValue::Grouping { expression: Box::new(expr_value(*g.expression)) },
        Expr::Literal(l) => ExprValue::Literal { value: optional_value(l.value) },
        Expr::Unary(u) => ExprValue::Unary {
            operator: u.operator@,
            right: Box::new(expr_value(*u.right)),
        },
        Expr::Variable(v) => ExprValue::Variable { name: v.name@ },
        Expr::Assign(a) => ExprValue::Assign {
            name: a.name@,
            value: Box::new(expr_value(*a.value)),
        },
    }
}

/// The tree that a statement stands for.
pub open spec fn stmt_value(s: Stmt) -> StmtValue
    decreases s,
{
    match s {
        Stmt::Expression(e) => StmtValue::Expression { expression: expr_value(*e.expression) },
        Stmt::Print(p) => StmtValue::Print { expression: expr_value(*p.expression) },
        Stmt::Var(v) => StmtValue::Var {
            name: v.name@,
            initializer: match v.initializer {
                Some(e) => Some(expr_value(*e)),
                None => None,
            },
        },
        Stmt::Block(b) => StmtValue::Block { statements: stmt_values(b.statements@) },
    }
}

/// The trees that a sequence of statements stands for.
pub open spec fn stmt_values(stmts: Seq<Stmt>) -> Seq<StmtValue>
    decreases stmts,
{
    if stmts.len() == 0 {
        Seq::empty()
    } else {
        stmt_values(stmts.drop_last()).push(stmt_value(stmts.last()))
    }
}

impl View for Expr {
    type V = ExprValue;

    open spec fn view(&self) -> ExprValue {
        expr_value(*self)
    }
}

impl View for Stmt {
    type V = StmtValue;

    open spec fn view(&self) -> StmtValue {
        stmt_value(*self)
    }
}

impl View for Binary {
    type V = ExprValue;

    open spec fn view(&self) -> ExprValue {
        expr_value(Expr::Binary(*self))
    }
}

impl View for Grouping {
    type V = ExprValue;

    open spec fn view(&self) -> ExprValue {
        expr_value(Expr::Grouping(*self))
    }
}

impl View for Literal {
    type V = ExprValue;

    open spec fn view(&self) -> ExprValue {
        expr_value(Expr::Literal(*self))
    }
}

impl View for Unary {
    type V = ExprValue;

    open spec fn view(&self) -> ExprValue {
        expr_value(Expr::Unary(*self))
    }
}

impl View for Variable {
    type V = ExprValue;

    open spec fn view(&self) -> ExprValue {
        expr_value(Expr::Variable(*self))
    }
}

impl View for Assign {
    type V = ExprValue;

    open spec fn view(&self) -> ExprValue {
        expr_value(Expr::Assign(*self))
    }
}

impl View for Expression {
    type V = StmtValue;

    open spec fn view(&self) -> StmtValue {
        stmt_value(Stmt::Expression(*self))
    }
}

impl View for Print {
    type V = StmtValue;

    open spec fn view(&self) -> StmtValue {
        stmt_value(Stmt::Print(*self))
    }
}

impl View for Var {
    type V = StmtValue;

    open spec fn view(&self) -> StmtValue {
        stmt_value(Stmt::Var(*self))
    }
}

impl View for Block {
    type V = StmtValue;

    open spec fn view(&self) -> StmtValue {
        stmt_value(Stmt::Block(*self))
    }
}

/// The trees of a sequence of statements are the trees of its statements, in order.
pub proof fn lemma_stmt_values(stmts: Seq<Stmt>)
    ensures
        stmt_values(stmts).len() == stmts.len(),
        forall|i: int| 0 <= i < stmts.len() ==> #[trigger] stmt_values(stmts)[i] == stmt_value(stmts[i]),
    decreases stmts.len(),
{
    if stmts.len() > 0 {
        lemma_stmt_values(stmts.drop_last());
    }
}

impl Clone for Expr {
    fn clone(&self) -> (r: Self)
        ensures
            r@ == self@,
        decreases self,
    {
        match self {
            Expr::Binary(b) => Expr::Binary(
                Binary {
                    left: Box::new((*b.left).clone()),
                    operator: b.operator.clone(),
                    right: Box::new((*b.right).clone()),
                },
            ),
            Expr::Grouping(g) => Expr::Grouping(
                Grouping { expression: Box::new((*g.expression).clone()) },
            ),
            Expr::Literal(l) => Expr::Literal(Literal { value: clone_optional(&l.value) }),
            Expr::Unary(u) => Expr::Unary(
                Unary { operator: u.operator.clone(), right: Box::new((*u.right).clone()) },
            ),
            Expr::Variable(v) => Expr::Variable(Variable { name: v.name.clone() }),
            Expr::Assign(a) => Expr::Assign(
                Assign { name: a.name.clone(), value: Box::new((*a.value).clone()) },
            ),
        }
    }
}

impl Clone for Binary {
    fn clone(&self) -> (r: Self)
        ensures
            r@ == self@,
    {
        Binary {
            left: Box::new((*self.left).clone()),
            operator: self.operator.clone(),
            right: Box::new((*self.right).clone()),
        }
    }
}

impl Clone for Grouping {
    fn clone(&self) -> (r: Self)
        ensures
            r@ == self@,
    {
        Grouping { expression: Box::new((*self.expression).clone()) }
    }
}

impl Clone for Literal {
    fn clone(&self) -> (r: Self)
        ensures
            r@ == self@,
    {
        Literal { value: clone_optional(&self.value) }
    }
}

impl Clone for Unary {
    fn clone(&self) -> (r: Self)
        ensures
            r@ == self@,
    {
        Unary { operator: self.operator.clone(), right: Box::new((*self.right).clone()) }
    }
}

impl Clone for Variable {
    fn clone(&self) -> (r: Self)
        ensures
            r@ == self@,
    {
        Variable { name: self.name.clone() }
    }
}

impl Clone for Assign {
    fn clone(&self) -> (r: Self)
        ensures
            r@ == self@,
    {
        Assign { name: self.name.clone(), value: Box::new((*self.value).clone()) }
    }
}

/// A copy of a sequence of statements.
pub fn clone_statements(statements: &Vec<Stmt>) -> (r: Vec<Stmt>)
    ensures
        stmt_values(r@) == stmt_values(statements@),
    decreases statements,
{
    let mut r: Vec<Stmt> = Vec::new();
    let mut i: usize = 0;
    proof {
        assert(statements@.subrange(0, 0) =~= Seq::<Stmt>::empty());
    }
    while i < statements.len()
        invariant
            i <= statements.len(),
            stmt_values(r@) == stmt_values(statements@.subrange(0, i as int)),
        decreases statements.len() - i,
    {
        let ghost before = r@;
        let copy = statements[i].clone();
        r.push(copy);
        i += 1;
        proof {
            assert(r@.drop_last() =~= before);
            assert(statements@.subrange(0, i as int).drop_last() =~= statements@.subrange(
                0,
                i - 1,
            ));
        }
    }
    proof {
        assert(statements@.subrange(0, i as int) =~= statements@);
    }
    r
}

impl Clone for Stmt {
    fn clone(&self) -> (r: Self)
        ensures
            r@ == self@,
        decreases self,
    {
        match self {
            Stmt::Expression(e) => Stmt::Expression(
                Expression { expression: Box::new((*e.expression).clone()) },
            ),
            Stmt::Print(p) => Stmt::Print(Print { expression: Box::new((*p.expression).clone()) }),
            Stmt::Var(v) => Stmt::Var(
                Var {
                    name: v.name.clone(),
                    initializer: match &v.initializer {
                        Some(e) => Some(Box::new((**e).clone())),
                        None => None,
                    },
                },
            ),
            Stmt::Block(b) => Stmt::Block(Block { statements: clone_statements(&b.statements) }),
        }
    }
}

impl Clone for Expression {
    fn clone(&self) -> (r: Self)
        ensures
            r@ == self@,
    {
        Expression { expression: Box::new((*self.expression).clone()) }
    }
}

impl Clone for Print {
    fn clone(&self) -> (r: Self)
        ensures
            r@ == self@,
    {
        Print { expression: Box::new((*self.expression).clone()) }
    }
}

impl Clone for Var {
    fn clone(&self) -> (r: Self)
        ensures
            r@ == self@,
    {
        Var {
            name: self.name.clone(),
            initializer: match &self.initializer {
                Some(e) => Some(Box::new((**e).clone())),
                None => None,
            },
        }
    }
}

impl Clone for Block {
    fn clone(&self) -> (r: Self)
        ensures
            r@ == self@,
    {
        Block { statements: clone_statements(&self.statements) }
    }
}

/// An operation on expressions, with one method for each kind of node.
/// What the operation does is said by [`visits`](VisitorExpr::visits), which
/// every method keeps to.
pub trait VisitorExpr {
    /// What a visit gives.
    type Result;

    /// What a visit of the node with the tree `node` does: how the visitor
    /// after the visit and the result relate to the visitor before it.
    spec fn visits(&self, after: &Self, node: ExprValue, result: Self::Result) -> bool;

    fn visit_expr_binary(&mut self, expr: &Binary) -> (r: Self::Result)
        ensures
            old(self).visits(final(self), expr@, r),
    ;

    fn visit_expr_grouping(&mut self, expr: &Grouping) -> (r: Self::Result)
        ensures
            old(self).visits(final(self), expr@, r),
    ;

    fn visit_expr_literal(&mut self, expr: &Literal) -> (r: Self::Result)
        ensures
            old(self).visits(final(self), expr@, r),
    ;

    fn visit_expr_unary(&mut self, expr: &Unary) -> (r: Self::Result)
        ensures
            old(self).visits(final(self), expr@, r),
    ;

    fn visit_expr_variable(&mut self, expr: &Variable) -> (r: Self::Result)
        ensures
            old(self).visits(final(self), expr@, r),
    ;

    fn visit_expr_assign(&mut self, expr: &Assign) -> (r: Self::Result)
        ensures
            old(self).visits(final(self), expr@, r),
    ;
}

/// An operation on statements, with one method for each kind of statement.
/// What the operation does is said by [`visits`](VisitorStmt::visits), which
/// every method keeps to.
pub trait VisitorStmt {
    /// What a visit gives.
    type Result;

    /// What a visit of the statement with the tree `node` does: how the
    /// visitor after the visit and the result relate to the visitor before it.
    spec fn visits(&self, after: &Self, node: StmtValue, result: Self::Result) -> bool;

    fn visit_stmt_expression(&mut self, expr: &Expression) -> (r: Self::Result)
        ensures
            old(self).visits(final(self), expr@, r),
    ;

    fn visit_stmt_print(&mut self, expr: &Print) -> (r: Self::Result)
        ensures
            old(self).visits(final(self), expr@, r),
    ;

    fn visit_stmt_var(&mut self, stmt: &Var) -> (r: Self::Result)
        ensures
            old(self).visits(final(self), stmt@, r),
    ;

    fn visit_stmt_block(&mut self, expr: &Block) -> (r: Self::Result)
        ensures
            old(self).visits(final(self), expr@, r),
    ;
}

impl AstNode for Binary {
    open spec fn node(&self) -> ExprValue {
        self@
    }

    fn accept<K: VisitorExpr>(&self, visitor: &mut K) -> (r: K::Result) {
        visitor.visit_expr_binary(self)
    }
}

impl AstNode for Grouping {
    open spec fn node(&self) -> ExprValue {
        self@
    }

    fn accept<K: VisitorExpr>(&self, visitor: &mut K) -> (r: K::Result) {
        visitor.visit_expr_grouping(self)
    }
}

impl AstNode for Literal {
    open spec fn node(&self) -> ExprValue {
        self@
    }

    fn accept<K: VisitorExpr>(&self, visitor: &mut K) -> (r: K::Result) {
        visitor.visit_expr_literal(self)
    }
}

impl AstNode for Unary {
    open spec fn node(&self) -> ExprValue {
        self@
    }

    fn accept<K: VisitorExpr>(&self, visitor: &mut K) -> (r: K::Result) {
        visitor.visit_expr_unary(self)
    }
}

impl AstNode for Variable {
    open spec fn node(&self) -> ExprValue {
        self@
    }

    fn accept<K: VisitorExpr>(&self, visitor: &mut K) -> (r: K::Result) {
        visitor.visit_expr_variable(self)
    }
}

impl AstNode for Assign {
    open spec fn node(&self) -> ExprValue {
        self@
    }

    fn accept<K: VisitorExpr>(&self, visitor: &mut K) -> (r: K::Result) {
        visitor.visit_expr_assign(self)
    }
}

impl AstNode for Expr {
    open spec fn node(&self) -> ExprValue {
        self@
    }

    fn accept<K: VisitorExpr>(&self, visitor: &mut K) -> (r: K::Result) {
        match self {
            Expr::Binary(val) => visitor.visit_expr_binary(val),
            Expr::Grouping(val) => visitor.visit_expr_grouping(val),
            Expr::Literal(val) => visitor.visit_expr_literal(val),
            Expr::Unary(val) => visitor.visit_expr_unary(val),
            Expr::Variable(val) => visitor.visit_expr_variable(val),
            Expr::Assign(val) => visitor.visit_expr_assign(val),
        }
    }
}

impl AstStmt for Expression {
    open spec fn node(&self) -> StmtValue {
        self@
    }

    fn accept<V: VisitorStmt>(&self, visitor: &mut V) -> (r: V::Result) {
        visitor.visit_stmt_expression(self)
    }
}

impl AstStmt for Print {
    open spec fn node(&self) -> StmtValue {
        self@
    }

    fn accept<V: VisitorStmt>(&self, visitor: &mut V) -> (r: V::Result) {
        visitor.visit_stmt_print(self)
    }
}

impl AstStmt for Var {
    open spec fn node(&self) -> StmtValue {
        self@
    }

    fn accept<V: VisitorStmt>(&self, visitor: &mut V) -> (r: V::Result) {
        visitor.visit_stmt_var(self)
    }
}

impl AstStmt for Block {
    open spec fn node(&self) -> StmtValue {
        self@
    }

    fn accept<V: VisitorStmt>(&self, visitor: &mut V) -> (r: V::Result) {
        visitor.visit_stmt_block(self)
    }
}

impl AstStmt for Stmt {
    open spec fn node(&self) -> StmtValue {
        self@
    }

    fn accept<V: VisitorStmt>(&self, visitor: &mut V) -> (r: V::Result) {
        match self {
            Stmt::Expression(val) => visitor.visit_stmt_expression(val),
            Stmt::Print(val) => visitor.visit_stmt_print(val),
            Stmt::Var(val) => visitor.visit_stmt_var(val),
            Stmt::Block(val) => visitor.visit_stmt_block(val),
        }
    }
}

} // verus!
