//! A printer that writes an expression in prefix form, fully parenthesised.
use crate::ast::Assign;
use crate::ast::Binary;
use crate::ast::Expr;
use crate::ast::ExprValue;
use crate::ast::Grouping;
use crate::ast::Literal;
use crate::ast::Unary;
use crate::ast::Variable;
use crate::ast::VisitorExpr;
use crate::token::text_of;
use crate::token::value_text;
use crate::tool::traits::AstNode;
use vstd::prelude::*;
use vstd::string::StringExecFns;

verus! {

/// The parts, each with a space in front.
pub open spec fn spaced(parts: Seq<Seq<char>>) -> Seq<char>
    decreases parts.len(),
{
    if parts.len() == 0 {
        Seq::empty()
    } else {
        spaced(parts.drop_last()) + seq![' '] + parts.last()
    }
}

/// A name and the parts that belong to it, in parentheses: `(name part part)`.
pub open spec fn parenthesized(name: Seq<char>, parts: Seq<Seq<char>>) -> Seq<char> {
    seq!['('] + name + spaced(parts) + seq![')']
}

/// The printed form of an expression. An operator stands in front of its
/// operands, a grouping is named `group`, a literal is written as its value,
/// a variable as its name, and an assignment as `=` in front of name and value.
pub open spec fn rendering(e: ExprValue) -> Seq<char>
    decreases e,
{
    match e {
        ExprValue::Binary { left, operator, right } => parenthesized(
            operator.lexeme,
            seq![rendering(*left), rendering(*right)],
        ),
        ExprValue::Grouping { expression } => parenthesized("group"@, seq![rendering(*expression)]),
        ExprValue::Literal { value } => value_text(value),
        ExprValue::Unary { operator, right } => parenthesized(
            operator.lexeme,
            seq![rendering(*right)],
        ),
        ExprValue::Variable { name } => name.lexeme,
        ExprValue::Assign { name, value } => parenthesized(
            "="@,
            seq![name.lexeme, rendering(*value)],
        ),
    }
}

/// The printed forms of some nodes, in order.
pub open spec fn renderings<T: AstNode>(exprs: Seq<Box<T>>) -> Seq<Seq<char>> {
    exprs.map_values(|e: Box<T>| rendering(e.node()))
}

/// What some texts stand for.
pub open spec fn texts(parts: Seq<String>) -> Seq<Seq<char>> {
    parts.map_values(|s: String| s@)
}

/// `name` and `parts`, in parentheses.
fn wrap(name: &str, parts: &Vec<String>) -> (r: String)
    ensures
        r@ == parenthesized(name@, texts(parts@)),
{
    let mut result = String::new();
    result.append("(");
    result.append(name);
    let mut i: usize = 0;
    proof {
        reveal_strlit("(");
        assert(texts(parts@).subrange(0, 0) =~= Seq::<Seq<char>>::empty());
    }
    while i < parts.len()
        invariant
            i <= parts.len(),
            result@ == seq!['('] + name@ + spaced(texts(parts@).subrange(0, i as int)),
        decreases parts.len() - i,
    {
        result.append(" ");
        result.append(parts[i].as_str());
        proof {
            reveal_strlit(" ");
            let all = texts(parts@);
            assert(all.subrange(0, i + 1).drop_last() =~= all.subrange(0, i as int));
            assert(all.subrange(0, i + 1).last() == parts@[i as int]@);
        }
        i += 1;
    }
    result.append(")");
    proof {
        reveal_strlit(")");
        assert(texts(parts@).subrange(0, i as int) =~= texts(parts@));
    }
    result
}

/// The printer. It holds nothing: what it prints depends on the tree alone.
pub struct AstPrinter {}

impl Default for AstPrinter {
    fn default() -> Self {
        Self {  }
    }
}

impl AstPrinter {
    /// The printed form of `expr`.
    pub fn print<T: AstNode>(&mut self, expr: T) -> (r: String)
        ensures
            r@ == rendering(expr.node()),
    {
        expr.accept(self)
    }

    /// `name` and the printed forms of `exprs`, in parentheses.
    pub fn parenthesize<T: AstNode>(&mut self, name: &str, exprs: Vec<Box<T>>) -> (r: String)
        ensures
            r@ == parenthesized(name@, renderings(exprs@)),
    {
        let mut parts: Vec<String> = Vec::new();
        let mut i: usize = 0;
        while i < exprs.len()
            invariant
                i <= exprs.len(),
                texts(parts@) == renderings(exprs@).subrange(0, i as int),
            decreases exprs.len() - i,
        {
            let ghost before = parts@;
            let part = (*exprs[i]).accept(self);
            assert(part@ == rendering(exprs@[i as int].node()));
            parts.push(part);
            i += 1;
            assert(parts@.drop_last() =~= before);
            assert(texts(parts@) =~= texts(before).push(part@));
            assert(texts(parts@) =~= renderings(exprs@).subrange(0, i as int));
        }
        assert(renderings(exprs@).subrange(0, i as int) =~= renderings(exprs@));
        wrap(name, &parts)
    }

    /// The printed form of an expression.
    fn expression(&self, expr: &Expr) -> (r: String)
        ensures
            r@ == rendering(expr@),
        decreases expr,
    {
        match expr {
            Expr::Binary(e) => self.binary(e),
            Expr::Grouping(e) => self.grouping(e),
            Expr::Literal(e) => self.literal(e),
            Expr::Unary(e) => self.unary(e),
            Expr::Variable(e) => self.variable(e),
            Expr::Assign(e) => self.assign(e),
        }
    }

    /// The operator, then both operands.
    fn binary(&self, expr: &Binary) -> (r: String)
        ensures
            r@ == rendering(expr@),
        decreases expr,
    {
        let mut parts: Vec<String> = Vec::new();
        parts.push(self.expression(&*expr.left));
        parts.push(self.expression(&*expr.right));
        assert(texts(parts@) =~= seq![rendering(expr.left@), rendering(expr.right@)]);
        wrap(expr.operator.lexeme.as_str(), &parts)
    }

    /// `group`, then what stands in the parentheses.
    fn grouping(&self, expr: &Grouping) -> (r: String)
        ensures
            r@ == rendering(expr@),
        decreases expr,
    {
        let mut parts: Vec<String> = Vec::new();
        parts.push(self.expression(&*expr.expression));
        assert(texts(parts@) =~= seq![rendering(expr.expression@)]);
        wrap("group", &parts)
    }

    /// The value as it is written.
    fn literal(&self, expr: &Literal) -> (r: String)
        ensures
            r@ == rendering(expr@),
    {
        text_of(&expr.value)
    }

    /// The operator, then its operand.
    fn unary(&self, expr: &Unary) -> (r: String)
        ensures
            r@ == rendering(expr@),
        decreases expr,
    {
        let mut parts: Vec<String> = Vec::new();
        parts.push(self.expression(&*expr.right));
        assert(texts(parts@) =~= seq![rendering(expr.right@)]);
        wrap(expr.operator.lexeme.as_str(), &parts)
    }

    /// The name.
    fn variable(&self, expr: &Variable) -> (r: String)
        ensures
            r@ == rendering(expr@),
    {
        expr.name.lexeme.clone()
    }

    /// `=`, then the name and the value.
    fn assign(&self, expr: &Assign) -> (r: String)
        ensures
            r@ == rendering(expr@),
        decreases expr,
    {
        let mut parts: Vec<String> = Vec::new();
        parts.push(expr.name.lexeme.clone());
        parts.push(self.expression(&*expr.value));
        assert(texts(parts@) =~= seq![expr.name@.lexeme, rendering(expr.value@)]);
        wrap("=", &parts)
    }
}

impl VisitorExpr for AstPrinter {
    type Result = String;

    /// A visit gives the printed form of the node and leaves the printer as it is.
    open spec fn visits(&self, after: &Self, node: ExprValue, result: Self::Result) -> bool {
        result@ == rendering(node) && *after == *self
    }

    fn visit_expr_binary(&mut self, expr: &Binary) -> (r: String) {
        self.binary(expr)
    }

    fn visit_expr_grouping(&mut self, expr: &Grouping) -> (r: String) {
        self.grouping(expr)
    }

    fn visit_expr_literal(&mut self, expr: &Literal) -> (r: String) {
        self.literal(expr)
    }

    fn visit_expr_unary(&mut self, expr: &Unary) -> (r: String) {
        self.unary(expr)
    }

    fn visit_expr_variable(&mut self, expr: &Variable) -> (r: String) {
        self.variable(expr)
    }

    fn visit_expr_assign(&mut self, expr: &Assign) -> (r: String) {
        self.assign(expr)
    }
}

/// What is printed depends on the tree alone: two expressions that stand for
/// the same tree are printed as the same text, whenever and however often.
pub proof fn lemma_print_is_stable(a: Expr, b: Expr)
    requires
        a@ == b@,
    ensures
        rendering(a@) == rendering(b@),
{
}

} // verus!
