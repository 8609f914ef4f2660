//! Double dispatch over the syntax tree: a node accepts a visitor and calls
//! the method of the visitor that is for its kind, so that an operation on
//! the tree is a visitor and leaves the nodes as they are.
use crate::ast::ExprValue;
use crate::ast::StmtValue;
use crate::ast::VisitorExpr;
use crate::ast::VisitorStmt;
use vstd::prelude::*;

verus! {

/// A statement, or a node that is a statement of one kind.
pub trait AstStmt {
    /// The tree of the statement.
    spec fn node(&self) -> StmtValue;

    /// Calls the method of `visitor` that is for this kind of statement, and
    /// returns what it gives.
    fn accept<V: VisitorStmt>(&self, visitor: &mut V) -> (r: V::Result)
        ensures
            old(visitor).visits(final(visitor), self.node(), r),
    ;
}

/// An expression, or a node that is an expression of one kind.
pub trait AstNode {
    /// The tree of the node.
    spec fn node(&self) -> ExprValue;

    /// Calls the method of `visitor` that is for this kind of node, and
    /// returns what it gives.
    fn accept<K: VisitorExpr>(&self, visitor: &mut K) -> (r: K::Result)
        ensures
            old(visitor).visits(final(visitor), self.node(), r),
    ;
}

} // verus!
