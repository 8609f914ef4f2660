//! What execution does to the scopes: which names stay bound, and where.
use crate::ast::ExprValue;
use crate::ast::StmtValue;
use crate::interpreter::environment::assigned;
use crate::interpreter::environment::is_bound;
use crate::interpreter::environment::lookup;
use crate::interpreter::environment::Scopes;
use crate::interpreter::interpret::entered;
use crate::interpreter::interpret::evaluate;
use crate::interpreter::interpret::execute;
use crate::interpreter::interpret::execute_all;
use crate::interpreter::interpret::World;
use crate::token::LiteralValue;
use crate::token::TokenValue;
use vstd::prelude::*;

verus! {

/// Two chains have the same scopes with the same names; the values may differ.
pub open spec fn same_names(a: Scopes, b: Scopes) -> bool {
    &&& a.len() == b.len()
    &&& forall|i: int| 0 <= i < a.len() ==> #[trigger] a[i].dom() == b[i].dom()
}

/// The chain `b` has the scopes of `a` with the names of `a`, and its
/// innermost scope may bind names that the innermost scope of `a` does not.
pub open spec fn innermost_grown(a: Scopes, b: Scopes) -> bool {
    &&& a.len() == b.len()
    &&& a.len() > 0
    &&& a[0].dom().subset_of(b[0].dom())
    &&& forall|i: int| 1 <= i < a.len() ==> #[trigger] a[i].dom() == b[i].dom()
}

/// The place in the chain of the innermost scope that binds `name`; the
/// length of the chain where no scope binds it.
pub open spec fn binding_scope(scopes: Scopes, name: Seq<char>) -> int
    decreases scopes.len(),
{
    if scopes.len() == 0 || scopes[0].contains_key(name) {
        0
    } else {
        1 + binding_scope(scopes.drop_first(), name)
    }
}

/// An assignment changes one scope at most: the innermost that binds the
/// name gets the value for the name, and every other scope stays as it is.
pub proof fn lemma_assigned_changes_one_scope(
    scopes: Scopes,
    name: Seq<char>,
    value: Option<LiteralValue>,
)
    ensures
        assigned(scopes, name, value).len() == scopes.len(),
        0 <= binding_scope(scopes, name) <= scopes.len(),
        is_bound(scopes, name) <==> binding_scope(scopes, name) < scopes.len(),
        forall|i: int|
            0 <= i < scopes.len() ==> #[trigger] assigned(scopes, name, value)[i] == if i
                == binding_scope(scopes, name) {
                scopes[i].insert(name, value)
            } else {
                scopes[i]
            },
    decreases scopes.len(),
{
    let after = assigned(scopes, name, value);
    if scopes.len() == 0 {
    } else if scopes[0].contains_key(name) {
        assert forall|i: int| 0 <= i < scopes.len() implies #[trigger] after[i] == if i == 0 {
            scopes[i].insert(name, value)
        } else {
            scopes[i]
        } by {
            if i > 0 {
                assert(after[i] == scopes.drop_first()[i - 1]);
            }
        }
    } else {
        let rest = scopes.drop_first();
        lemma_assigned_changes_one_scope(rest, name, value);
        let place = binding_scope(scopes, name);
        assert forall|i: int| 0 <= i < scopes.len() implies #[trigger] after[i] == if i == place {
            scopes[i].insert(name, value)
        } else {
            scopes[i]
        } by {
            if i > 0 {
                assert(after[i] == assigned(rest, name, value)[i - 1]);
                assert(scopes[i] == rest[i - 1]);
            }
        }
    }
}

/// An assignment binds no name and unbinds none.
pub proof fn lemma_assigned_same_names(scopes: Scopes, name: Seq<char>, value: Option<LiteralValue>)
    ensures
        same_names(scopes, assigned(scopes, name, value)),
    decreases scopes.len(),
{
    let after = assigned(scopes, name, value);
    if scopes.len() == 0 {
    } else if scopes[0].contains_key(name) {
        assert(scopes[0].insert(name, value).dom() =~= scopes[0].dom());
        assert forall|i: int| 0 <= i < scopes.len() implies #[trigger] scopes[i].dom()
            == after[i].dom() by {
            if i > 0 {
                assert(after[i] == scopes.drop_first()[i - 1]);
            }
        }
    } else {
        lemma_assigned_same_names(scopes.drop_first(), name, value);
        let rest = assigned(scopes.drop_first(), name, value);
        assert forall|i: int| 0 <= i < scopes.len() implies #[trigger] scopes[i].dom()
            == after[i].dom() by {
            if i > 0 {
                assert(after[i] == rest[i - 1]);
                assert(scopes[i] == scopes.drop_first()[i - 1]);
            }
        }
    }
}

/// What an assignment gives a bound name is what a lookup of the name finds afterwards.
pub proof fn lemma_assigned_is_found(scopes: Scopes, name: Seq<char>, value: Option<LiteralValue>)
    requires
        is_bound(scopes, name),
    ensures
        lookup(assigned(scopes, name, value), name) == Some(value),
    decreases scopes.len(),
{
    let after = assigned(scopes, name, value);
    if scopes.len() == 0 {
    } else if scopes[0].contains_key(name) {
        assert(after[0] == scopes[0].insert(name, value));
    } else {
        lemma_assigned_is_found(scopes.drop_first(), name, value);
        assert(after[0] == scopes[0]);
        assert(after.drop_first() =~= assigned(scopes.drop_first(), name, value));
    }
}

/// The evaluation of an expression binds no name and unbinds none, whether
/// it ends in a value or in a failure.
pub proof fn lemma_evaluate_same_names(e: ExprValue, scopes: Scopes)
    ensures
        same_names(scopes, evaluate(e, scopes).scopes),
    decreases e,
{
    match e {
        ExprValue::Literal { value } => {},
        ExprValue::Grouping { expression } => {
            lemma_evaluate_same_names(*expression, scopes);
        },
        ExprValue::Unary { operator, right } => {
            lemma_evaluate_same_names(*right, scopes);
        },
        ExprValue::Binary { left, operator, right } => {
            lemma_evaluate_same_names(*left, scopes);
            let first = evaluate(*left, scopes);
            lemma_evaluate_same_names(*right, first.scopes);
        },
        ExprValue::Variable { name } => {},
        ExprValue::Assign { name, value } => {
            lemma_evaluate_same_names(*value, scopes);
            let given = evaluate(*value, scopes);
            match given.result {
                Ok(v) => {
                    lemma_assigned_same_names(given.scopes, name.lexeme, v);
                },
                Err(f) => {},
            }
        },
    }
}

/// The execution of a statement keeps every scope and every name in it; all
/// that it may add are names in the innermost scope.
pub proof fn lemma_execute_grows_innermost(s: StmtValue, world: World)
    requires
        world.scopes.len() > 0,
    ensures
        innermost_grown(world.scopes, execute(s, world).world.scopes),
    decreases s,
{
    match s {
        StmtValue::Expression { expression } => {
            lemma_evaluate_same_names(expression, world.scopes);
        },
        StmtValue::Print { expression } => {
            lemma_evaluate_same_names(expression, world.scopes);
        },
        StmtValue::Var { name, initializer } => {
            match initializer {
                Some(e) => {
                    lemma_evaluate_same_names(e, world.scopes);
                },
                None => {},
            }
        },
        StmtValue::Block { statements } => {
            let inside = World { scopes: entered(world.scopes), output: world.output };
            lemma_execute_all_grows_innermost(statements, inside);
            let inner = execute_all(statements, inside);
            assert forall|i: int| 0 <= i < world.scopes.len() implies #[trigger] world.scopes[i].dom()
                == inner.world.scopes.drop_first()[i].dom() by {
                assert(world.scopes[i] == inside.scopes[i + 1]);
            }
        },
    }
}

/// The execution of statements one after the other keeps every scope and
/// every name in it; all that it may add are names in the innermost scope.
pub proof fn lemma_execute_all_grows_innermost(stmts: Seq<StmtValue>, world: World)
    requires
        world.scopes.len() > 0,
    ensures
        innermost_grown(world.scopes, execute_all(stmts, world).world.scopes),
    decreases stmts,
{
    if stmts.len() > 0 {
        lemma_execute_grows_innermost(stmts[0], world);
        let first = execute(stmts[0], world);
        if first.failure is None {
            lemma_execute_all_grows_innermost(stmts.drop_first(), first.world);
        }
    }
}

/// What a block binds is gone when the block ends: after a block, whether it
/// ended in a failure or not, the chain has the scopes that it had before,
/// and each scope binds the names that it bound before. So a name is bound
/// after the block if and only if it was bound before it.
pub proof fn lemma_block_leaves_no_binding(statements: Seq<StmtValue>, world: World)
    requires
        world.scopes.len() > 0,
    ensures
        same_names(world.scopes, execute(StmtValue::Block { statements }, world).world.scopes),
        forall|name: Seq<char>|
            is_bound(execute(StmtValue::Block { statements }, world).world.scopes, name)
                == is_bound(world.scopes, name),
{
    let inside = World { scopes: entered(world.scopes), output: world.output };
    lemma_execute_all_grows_innermost(statements, inside);
    let inner = execute_all(statements, inside);
    let after = execute(StmtValue::Block { statements }, world).world.scopes;
    assert(after == inner.world.scopes.drop_first());
    assert forall|i: int| 0 <= i < world.scopes.len() implies #[trigger] world.scopes[i].dom()
        == after[i].dom() by {
        assert(world.scopes[i] == inside.scopes[i + 1]);
    }
    assert forall|name: Seq<char>| is_bound(after, name) == is_bound(world.scopes, name) by {
        lemma_same_names_same_bound(world.scopes, after, name);
    }
}

/// Chains with the same names bind the same names.
pub proof fn lemma_same_names_same_bound(a: Scopes, b: Scopes, name: Seq<char>)
    requires
        same_names(a, b),
    ensures
        is_bound(a, name) == is_bound(b, name),
    decreases a.len(),
{
    if a.len() > 0 {
        assert(a[0].dom() == b[0].dom());
        if !a[0].contains_key(name) {
            assert forall|i: int| 0 <= i < a.drop_first().len() implies #[trigger] a.drop_first()[i].dom()
                == b.drop_first()[i].dom() by {
                assert(a.drop_first()[i] == a[i + 1]);
                assert(b.drop_first()[i] == b[i + 1]);
            }
            lemma_same_names_same_bound(a.drop_first(), b.drop_first(), name);
        }
    }
}

/// What a block assigns to a name of an enclosing scope stays assigned when
/// the block has ended: after a block that assigns `value` to the bound name
/// `name` and does nothing else, the chain is the chain before with `value`
/// assigned to `name`, and a lookup of `name` finds `value`.
pub proof fn lemma_block_assignment_stays(name: TokenValue, value: Option<LiteralValue>, world: World)
    requires
        world.scopes.len() > 0,
        is_bound(world.scopes, name.lexeme),
    ensures
        ({
            let assignment = StmtValue::Expression {
                expression: ExprValue::Assign {
                    name,
                    value: Box::new(ExprValue::Literal { value }),
                },
            };
            let after = execute(StmtValue::Block { statements: seq![assignment] }, world);
            &&& after.failure is None
            &&& after.world.output == world.output
            &&& after.world.scopes == assigned(world.scopes, name.lexeme, value)
            &&& lookup(after.world.scopes, name.lexeme) == Some(value)
        }),
{
    let assignment = StmtValue::Expression {
        expression: ExprValue::Assign { name, value: Box::new(ExprValue::Literal { value }) },
    };
    let stmts = seq![assignment];
    let inside = World { scopes: entered(world.scopes), output: world.output };
    let empty = Map::<Seq<char>, Option<LiteralValue>>::empty();
    assert(inside.scopes[0] == empty);
    assert(inside.scopes.drop_first() =~= world.scopes);
    assert(!inside.scopes[0].contains_key(name.lexeme));
    assert(lookup(inside.scopes, name.lexeme) == lookup(world.scopes, name.lexeme));
    let inner_scopes = assigned(inside.scopes, name.lexeme, value);
    assert(inner_scopes == seq![empty] + assigned(world.scopes, name.lexeme, value));
    let given = evaluate(ExprValue::Literal { value }, inside.scopes);
    assert(given.scopes == inside.scopes && given.result == Ok::<Option<LiteralValue>, crate::errors::Failure>(value));
    let one = execute(assignment, inside);
    assert(one.failure is None);
    assert(one.world.scopes == inner_scopes);
    assert(stmts[0] == assignment);
    assert(stmts.drop_first() =~= Seq::<StmtValue>::empty());
    assert(execute_all(stmts.drop_first(), one.world).world == one.world);
    let all = execute_all(stmts, inside);
    assert(all.world.scopes == inner_scopes);
    lemma_assigned_same_names(world.scopes, name.lexeme, value);
    assert(inner_scopes.drop_first() =~= assigned(world.scopes, name.lexeme, value));
    lemma_assigned_is_found(world.scopes, name.lexeme, value);
}

} // verus!
