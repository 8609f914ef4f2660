//! What the parser's trees look like: operators that bind tighter stand deeper.
use crate::ast::ExprValue;
use crate::parser::assignment;
use crate::parser::at_end;
use crate::parser::binary;
use crate::parser::binary_rest;
use crate::parser::expression;
use crate::parser::is_at;
use crate::parser::is_operator;
use crate::parser::kind_at;
use crate::parser::operand;
use crate::parser::primary;
use crate::parser::remaining;
use crate::parser::unary;
use crate::parser::Parsed;
use crate::token::TokenTypes;
use crate::token::TokenValue;
use vstd::prelude::*;

verus! {

/// The level of precedence of a binary operator, the tightest first: 1 for
/// `/` and `*`, 2 for `-` and `+`, 3 for the comparisons, 4 for `!=` and
/// `==`; 0 for a token that is no binary operator.
pub open spec fn level_of(kind: TokenTypes) -> nat {
    if is_operator(1, kind) {
        1
    } else if is_operator(2, kind) {
        2
    } else if is_operator(3, kind) {
        3
    } else if is_operator(4, kind) {
        4
    } else {
        0
    }
}

/// How loosely the outermost operator of a tree binds: the level of a binary
/// operator, 5 for an assignment, and 0 for everything that needs no
/// parentheses anywhere: a literal, a variable, a grouping, a unary operation.
pub open spec fn looseness(e: ExprValue) -> nat {
    match e {
        ExprValue::Binary { left, operator, right } => level_of(operator.token_type),
        ExprValue::Assign { name, value } => 5,
        _ => 0,
    }
}

/// The tree is one that the parser builds: under a binary operator, the left
/// operand binds as tightly as the operator or tighter and the right operand
/// binds tighter; the operand of a unary operator is a literal, a variable,
/// a grouping or a unary operation; and so it is in every part of the tree.
/// Inside a grouping and on the right of an assignment anything may stand.
pub open spec fn well_nested(e: ExprValue) -> bool
    decreases e,
{
    match e {
        ExprValue::Binary { left, operator, right } => {
            &&& level_of(operator.token_type) >= 1
            &&& looseness(*left) <= level_of(operator.token_type)
            &&& looseness(*right) < level_of(operator.token_type)
            &&& well_nested(*left)
            &&& well_nested(*right)
        },
        ExprValue::Unary { operator, right } => looseness(*right) == 0 && well_nested(*right),
        ExprValue::Grouping { expression } => well_nested(*expression),
        ExprValue::Assign { name, value } => well_nested(*value),
        ExprValue::Literal { value } => true,
        ExprValue::Variable { name } => true,
    }
}

/// What `primary` gives binds tightest and is well nested.
proof fn lemma_primary(ts: Seq<TokenValue>, p: nat)
    ensures
        primary(ts, p) matches Parsed::Done { value, used } ==> looseness(value) == 0 && well_nested(
            value,
        ),
    decreases remaining(ts, p), 0nat,
{
    if is_at(ts, p, TokenTypes::False) || is_at(ts, p, TokenTypes::True) || is_at(
        ts,
        p,
        TokenTypes::Nil,
    ) || is_at(ts, p, TokenTypes::NaN) || is_at(ts, p, TokenTypes::String) || is_at(
        ts,
        p,
        TokenTypes::Number,
    ) || is_at(ts, p, TokenTypes::Identifier) {
    } else if is_at(ts, p, TokenTypes::LeftParen) {
        lemma_expression(ts, p + 1);
    }
}

/// What `unary` gives binds tightest and is well nested.
proof fn lemma_unary(ts: Seq<TokenValue>, p: nat)
    ensures
        unary(ts, p) matches Parsed::Done { value, used } ==> looseness(value) == 0 && well_nested(
            value,
        ),
    decreases remaining(ts, p), 1nat,
{
    if is_at(ts, p, TokenTypes::Bang) || is_at(ts, p, TokenTypes::Minus) {
        lemma_unary(ts, p + 1);
    } else {
        lemma_primary(ts, p);
    }
}

/// What an operand of the binary rule of `level` gives binds tighter than
/// the operators of `level`, and is well nested.
proof fn lemma_operand(ts: Seq<TokenValue>, p: nat, level: nat)
    requires
        1 <= level <= 4,
    ensures
        operand(ts, p, level) matches Parsed::Done { value, used } ==> looseness(value) < level
            && well_nested(value),
    decreases remaining(ts, p), 3 * level + 2,
{
    if level <= 1 {
        lemma_unary(ts, p);
    } else {
        lemma_binary(ts, p, (level - 1) as nat);
    }
}

/// What the binary rule of `level` gives binds as tightly as the operators
/// of `level` or tighter, and is well nested.
proof fn lemma_binary(ts: Seq<TokenValue>, p: nat, level: nat)
    requires
        level <= 4,
    ensures
        binary(ts, p, level) matches Parsed::Done { value, used } ==> looseness(value) <= level
            && well_nested(value),
    decreases remaining(ts, p), 3 * level + 4,
{
    if level == 0 {
        lemma_unary(ts, p);
    } else {
        lemma_operand(ts, p, level);
        match operand(ts, p, level) {
            Parsed::Done { value, used } => {
                lemma_binary_rest(ts, p + used, level, value);
            },
            Parsed::Failed { error, at } => {},
        }
    }
}

/// What the rest of the binary rule of `level` makes of a well nested left
/// operand that binds as tightly as the operators of `level` or tighter, is
/// such a tree again.
proof fn lemma_binary_rest(ts: Seq<TokenValue>, p: nat, level: nat, left: ExprValue)
    requires
        1 <= level <= 4,
        looseness(left) <= level,
        well_nested(left),
    ensures
        binary_rest(ts, p, level, left) matches Parsed::Done { value, used } ==> looseness(value)
            <= level && well_nested(value),
    decreases remaining(ts, p), 3 * level + 3,
{
    if !at_end(ts, p) && is_operator(level, kind_at(ts, p)) {
        lemma_operand(ts, p + 1, level);
        match operand(ts, p + 1, level) {
            Parsed::Done { value, used } => {
                let joined = ExprValue::Binary {
                    left: Box::new(left),
                    operator: ts[p as int],
                    right: Box::new(value),
                };
                assert(level_of(ts[p as int].token_type) == level);
                lemma_binary_rest(ts, p + 1 + used, level, joined);
            },
            Parsed::Failed { error, at } => {},
        }
    }
}

/// What `assignment` gives is well nested.
proof fn lemma_assignment(ts: Seq<TokenValue>, p: nat)
    ensures
        assignment(ts, p) matches Parsed::Done { value, used } ==> well_nested(value),
    decreases remaining(ts, p), 17nat,
{
    lemma_binary(ts, p, 4);
    match binary(ts, p, 4) {
        Parsed::Done { value: target, used } => {
            if is_at(ts, p + used, TokenTypes::Equal) {
                lemma_assignment(ts, p + used + 1);
            }
        },
        Parsed::Failed { error, at } => {},
    }
}

/// What `expression` gives is well nested.
proof fn lemma_expression(ts: Seq<TokenValue>, p: nat)
    ensures
        expression(ts, p) matches Parsed::Done { value, used } ==> well_nested(value),
    decreases remaining(ts, p), 18nat,
{
    lemma_assignment(ts, p);
}

/// The parser follows the precedence of the operators: whatever the tokens,
/// the tree of an expression is well nested. An operator that binds tighter
/// stands deeper in the tree than a looser one beside it, and of two
/// operators of one level the left one stands deeper. So `1 + 2 * 3` is the
/// sum of `1` and the product, and `1 - 2 - 3` the difference of the
/// difference and `3`.
pub proof fn lemma_precedence(ts: Seq<TokenValue>, p: nat)
    ensures
        expression(ts, p) matches Parsed::Done { value, used } ==> well_nested(value),
        forall|level: nat|
            level <= 4 ==> (#[trigger] binary(ts, p, level) matches Parsed::Done { value, used }
                ==> looseness(value) <= level && well_nested(value)),
{
    lemma_expression(ts, p);
    assert forall|level: nat| level <= 4 implies (#[trigger] binary(ts, p, level) matches Parsed::Done {
        value,
        used,
    } ==> looseness(value) <= level && well_nested(value)) by {
        lemma_binary(ts, p, level);
    }
}

} // verus!
