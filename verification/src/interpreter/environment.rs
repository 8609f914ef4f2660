//! Variable storage: a chain of scopes.
//!
//! The scopes of a chain stand in one arena, and the scope that encloses a
//! scope is the one that was opened before it: no scope owns or points to
//! another. In contracts a chain is the sequence of its scopes, the
//! innermost first.
use crate::errors::Error;
use crate::errors::ErrorValue;
use crate::errors::Failure;
use crate::errors::JBreadErrors;
use crate::errors::JBreadResult;
use crate::token::clone_optional;
use crate::token::optional_value;
use crate::token::Literal;
use crate::token::LiteralValue;
use crate::token::Token;
use crate::token::TokenValue;
use vstd::hash_map::StringHashMap;
use vstd::prelude::*;
use vstd::string::StringExecFns;

verus! {

/// What one scope holds: its names, each with a value or with `nil`.
pub type Scope = Map<Seq<char>, Option<LiteralValue>>;

/// What a chain of scopes holds, the innermost scope first.
pub type Scopes = Seq<Scope>;

/// The value of `name` in the innermost scope that binds it; `None` where no
/// scope does.
pub open spec fn lookup(scopes: Scopes, name: Seq<char>) -> Option<Option<LiteralValue>>
    decreases scopes.len(),
{
    if scopes.len() == 0 {
        None
    } else if scopes[0].contains_key(name) {
        Some(scopes[0][name])
    } else {
        lookup(scopes.drop_first(), name)
    }
}

/// Some scope of the chain binds `name`.
pub open spec fn is_bound(scopes: Scopes, name: Seq<char>) -> bool {
    lookup(scopes, name) is Some
}

/// The chain after `name` was given `value` in the innermost scope that binds
/// it. A chain that does not bind `name` stays as it is.
pub open spec fn assigned(scopes: Scopes, name: Seq<char>, value: Option<LiteralValue>) -> Scopes
    decreases scopes.len(),
{
    if scopes.len() == 0 {
        scopes
    } else if scopes[0].contains_key(name) {
        seq![scopes[0].insert(name, value)] + scopes.drop_first()
    } else {
        seq![scopes[0]] + assigned(scopes.drop_first(), name, value)
    }
}

/// The chain after `name` was bound to `value` in its innermost scope.
pub open spec fn defined(scopes: Scopes, name: Seq<char>, value: Option<LiteralValue>) -> Scopes
    recommends
        scopes.len() > 0,
{
    seq![scopes[0].insert(name, value)] + scopes.drop_first()
}

/// The failure that a name without binding gives.
pub open spec fn undefined_variable(name: TokenValue) -> Failure {
    Failure::RunTimeException(
        ErrorValue { line: name.line, place: name.lexeme, message: "Undefined variable"@ },
    )
}

/// What the bindings of one scope stand for.
pub open spec fn scope_of(values: Map<Seq<char>, Option<Literal>>) -> Scope {
    Map::new(|k: Seq<char>| values.contains_key(k), |k: Seq<char>| optional_value(values[k]))
}

/// The chain of the scopes that are open: the global scope, which is always
/// there, and the scopes of the blocks that have been entered and not left.
pub struct Environment {
    /// The global scope.
    globals: StringHashMap<Option<Literal>>,
    /// The scopes of the blocks, in the order in which they were entered.
    locals: Vec<StringHashMap<Option<Literal>>>,
}

impl Environment {
    /// The scopes of the chain, the innermost first and the global scope last.
    pub closed spec fn scopes(&self) -> Scopes {
        Seq::new(
            self.locals@.len() + 1,
            |i: int|
                if 0 <= i < self.locals@.len() {
                    scope_of(self.locals@[self.locals@.len() - 1 - i]@)
                } else {
                    scope_of(self.globals@)
                },
        )
    }
}

impl View for Environment {
    type V = Scopes;

    open spec fn view(&self) -> Scopes {
        self.scopes()
    }
}

/// An empty scope stands for the empty map.
proof fn lemma_scope_of_empty()
    ensures
        scope_of(Map::<Seq<char>, Option<Literal>>::empty()) == Map::<
            Seq<char>,
            Option<LiteralValue>,
        >::empty(),
{
    assert(scope_of(Map::<Seq<char>, Option<Literal>>::empty()) =~= Map::<
        Seq<char>,
        Option<LiteralValue>,
    >::empty());
}

/// A binding added to a scope is a binding added to what the scope stands for.
proof fn lemma_scope_of_insert(values: Map<Seq<char>, Option<Literal>>, name: Seq<char>, value: Option<Literal>)
    ensures
        scope_of(values.insert(name, value)) == scope_of(values).insert(name, optional_value(value)),
{
    assert(scope_of(values.insert(name, value)) =~= scope_of(values).insert(
        name,
        optional_value(value),
    ));
}

/// What is found in a chain whose first `k` scopes do not bind `name` is
/// what is found behind them.
proof fn lemma_lookup_skips(scopes: Scopes, name: Seq<char>, k: int)
    requires
        0 <= k <= scopes.len(),
        forall|i: int| 0 <= i < k ==> !(#[trigger] scopes[i]).contains_key(name),
    ensures
        lookup(scopes, name) == lookup(scopes.subrange(k, scopes.len() as int), name),
    decreases k,
{
    if k == 0 {
        assert(scopes.subrange(0, scopes.len() as int) =~= scopes);
    } else {
        let rest = scopes.drop_first();
        assert forall|i: int| 0 <= i < k - 1 implies !(#[trigger] rest[i]).contains_key(name) by {
            assert(rest[i] == scopes[i + 1]);
        }
        lemma_lookup_skips(rest, name, k - 1);
        assert(rest.subrange(k - 1, rest.len() as int) =~= scopes.subrange(k, scopes.len() as int));
    }
}

/// An assignment to a chain whose first `k` scopes do not bind `name` leaves
/// these as they are and assigns behind them.
proof fn lemma_assigned_skips(scopes: Scopes, name: Seq<char>, value: Option<LiteralValue>, k: int)
    requires
        0 <= k <= scopes.len(),
        forall|i: int| 0 <= i < k ==> !(#[trigger] scopes[i]).contains_key(name),
    ensures
        assigned(scopes, name, value) == scopes.subrange(0, k) + assigned(
            scopes.subrange(k, scopes.len() as int),
            name,
            value,
        ),
    decreases k,
{
    if k == 0 {
        assert(scopes.subrange(0, scopes.len() as int) =~= scopes);
        assert(scopes.subrange(0, 0) + assigned(scopes, name, value) =~= assigned(
            scopes,
            name,
            value,
        ));
    } else {
        let rest = scopes.drop_first();
        assert forall|i: int| 0 <= i < k - 1 implies !(#[trigger] rest[i]).contains_key(name) by {
            assert(rest[i] == scopes[i + 1]);
        }
        lemma_assigned_skips(rest, name, value, k - 1);
        assert(rest.subrange(k - 1, rest.len() as int) =~= scopes.subrange(k, scopes.len() as int));
        assert(seq![scopes[0]] + rest.subrange(0, k - 1) =~= scopes.subrange(0, k));
        let tail = assigned(scopes.subrange(k, scopes.len() as int), name, value);
        assert(seq![scopes[0]] + (rest.subrange(0, k - 1) + tail) =~= scopes.subrange(0, k) + tail);
    }
}

impl Default for Environment {
    /// The global scope alone, empty: a chain of one.
    fn default() -> (r: Self)
        ensures
            r@ == seq![Map::<Seq<char>, Option<LiteralValue>>::empty()],
    {
        let r = Self { globals: StringHashMap::new(), locals: Vec::new() };
        proof {
            lemma_scope_of_empty();
            assert(r@ =~= seq![Map::<Seq<char>, Option<LiteralValue>>::empty()]);
        }
        r
    }
}

impl Environment {
    /// The chain `enclosing` with an empty scope opened inside its innermost scope.
    pub fn new(enclosing: Environment) -> (r: Self)
        ensures
            r@ == seq![Map::<Seq<char>, Option<LiteralValue>>::empty()] + enclosing@,
    {
        let mut r = enclosing;
        r.enter();
        r
    }

    /// Opens an empty scope inside the innermost scope: what a block does on entry.
    pub fn enter(&mut self)
        ensures
            final(self)@ == seq![Map::<Seq<char>, Option<LiteralValue>>::empty()] + old(self)@,
    {
        self.locals.push(StringHashMap::new());
        proof {
            lemma_scope_of_empty();
            assert(self@ =~= seq![Map::<Seq<char>, Option<LiteralValue>>::empty()] + old(self)@);
        }
    }

    /// Discards the innermost scope: what a block does on exit. The global
    /// scope, which nothing encloses, stays.
    pub fn leave(&mut self)
        ensures
            old(self)@.len() > 1 ==> final(self)@ == old(self)@.drop_first(),
            old(self)@.len() <= 1 ==> final(self)@ == old(self)@,
    {
        if self.locals.len() > 0 {
            self.locals.pop();
            assert(self@ =~= old(self)@.drop_first());
        }
    }

    /// A chain has at least its global scope.
    pub proof fn lemma_not_empty(&self)
        ensures
            self@.len() >= 1,
    {
    }

    fn error(name: &Token) -> (r: JBreadErrors)
        ensures
            r@ == undefined_variable(name@),
    {
        JBreadErrors::RunTimeException(
            Error::new(name.line, name.lexeme.clone(), String::from_str("Undefined variable")),
        )
    }

    /// Binds `name` to `value` in the innermost scope, whether or not it was
    /// bound there before. No other scope changes.
    pub fn define(&mut self, name: &str, value: Option<Literal>)
        ensures
            final(self)@ == defined(old(self)@, name@, optional_value(value)),
    {
        let n = self.locals.len();
        if n > 0 {
            self.locals[n - 1].insert(String::from_str(name), value);
            proof {
                lemma_scope_of_insert(old(self).locals@[n - 1]@, name@, value);
            }
        } else {
            self.globals.insert(String::from_str(name), value);
            proof {
                lemma_scope_of_insert(old(self).globals@, name@, value);
            }
        }
        assert(self@ =~= defined(old(self)@, name@, optional_value(value)));
    }

    /// The value of the name that `token` spells, from the innermost scope
    /// that binds it. The scopes are searched from the innermost outwards.
    pub fn get(&self, token: &Token) -> (r: JBreadResult<Option<Literal>>)
        ensures
            match lookup(self@, token@.lexeme) {
                Some(value) => r matches Ok(found) && optional_value(found) == value,
                None => r matches Err(e) && e@ == undefined_variable(token@),
            },
    {
        let n = self.locals.len();
        let mut depth: usize = 0;
        while depth < n
            invariant
                n == self.locals@.len(),
                depth <= n,
                forall|i: int| 0 <= i < depth ==> !(#[trigger] self@[i]).contains_key(token@.lexeme),
            decreases n - depth,
        {
            match self.locals[n - 1 - depth].get(token.lexeme.as_str()) {
                Some(value) => {
                    proof {
                        lemma_lookup_skips(self@, token@.lexeme, depth as int);
                        assert(self@.subrange(depth as int, self@.len() as int)[0] == self@[depth as int]);
                    }
                    return Ok(clone_optional(value));
                },
                None => {},
            }
            depth += 1;
        }
        proof {
            lemma_lookup_skips(self@, token@.lexeme, n as int);
            let rest = self@.subrange(n as int, self@.len() as int);
            assert(rest[0] == self@[n as int]);
            assert(rest.drop_first() =~= Seq::<Scope>::empty());
            assert(lookup(rest.drop_first(), token@.lexeme) is None);
        }
        match self.globals.get(token.lexeme.as_str()) {
            Some(value) => Ok(clone_optional(value)),
            None => Err(Self::error(token)),
        }
    }

    /// Gives the name that `name` spells the value `value` in the innermost
    /// scope that binds it; no other scope changes. Where no scope binds the
    /// name, nothing changes and the call fails: assignment never creates a
    /// binding.
    pub fn assign(&mut self, name: &Token, value: Option<Literal>) -> (r: JBreadResult<()>)
        ensures
            is_bound(old(self)@, name@.lexeme) ==> r is Ok && final(self)@ == assigned(
                old(self)@,
                name@.lexeme,
                optional_value(value),
            ),
            !is_bound(old(self)@, name@.lexeme) ==> final(self)@ == old(self)@ && (r matches Err(e)
                && e@ == undefined_variable(name@)),
    {
        let n = self.locals.len();
        let mut depth: usize = 0;
        let ghost before = self@;
        while depth < n
            invariant
                *self == *old(self),
                before == self@,
                n == self.locals@.len(),
                depth <= n,
                forall|i: int| 0 <= i < depth ==> !(#[trigger] before[i]).contains_key(name@.lexeme),
            decreases n - depth,
        {
            if self.locals[n - 1 - depth].contains_key(name.lexeme.as_str()) {
                self.locals[n - 1 - depth].insert(name.lexeme.clone(), value);
                proof {
                    lemma_scope_of_insert(old(self).locals@[n - 1 - depth]@, name@.lexeme, value);
                    lemma_lookup_skips(before, name@.lexeme, depth as int);
                    lemma_assigned_skips(before, name@.lexeme, optional_value(value), depth as int);
                    let rest = before.subrange(depth as int, before.len() as int);
                    assert(rest[0] == before[depth as int]);
                    assert(self@ =~= before.subrange(0, depth as int) + (seq![
                        rest[0].insert(name@.lexeme, optional_value(value)),
                    ] + rest.drop_first()));
                }
                return Ok(());
            }
            depth += 1;
        }
        proof {
            lemma_lookup_skips(before, name@.lexeme, n as int);
            lemma_assigned_skips(before, name@.lexeme, optional_value(value), n as int);
            let rest = before.subrange(n as int, before.len() as int);
            assert(rest[0] == before[n as int]);
            assert(rest.drop_first() =~= Seq::<Scope>::empty());
            assert(lookup(rest.drop_first(), name@.lexeme) is None);
        }
        if self.globals.contains_key(name.lexeme.as_str()) {
            self.globals.insert(name.lexeme.clone(), value);
            proof {
                lemma_scope_of_insert(old(self).globals@, name@.lexeme, value);
                let rest = before.subrange(n as int, before.len() as int);
                assert(self@ =~= before.subrange(0, n as int) + (seq![
                    rest[0].insert(name@.lexeme, optional_value(value)),
                ] + rest.drop_first()));
            }
            Ok(())
        } else {
            Err(Self::error(name))
        }
    }
}

} // verus!
