//! Environments: chained name-to-value scopes. The whole parent-pointer tree
//! lives in one arena and scopes are named by index, which gives them the
//! shared mutable ownership the language needs: a closure, a caller and the
//! interpreter may all hold the same scope.
use crate::error::Error;
use crate::fxunit::{FxUnit, UnitV};
use crate::table::{map_of, table_get, table_has, table_put};
use crate::tokens::Token;
use vstd::prelude::*;
use vstd::string::StringExecFns;

verus! {

/// One scope: its bindings and its enclosing scope, if any.
pub struct EnvNode {
    pub values: Vec<(String, FxUnit)>,
    pub enclosing: Option<usize>,
}

/// The arena of scopes. Slot 0 is the global scope.
pub struct Environment {
    pub nodes: Vec<EnvNode>,
}

impl Environment {
    /// Every scope's parent was created before it, so every enclosing chain
    /// reaches a root.
    pub open spec fn wf(&self) -> bool {
        &&& self.nodes@.len() >= 1
        &&& forall|i: int|
            0 <= i < self.nodes@.len() ==> match (#[trigger] self.nodes@[i]).enclosing {
                Some(j) => 0 <= j < i,
                None => true,
            }
    }

    pub open spec fn len(&self) -> int {
        self.nodes@.len() as int
    }

    /// The bindings of scope `i`.
    pub open spec fn map_at(&self, i: int) -> Map<Seq<char>, UnitV> {
        map_of(self.nodes@[i].values@)
    }

    /// The scope enclosing scope `i`, if any.
    pub open spec fn parent_of(&self, i: int) -> Option<int> {
        match self.nodes@[i].enclosing {
            Some(j) => Some(j as int),
            None => None,
        }
    }

    /// What chained lookup from scope `i` outward finds for `name`.
    pub open spec fn chain_get(&self, i: int, name: Seq<char>) -> Option<UnitV>
        decreases i,
    {
        if !(0 <= i < self.len()) {
            None
        } else if self.map_at(i).contains_key(name) {
            Some(self.map_at(i)[name])
        } else {
            match self.parent_of(i) {
                Some(j) => if 0 <= j < i {
                    self.chain_get(j, name)
                } else {
                    None
                },
                None => None,
            }
        }
    }

    /// The nearest scope of the chain from `i` outward that binds `name`.
    pub open spec fn chain_holder(&self, i: int, name: Seq<char>) -> Option<int>
        decreases i,
    {
        if !(0 <= i < self.len()) {
            None
        } else if self.map_at(i).contains_key(name) {
            Some(i)
        } else {
            match self.parent_of(i) {
                Some(j) => if 0 <= j < i {
                    self.chain_holder(j, name)
                } else {
                    None
                },
                None => None,
            }
        }
    }

    /// The scope `distance` steps up the enclosing chain from `i`, or nothing
    /// when the chain is shorter.
    pub open spec fn ancestor_of(&self, i: int, distance: int) -> Option<int>
        decreases distance,
    {
        if distance <= 0 {
            Some(i)
        } else if 0 <= i < self.len() {
            match self.parent_of(i) {
                Some(j) => self.ancestor_of(j, distance - 1),
                None => None,
            }
        } else {
            None
        }
    }

    /// Unchanged everywhere, except that scope `i`'s bindings may differ.
    pub open spec fn same_but(&self, post: Environment, i: int) -> bool {
        &&& post.nodes@.len() == self.nodes@.len()
        &&& forall|j: int| 0 <= j < self.nodes@.len() && j != i ==> post.nodes@[j] == self.nodes@[j]
        &&& post.nodes@[i].enclosing == self.nodes@[i].enclosing
    }

    /// A fresh arena holding only the empty global scope.
    pub fn new() -> (e: Environment)
        ensures
            e.wf(),
            e.len() == 1,
            e.map_at(0) == Map::<Seq<char>, UnitV>::empty(),
            e.parent_of(0) is None,
    {
        let mut nodes: Vec<EnvNode> = Vec::new();
        nodes.push(EnvNode { values: Vec::new(), enclosing: None });
        Environment { nodes }
    }

    /// A fresh scope whose enclosing scope is `enclosing`; its index is the
    /// arena's previous length.
    pub fn from(&mut self, enclosing: usize) -> (i: usize)
        requires
            old(self).wf(),
            enclosing < old(self).len(),
        ensures
            final(self).wf(),
            i as int == old(self).len(),
            final(self).len() == old(self).len() + 1,
            forall|j: int| 0 <= j < old(self).len() ==> final(self).nodes@[j] == old(self).nodes@[j],
            final(self).map_at(i as int) == Map::<Seq<char>, UnitV>::empty(),
            final(self).parent_of(i as int) == Some(enclosing as int),
    {
        let i = self.nodes.len();
        self.nodes.push(EnvNode { values: Vec::new(), enclosing: Some(enclosing) });
        i
    }

    /// Binds `name` to `value` in scope `env`, shadowing nothing and asking
    /// nothing: definition always succeeds.
    pub fn define(&mut self, env: usize, name: String, value: FxUnit)
        requires
            old(self).wf(),
            env < old(self).len(),
        ensures
            final(self).wf(),
            old(self).same_but(*final(self), env as int),
            final(self).map_at(env as int) == old(self).map_at(env as int).insert(name@, value@),
    {
        let node = &mut self.nodes[env];
        table_put(&mut node.values, name, value);
    }

    /// The value of `name` by chained lookup from scope `env` outward; an
    /// undefined variable is a runtime error naming it.
    pub fn get(&self, env: usize, name: &Token) -> (r: Result<FxUnit, Error>)
        requires
            self.wf(),
            env < self.len(),
        ensures
            match r {
                Ok(v) => self.chain_get(env as int, name@.lexeme) == Some(v@),
                Err(e) => {
                    &&& self.chain_get(env as int, name@.lexeme) is None
                    &&& undefined_variable_error(e, name@)
                },
            },
        decreases env,
    {
        match table_get(&self.nodes[env].values, name.lexeme.as_str()) {
            Some(v) => Ok(v.duplicate()),
            None => {
                match self.nodes[env].enclosing {
                    Some(j) => self.get(j, name),
                    None => Err(undefined_variable(name)),
                }
            },
        }
    }

    /// Updates the binding of `name` in the nearest scope of the chain that
    /// holds one; an undefined variable is a runtime error naming it.
    pub fn assign(&mut self, env: usize, name: &Token, val: FxUnit) -> (r: Result<(), Error>)
        requires
            old(self).wf(),
            env < old(self).len(),
        ensures
            final(self).wf(),
            final(self).len() == old(self).len(),
            match r {
                Ok(()) => {
                    let h = old(self).chain_holder(env as int, name@.lexeme);
                    &&& h is Some
                    &&& old(self).same_but(*final(self), h->0)
                    &&& final(self).map_at(h->0) == old(self).map_at(h->0).insert(
                        name@.lexeme,
                        val@,
                    )
                },
                Err(e) => {
                    &&& *final(self) == *old(self)
                    &&& old(self).chain_holder(env as int, name@.lexeme) is None
                    &&& undefined_variable_error(e, name@)
                },
            },
        decreases env,
    {
        if table_has(&self.nodes[env].values, name.lexeme.as_str()) {
            let node = &mut self.nodes[env];
            table_put(&mut node.values, name.lexeme.clone(), val);
            proof {
                assert(old(self).same_but(*self, env as int));
                assert(self.map_at(env as int) == old(self).map_at(env as int).insert(
                    name@.lexeme,
                    val@,
                ));
            }
            Ok(())
        } else {
            match self.nodes[env].enclosing {
                Some(j) => self.assign(j, name, val),
                None => Err(undefined_variable(name)),
            }
        }
    }

    /// The scope `distance` steps up the chain from `env`, or a runtime error
    /// when the chain is shorter, which the resolver's depths rule out.
    pub fn ancestor(&self, env: usize, distance: usize) -> (r: Result<usize, Error>)
        requires
            self.wf(),
            env < self.len(),
        ensures
            match r {
                Ok(i) => self.ancestor_of(env as int, distance as int) == Some(i as int) && i
                    < self.len(),
                Err(e) => self.ancestor_of(env as int, distance as int) is None && e is Runtime,
            },
        decreases distance,
    {
        if distance == 0 {
            Ok(env)
        } else {
            match self.nodes[env].enclosing {
                Some(j) => self.ancestor(j, distance - 1),
                None => Err(
                    Error::Runtime {
                        token: Token::new(crate::tokens::TokenType::Eof, "", 0),
                        message: String::from_str("No enclosing environment."),
                    },
                ),
            }
        }
    }

    /// The value of `name` in the scope exactly `distance` steps up the chain:
    /// a result exactly when that scope exists and binds the name, else a
    /// runtime error — which the resolver's depths rule out for resolved
    /// references.
    pub fn get_at(&self, env: usize, distance: usize, name: &str) -> (r: Result<FxUnit, Error>)
        requires
            self.wf(),
            env < self.len(),
        ensures
            match r {
                Ok(v) => {
                    &&& self.ancestor_of(env as int, distance as int) is Some
                    &&& self.map_at(self.ancestor_of(env as int, distance as int)->0).contains_key(
                        name@,
                    )
                    &&& self.map_at(self.ancestor_of(env as int, distance as int)->0)[name@] == v@
                },
                Err(e) => {
                    &&& e is Runtime
                    &&& match self.ancestor_of(env as int, distance as int) {
                        Some(a) => !self.map_at(a).contains_key(name@),
                        None => true,
                    }
                },
            },
    {
        let at = self.ancestor(env, distance)?;
        match table_get(&self.nodes[at].values, name) {
            Some(v) => Ok(v.duplicate()),
            None => Err(
                Error::Runtime {
                    token: Token::new(crate::tokens::TokenType::Eof, "", 0),
                    message: String::from_str("Undefined variable."),
                },
            ),
        }
    }

    /// Writes `name` in the scope exactly `distance` steps up the chain.
    pub fn assign_at(&mut self, env: usize, distance: usize, name: &Token, value: FxUnit) -> (r:
        Result<(), Error>)
        requires
            old(self).wf(),
            env < old(self).len(),
        ensures
            final(self).wf(),
            final(self).len() == old(self).len(),
            match r {
                Ok(()) => {
                    &&& old(self).ancestor_of(env as int, distance as int) is Some
                    &&& {
                        let i = old(self).ancestor_of(env as int, distance as int)->0;
                        &&& old(self).same_but(*final(self), i)
                        &&& final(self).map_at(i) == old(self).map_at(i).insert(
                            name@.lexeme,
                            value@,
                        )
                    }
                },
                Err(e) => *final(self) == *old(self) && e is Runtime,
            },
    {
        let at = self.ancestor(env, distance)?;
        proof {
            lemma_ancestor_in_range(self, env as int, distance as int);
        }
        let node = &mut self.nodes[at];
        table_put(&mut node.values, name.lexeme.clone(), value);
        Ok(())
    }
}

/// A holder found by the chain walk lies inside the arena.
pub proof fn lemma_chain_holder_in_range(e: &Environment, i: int, name: Seq<char>)
    ensures
        match e.chain_holder(i, name) {
            Some(h) => 0 <= h < e.len() && e.map_at(h).contains_key(name),
            None => true,
        },
    decreases i,
{
    if 0 <= i < e.len() && !e.map_at(i).contains_key(name) {
        match e.parent_of(i) {
            Some(j) => if 0 <= j < i {
                lemma_chain_holder_in_range(e, j, name);
            },
            None => {},
        }
    }
}

/// Arenas whose scopes have the same parents agree on every ancestor walk
/// that starts inside the smaller one.
pub proof fn lemma_ancestor_stable(e1: &Environment, e2: &Environment, i: int, d: int)
    requires
        e1.wf(),
        0 <= i < e1.len(),
        e1.len() <= e2.len(),
        forall|j: int|
            0 <= j < e1.len() ==> (#[trigger] e2.nodes@[j]).enclosing == e1.nodes@[j].enclosing,
    ensures
        e2.ancestor_of(i, d) == e1.ancestor_of(i, d),
    decreases d,
{
    if d > 0 {
        match e1.parent_of(i) {
            Some(j) => lemma_ancestor_stable(e1, e2, j, d - 1),
            None => {},
        }
    }
}

/// An ancestor found by the chain walk lies inside the arena.
pub proof fn lemma_ancestor_in_range(e: &Environment, i: int, distance: int)
    requires
        e.wf(),
        0 <= i < e.len(),
    ensures
        match e.ancestor_of(i, distance) {
            Some(a) => 0 <= a < e.len(),
            None => true,
        },
    decreases distance,
{
    if distance > 0 {
        match e.parent_of(i) {
            Some(j) => lemma_ancestor_in_range(e, j, distance - 1),
            None => {},
        }
    }
}

/// An `Undefined variable '<name>'.` runtime error at the offending token.
pub open spec fn undefined_variable_error(e: Error, name: crate::tokens::TokenV) -> bool {
    e matches Error::Runtime { token, message } && token@ == name && message@
        == "Undefined variable '"@ + name.lexeme + "'."@
}

/// The error an undefined variable raises, at the offending token.
fn undefined_variable(name: &Token) -> (e: Error)
    ensures
        undefined_variable_error(e, name@),
{
    let mut message = String::from_str("Undefined variable '");
    message.append(name.lexeme.as_str());
    message.append("'.");
    proof {
        assert(message@ =~= "Undefined variable '"@ + name@.lexeme + "'."@);
    }
    Error::Runtime { token: name.duplicate(), message }
}

} // verus!
