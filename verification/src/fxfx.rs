//! Callable values: the three native functions and user-defined functions.
//! A user function shares its parameter list and body through `Rc`, as every
//! copy of a function value denotes the same code.
use crate::stmt::Stmt;
use crate::tokens::Token;
use std::rc::Rc;
use vstd::prelude::*;

verus! {

/// Relies on `Rc`'s deref: a borrow of the shared value.
#[verifier::external_body]
pub fn rc_ref<T>(r: &Rc<T>) -> (t: &T)
    ensures
        *t == **r,
{
    &**r
}

/// Relies on `Rc::clone`: the copy is the same shared value.
#[verifier::external_body]
pub fn rc_dup<T>(r: &Rc<T>) -> (r2: Rc<T>)
    ensures
        r2 == *r,
{
    Rc::clone(r)
}

/// Which native function a `Native` callable is.
#[derive(Debug, Clone, Copy, PartialEq, Eq, Structural)]
pub enum NativeKind {
    Clock,
    ReadNum,
    ReadString,
}

/// A callable: a native function, or a user function carrying its parameter
/// list, body, captured environment (an index into the environment arena) and
/// whether it is a class initializer.
#[derive(Debug)]
pub enum FxFx {
    Native { arity: usize, which: NativeKind },
    User {
        name: Token,
        params: Rc<Vec<Token>>,
        body: Rc<Vec<Stmt>>,
        closure: usize,
        is_init: bool,
    },
}

/// Mathematical model of a callable. User functions are modelled by their
/// name, parameter names, body, captured environment and initializer flag, so
/// a copy or a binding provably carries the original's code.
pub enum FunV {
    Native { arity: int, which: NativeKind },
    User { name: Seq<char>, params: Seq<Seq<char>>, body: Seq<Stmt>, closure: int, is_init: bool },
}

impl View for FxFx {
    type V = FunV;

    open spec fn view(&self) -> FunV {
        match self {
            FxFx::Native { arity, which } => FunV::Native { arity: *arity as int, which: *which },
            FxFx::User { name, params, body, closure, is_init } => FunV::User {
                name: name.lexeme@,
                params: params@.map_values(|t: Token| t.lexeme@),
                body: body@,
                closure: *closure as int,
                is_init: *is_init,
            },
        }
    }
}

/// How many arguments a callable takes.
pub open spec fn arity_of(f: FunV) -> int {
    match f {
        FunV::Native { arity, which } => arity,
        FunV::User { params, .. } => params.len() as int,
    }
}

impl FxFx {
    pub fn arity(&self) -> (r: usize)
        ensures
            r as int == arity_of(self@),
    {
        match self {
            FxFx::Native { arity, which } => *arity,
            FxFx::User { name, params, body, closure, is_init } => params.len(),
        }
    }

    /// A copy of this callable whose model is the same as the original's; a
    /// user function's copy shares the original's code.
    pub fn duplicate(&self) -> (r: FxFx)
        ensures
            r@ == self@,
    {
        match self {
            FxFx::Native { arity, which } => FxFx::Native { arity: *arity, which: *which },
            FxFx::User { name, params, body, closure, is_init } => FxFx::User {
                name: name.duplicate(),
                params: rc_dup(params),
                body: rc_dup(body),
                closure: *closure,
                is_init: *is_init,
            },
        }
    }
}

impl FxFx {
    /// A function bound to an instance: the same code, closing over a fresh
    /// scope in which `this` is the instance. The fresh scope's index is the
    /// arena's previous length.
    pub fn bind(&self, instance: crate::fxunit::FxUnit, arena: &mut crate::env::Environment) -> (r:
        FxFx)
        requires
            old(arena).wf(),
            self@ matches FunV::User { closure, .. } && 0 <= closure < old(arena).len(),
        ensures
            final(arena).wf(),
            final(arena).len() == old(arena).len() + 1,
            forall|j: int|
                0 <= j < old(arena).len() ==> final(arena).nodes@[j] == old(arena).nodes@[j],
            ({
                let e2 = old(arena).len();
                &&& final(arena).parent_of(e2) == Some(self@->User_closure)
                &&& final(arena).map_at(e2) == Map::<Seq<char>, crate::fxunit::UnitV>::empty().insert(
                    "this"@,
                    instance@,
                )
                &&& r@ == (FunV::User {
                    name: self@->User_name,
                    params: self@->User_params,
                    body: self@->User_body,
                    closure: e2,
                    is_init: self@->User_is_init,
                })
            }),
    {
        match self {
            FxFx::Native { arity, which } => {
                proof {
                    assert(false);
                }
                FxFx::Native { arity: *arity, which: *which }
            },
            FxFx::User { name, params, body, closure, is_init } => {
                let env2 = arena.from(*closure);
                arena.define(
                    env2,
                    crate::tokens::string_of("this"),
                    instance,
                );
                FxFx::User {
                    name: name.duplicate(),
                    params: rc_dup(params),
                    body: rc_dup(body),
                    closure: env2,
                    is_init: *is_init,
                }
            },
        }
    }
}

} // verus!
