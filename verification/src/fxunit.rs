//! Runtime values. Classes and instances are reference-identity values: the
//! variants carry indices into the interpreter's class and instance arenas, so
//! copying a value shares the underlying object.
use crate::fxfx::{FunV, FxFx};
use crate::numeric::eq_bits;
use vstd::prelude::*;

verus! {

#[derive(Debug)]
pub enum FxUnit {
    Boolean(bool),
    Callable(FxFx),
    Nil,
    Number(u64),
    Str(String),
    Instance(usize),
    Class(usize),
}

/// Mathematical model of a runtime value.
pub enum UnitV {
    Boolean(bool),
    Callable(FunV),
    Nil,
    Number(u64),
    Str(Seq<char>),
    Instance(int),
    Class(int),
}

impl View for FxUnit {
    type V = UnitV;

    open spec fn view(&self) -> UnitV {
        match self {
            FxUnit::Boolean(b) => UnitV::Boolean(*b),
            FxUnit::Callable(f) => UnitV::Callable(f@),
            FxUnit::Nil => UnitV::Nil,
            FxUnit::Number(n) => UnitV::Number(*n),
            FxUnit::Str(s) => UnitV::Str(s@),
            FxUnit::Instance(i) => UnitV::Instance(*i as int),
            FxUnit::Class(c) => UnitV::Class(*c as int),
        }
    }
}

/// Language-level equality: `nil` equals only `nil`; booleans and strings by
/// value; numbers by IEEE-754 equality; classes and instances by identity;
/// anything else is unequal.
pub open spec fn unit_equals(a: UnitV, b: UnitV) -> bool {
    match (a, b) {
        (UnitV::Nil, UnitV::Nil) => true,
        (_, UnitV::Nil) => false,
        (UnitV::Nil, _) => false,
        (UnitV::Boolean(l), UnitV::Boolean(r)) => l == r,
        (UnitV::Number(l), UnitV::Number(r)) => eq_bits(l, r),
        (UnitV::Str(l), UnitV::Str(r)) => l == r,
        (UnitV::Class(l), UnitV::Class(r)) => l == r,
        (UnitV::Instance(l), UnitV::Instance(r)) => l == r,
        _ => false,
    }
}

/// A value is truthy unless it is `nil` or `false`.
pub open spec fn truthy(v: UnitV) -> bool {
    match v {
        UnitV::Nil => false,
        UnitV::Boolean(b) => b,
        _ => true,
    }
}

impl FxUnit {
    pub fn equals(&self, other: &FxUnit) -> (r: bool)
        ensures
            r == unit_equals(self@, other@),
            r == unit_equals(other@, self@),
    {
        match (self, other) {
            (FxUnit::Nil, FxUnit::Nil) => true,
            (_, FxUnit::Nil) => false,
            (FxUnit::Nil, _) => false,
            (FxUnit::Boolean(l), FxUnit::Boolean(r)) => *l == *r,
            (FxUnit::Number(l), FxUnit::Number(r)) => crate::numeric::num_eq(*l, *r),
            (FxUnit::Str(l), FxUnit::Str(r)) => crate::tokens::str_eq(l.as_str(), r.as_str()),
            (FxUnit::Class(l), FxUnit::Class(r)) => *l == *r,
            (FxUnit::Instance(l), FxUnit::Instance(r)) => *l == *r,
            _ => false,
        }
    }

    /// A copy of this value whose model is the same as the original's. Copies
    /// of class and instance values share the underlying object.
    pub fn duplicate(&self) -> (r: FxUnit)
        ensures
            r@ == self@,
    {
        match self {
            FxUnit::Boolean(b) => FxUnit::Boolean(*b),
            FxUnit::Callable(f) => FxUnit::Callable(f.duplicate()),
            FxUnit::Nil => FxUnit::Nil,
            FxUnit::Number(n) => FxUnit::Number(*n),
            FxUnit::Str(s) => FxUnit::Str(s.clone()),
            FxUnit::Instance(i) => FxUnit::Instance(*i),
            FxUnit::Class(c) => FxUnit::Class(*c),
        }
    }
}

} // verus!
