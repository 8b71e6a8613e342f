//! Classes and instances. Both live in arenas owned by the interpreter and are
//! referred to by index, which gives them reference identity: every copy of a
//! class or instance value names the same arena slot.
use crate::env::Environment;
use crate::error::Error;
use crate::fxfx::{FunV, FxFx};
use crate::fxunit::{FxUnit, UnitV};
use crate::table::{map_of, table_get, table_put};
use crate::tokens::Token;
use vstd::prelude::*;

verus! {

/// A class: its name, its superclass (an earlier slot of the class arena, if
/// any), and its methods.
#[derive(Debug)]
pub struct FxClass {
    pub name: String,
    pub superclass: Option<usize>,
    pub methods: Vec<(String, FxFx)>,
}

/// Mathematical model of a class.
pub struct ClassV {
    pub name: Seq<char>,
    pub superclass: Option<int>,
    pub methods: Map<Seq<char>, FunV>,
}

impl View for FxClass {
    type V = ClassV;

    open spec fn view(&self) -> ClassV {
        ClassV {
            name: self.name@,
            superclass: match self.superclass {
                Some(s) => Some(s as int),
                None => None,
            },
            methods: map_of(self.methods@),
        }
    }
}

/// A class arena is well formed when every superclass link points to an
/// earlier slot, so superclass chains always end.
pub open spec fn wf_classes(classes: Seq<FxClass>) -> bool {
    forall|i: int|
        0 <= i < classes.len() ==> match (#[trigger] classes[i])@.superclass {
            Some(s) => 0 <= s < i,
            None => true,
        }
}

/// What method lookup finds on the chain that starts at class `idx`: the
/// receiver's own method when it has one, else the nearest ancestor's.
pub open spec fn find_method_v(classes: Seq<FxClass>, idx: int, name: Seq<char>) -> Option<FunV>
    decreases idx,
{
    if !(0 <= idx < classes.len()) {
        None
    } else if classes[idx]@.methods.contains_key(name) {
        Some(classes[idx]@.methods[name])
    } else {
        match classes[idx]@.superclass {
            Some(s) => if 0 <= s < idx {
                find_method_v(classes, s, name)
            } else {
                None
            },
            None => None,
        }
    }
}

impl FxClass {
    /// Walks the superclass chain from `idx` for the nearest method of this name.
    pub fn find_method(classes: &Vec<FxClass>, idx: usize, name: &str) -> (r: Option<FxFx>)
        requires
            wf_classes(classes@),
            idx < classes@.len(),
        ensures
            match r {
                Some(f) => find_method_v(classes@, idx as int, name@) == Some(f@),
                None => find_method_v(classes@, idx as int, name@) is None,
            },
        decreases idx,
    {
        match table_get(&classes[idx].methods, name) {
            Some(f) => Some(f.duplicate()),
            None => {
                match classes[idx].superclass {
                    Some(s) => FxClass::find_method(classes, s, name),
                    None => None,
                }
            },
        }
    }
}

/// Method resolution order: lookup on a class finds the class's own method
/// when it has one, and otherwise exactly what lookup on its superclass finds
/// — so the nearest method of the single-inheritance chain wins.
pub proof fn lemma_method_resolution_order(classes: Seq<FxClass>, idx: int, name: Seq<char>)
    requires
        wf_classes(classes),
        0 <= idx < classes.len(),
    ensures
        classes[idx]@.methods.contains_key(name) ==> find_method_v(classes, idx, name) == Some(
            classes[idx]@.methods[name],
        ),
        !classes[idx]@.methods.contains_key(name) ==> find_method_v(classes, idx, name) == (
        match classes[idx]@.superclass {
            Some(s) => find_method_v(classes, s, name),
            None => None,
        }),
{
}

/// An instance: its class and its fields, added on first assignment.
#[derive(Debug)]
pub struct FxClassInstance {
    pub class: usize,
    pub fields: Vec<(String, FxUnit)>,
}

/// Mathematical model of an instance.
pub struct InstanceV {
    pub class: int,
    pub fields: Map<Seq<char>, UnitV>,
}

impl View for FxClassInstance {
    type V = InstanceV;

    open spec fn view(&self) -> InstanceV {
        InstanceV { class: self.class as int, fields: map_of(self.fields@) }
    }
}

impl FxClassInstance {
    /// A fresh instance of the class, with no fields yet.
    pub fn new(class: usize) -> (r: FxClassInstance)
        ensures
            r@.class == class as int,
            r@.fields == Map::<Seq<char>, UnitV>::empty(),
    {
        FxClassInstance { class, fields: Vec::new() }
    }

    /// A property read: the field when the instance has one, else the nearest
    /// method of the class chain, bound to the instance; anything else is a
    /// runtime error naming the property.
    pub fn get(
        &self,
        name: &Token,
        instance: &crate::fxunit::FxUnit,
        classes: &Vec<FxClass>,
        arena: &mut Environment,
    ) -> (r: Result<crate::fxunit::FxUnit, Error>)
        requires
            old(arena).wf(),
            wf_classes(classes@),
            self@.class < classes@.len(),
        ensures
            final(arena).wf(),
            final(arena).len() >= old(arena).len(),
            forall|j: int|
                0 <= j < old(arena).len() ==> final(arena).nodes@[j] == old(arena).nodes@[j],
            match r {
                Ok(v) => if self@.fields.contains_key(name@.lexeme) {
                    &&& v@ == self@.fields[name@.lexeme]
                    &&& *final(arena) == *old(arena)
                } else {
                    &&& find_method_v(classes@, self@.class, name@.lexeme) matches Some(m)
                        && m matches FunV::User {
                        name: mn,
                        params: mp,
                        body: mb,
                        closure: mc,
                        is_init: mi,
                    } && v@ == UnitV::Callable(
                        FunV::User {
                            name: mn,
                            params: mp,
                            body: mb,
                            closure: old(arena).len(),
                            is_init: mi,
                        },
                    )
                    &&& final(arena).map_at(old(arena).len()) == Map::<
                        Seq<char>,
                        UnitV,
                    >::empty().insert("this"@, instance@)
                },
                Err(e) => {
                    &&& e is Runtime
                    &&& !self@.fields.contains_key(name@.lexeme)
                    &&& (find_method_v(classes@, self@.class, name@.lexeme) is None ==> (
                    e matches Error::Runtime { token, message } && token@ == name@ && message@
                        == "Undefined prop '"@ + name@.lexeme + "'."@))
                },
            },
            find_method_v(classes@, self@.class, name@.lexeme) matches Some(m) ==> (
            m matches FunV::User { closure: mc, .. } ==> ((!self@.fields.contains_key(name@.lexeme)
                && 0 <= mc < old(arena).len()) ==> r is Ok)),
    {
        match crate::table::table_get(&self.fields, name.lexeme.as_str()) {
            Some(f) => Ok(f.duplicate()),
            None => {
                match FxClass::find_method(classes, self.class, name.lexeme.as_str()) {
                    Some(m) => {
                        let ok = if let FxFx::User { closure, .. } = &m {
                            *closure < arena.nodes.len()
                        } else {
                            false
                        };
                        if ok {
                            Ok(crate::fxunit::FxUnit::Callable(m.bind(instance.duplicate(), arena)))
                        } else {
                            Err(
                                Error::Runtime {
                                    token: name.duplicate(),
                                    message: crate::tokens::string_of("Invalid method closure."),
                                },
                            )
                        }
                    },
                    None => {
                        let mut message = crate::tokens::string_of("Undefined prop '");
                        message.append(name.lexeme.as_str());
                        message.append("'.");
                        proof {
                            assert(message@ =~= "Undefined prop '"@ + name@.lexeme + "'."@);
                        }
                        Err(Error::Runtime { token: name.duplicate(), message })
                    },
                }
            },
        }
    }

    /// Stores a field value, creating the field on first assignment.
    pub fn set(&mut self, name: &Token, value: FxUnit)
        ensures
            final(self)@.class == old(self)@.class,
            final(self)@.fields == old(self)@.fields.insert(name@.lexeme, value@),
    {
        table_put(&mut self.fields, name.lexeme.clone(), value);
    }
}

} // verus!
