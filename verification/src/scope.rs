//! The visible scope, as formal resolution reads it: a bare expression name
//! resolves to either a single non-overloaded entity or a set of overloaded
//! candidates.  Used only inside conversion-function resolution; how the
//! scope is populated belongs to the scope builder.

use vstd::prelude::*;
use crate::lookup::{first_where, lemma_first_where_found, lemma_first_where_none};
use crate::pos::Pos;

verus! {

/// What a single (non-overloaded) entity is, as far as conversion resolution
/// reads it: a type (usable as a type conversion) or anything else.
#[derive(Clone, Copy, Debug, PartialEq, Eq, Structural)]
pub enum AnyEntKind {
    /// A type; a conversion through it yields that type.
    Type { typ: usize },
    /// Anything not usable as a conversion.
    Other,
}

/// A single non-overloaded entity.
#[derive(Clone, Copy, Debug, PartialEq, Eq, Structural)]
pub struct AnyEnt {
    pub id: usize,
    pub kind: AnyEntKind,
}

/// One candidate of an overloaded name: a subprogram with its formal
/// parameter types and, for a function, its return type.
#[derive(Clone, Debug, PartialEq, Eq)]
pub struct OverloadedEnt {
    pub id: usize,
    pub param_types: Vec<usize>,
    /// `Some` for a function, `None` for a procedure.
    pub return_type: Option<usize>,
    pub decl_pos: Pos,
}

impl OverloadedEnt {
    /// Whether this candidate is a function callable with exactly one
    /// parameter of type `typ`.
    pub fn can_convert(&self, typ: usize) -> (r: bool)
        ensures
            r == spec_can_convert(*self, typ),
    {
        self.return_type.is_some() && self.param_types.len() == 1 && self.param_types[0] == typ
    }
}

/// Whether a candidate is a function callable with exactly one parameter of
/// type `typ`.
pub open spec fn spec_can_convert(ent: OverloadedEnt, typ: usize) -> bool {
    ent.return_type is Some && ent.param_types@.len() == 1 && ent.param_types@[0] == typ
}

/// What a name denotes in the scope: one entity, or overloaded candidates in
/// declaration order.
#[derive(Clone, Debug, PartialEq, Eq)]
pub enum NamedEntities {
    Single(AnyEnt),
    Overloaded(Vec<OverloadedEnt>),
}

/// One scope entry: a name symbol and what it denotes.
#[derive(Clone, Debug, PartialEq, Eq)]
pub struct ScopeEntry {
    pub name: usize,
    pub ent: NamedEntities,
}

/// The visible scope; read-only during resolution.
#[derive(Clone, Debug, PartialEq, Eq)]
pub struct Scope {
    pub entries: Vec<ScopeEntry>,
}

/// The predicate "this scope entry is named `name`".
pub open spec fn scope_entry_named(name: usize) -> spec_fn(ScopeEntry) -> bool {
    |e: ScopeEntry| e.name == name
}

/// What `name` denotes in the scope: the first entry of that name, if any.
pub open spec fn spec_scope_lookup(scope: Scope, name: usize) -> Option<NamedEntities> {
    match first_where(scope.entries@, scope_entry_named(name)) {
        Some(i) => Some(scope.entries@[i].ent),
        None => None,
    }
}

impl Scope {
    pub fn new(entries: Vec<ScopeEntry>) -> (r: Scope)
        ensures
            r == (Scope { entries }),
    {
        Scope { entries }
    }

    /// Resolve a bare name to what it denotes, if anything.
    pub fn lookup(&self, name: usize) -> (r: Option<&NamedEntities>)
        ensures
            match spec_scope_lookup(*self, name) {
                Some(e) => r is Some && *r->Some_0 == e,
                None => r is None,
            },
    {
        let n = self.entries.len();
        let mut i: usize = 0;
        while i < n
            invariant
                n == self.entries@.len(),
                0 <= i <= n,
                forall|j: int| 0 <= j < i ==> !scope_entry_named(name)(self.entries@[j]),
            decreases n - i,
        {
            if self.entries[i].name == name {
                proof {
                    lemma_first_where_found(self.entries@, scope_entry_named(name), i as int);
                }
                return Some(&self.entries[i].ent);
            }
            i = i + 1;
        }
        proof {
            lemma_first_where_none(self.entries@, scope_entry_named(name));
        }
        None
    }
}

} // verus!
