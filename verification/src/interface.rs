//! The interface catalogue: the ordered, declared list of formals (ports,
//! generics, or subprogram parameters) one association list is matched
//! against.  Supplied by the scope builder; read-only during resolution.

use vstd::prelude::*;
use crate::diag::{Diagnostic, ErrorKind, spec_diag};
use crate::lookup::{first_where, lemma_first_where_found, lemma_first_where_none};
use crate::pos::Pos;

verus! {

/// The mode of an interface entry; relevant only for ports, where an
/// unconnected output is legal.
#[derive(Clone, Copy, Debug, PartialEq, Eq, Structural)]
pub enum Mode {
    In,
    Out,
    InOut,
}

/// What kind of interface list a catalogue is; the output-port exemption
/// applies only to port lists.
#[derive(Clone, Copy, Debug, PartialEq, Eq, Structural)]
pub enum InterfaceListType {
    Port,
    Generic,
    Parameter,
}

/// One formal: its entity id, name symbol, declared type, whether it has a
/// default value, its mode, and its declaration position.
#[derive(Clone, Copy, Debug, PartialEq, Eq, Structural)]
pub struct InterfaceEnt {
    pub id: usize,
    pub name: usize,
    pub typ: usize,
    pub has_default: bool,
    pub mode: Mode,
    pub decl_pos: Pos,
}

impl InterfaceEnt {
    /// The entry's declared type.
    pub fn type_mark(&self) -> (t: usize)
        ensures
            t == self.typ,
    {
        self.typ
    }

    /// Whether the entry is an output signal, for the output-port exemption.
    pub fn is_output_signal(&self) -> (r: bool)
        ensures
            r == (self.mode == Mode::Out),
    {
        match self.mode {
            Mode::Out => true,
            _ => false,
        }
    }
}

/// The ordered interface catalogue, unique by (case-normalized) name symbol.
#[derive(Clone, Debug, PartialEq, Eq)]
pub struct FormalRegion {
    pub typ: InterfaceListType,
    pub entries: Vec<InterfaceEnt>,
}

/// The predicate "this entry is named `name`".
pub open spec fn entry_named(name: usize) -> spec_fn(InterfaceEnt) -> bool {
    |e: InterfaceEnt| e.name == name
}

/// The catalogue index `name` denotes: the first entry of that name, if any.
pub open spec fn spec_lookup(region: FormalRegion, name: usize) -> Option<int> {
    first_where(region.entries@, entry_named(name))
}

impl FormalRegion {
    pub fn new(typ: InterfaceListType, entries: Vec<InterfaceEnt>) -> (r: FormalRegion)
        ensures
            r == (FormalRegion { typ, entries }),
    {
        FormalRegion { typ, entries }
    }

    pub fn len(&self) -> (n: usize)
        ensures
            n == self.entries@.len(),
    {
        self.entries.len()
    }

    /// The entry at catalogue position `idx`, if any.
    pub fn nth(&self, idx: usize) -> (r: Option<InterfaceEnt>)
        ensures
            r == if idx < self.entries@.len() {
                Some(self.entries@[idx as int])
            } else {
                None::<InterfaceEnt>
            },
    {
        if idx < self.entries.len() {
            Some(self.entries[idx])
        } else {
            None
        }
    }

    /// Look a formal up by name.  Not found is a `FormalNotFound` diagnostic
    /// anchored at `name_pos`.
    pub fn lookup(&self, name_pos: Pos, name: usize) -> (r: Result<
        (usize, InterfaceEnt),
        Diagnostic,
    >)
        ensures
            match spec_lookup(*self, name) {
                Some(i) => r is Ok && r->Ok_0 == ((i as usize, self.entries@[i])),
                None => r is Err && r->Err_0@ == spec_diag(name_pos, ErrorKind::FormalNotFound),
            },
    {
        let n = self.entries.len();
        let mut i: usize = 0;
        while i < n
            invariant
                n == self.entries@.len(),
                0 <= i <= n,
                forall|j: int| 0 <= j < i ==> !entry_named(name)(self.entries@[j]),
            decreases n - i,
        {
            if self.entries[i].name == name {
                proof {
                    lemma_first_where_found(self.entries@, entry_named(name), i as int);
                }
                return Ok((i, self.entries[i]));
            }
            i = i + 1;
        }
        proof {
            lemma_first_where_none(self.entries@, entry_named(name));
        }
        Err(Diagnostic::new(name_pos, ErrorKind::FormalNotFound))
    }

    /// Whether some entry has this name; the same test `lookup` makes.
    pub fn contains_name(&self, name: usize) -> (r: bool)
        ensures
            r == (spec_lookup(*self, name) is Some),
    {
        let d = self.lookup(Pos { start: 0, end: 0 }, name);
        match d {
            Ok(_) => true,
            Err(_) => false,
        }
    }
}

} // verus!
