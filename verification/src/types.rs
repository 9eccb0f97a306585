//! The library's view of the type system: a table of named type declarations,
//! each a record, an array, or a scalar.  The broader type system (structural
//! equality, subtyping, range analysis) is an external collaborator; this
//! table holds exactly what formal resolution reads of it: record elements,
//! array dimensionality and element types, and declaration sites.  Types are
//! nominal: a type is its index into the table.

use vstd::prelude::*;
use crate::lookup::{first_where, lemma_first_where_found, lemma_first_where_none};
use crate::pos::Pos;

verus! {

/// One element (field) of a record type: its entity id, its name symbol, and
/// the type it narrows a selection to.
#[derive(Clone, Copy, Debug, PartialEq, Eq, Structural)]
pub struct RecordElement {
    pub id: usize,
    pub name: usize,
    pub typ: usize,
}

/// The shape of a type, as far as formal resolution reads it.
#[derive(Clone, Debug, PartialEq, Eq)]
pub enum TypeKind {
    /// A record exposing named elements.
    Record(Vec<RecordElement>),
    /// An array with `dims` index dimensions and element type `elem`.
    Array { dims: usize, elem: usize },
    /// Anything that can be neither selected into nor indexed.
    Scalar,
}

/// A named type declaration.
#[derive(Clone, Debug, PartialEq, Eq)]
pub struct TypeDecl {
    pub id: usize,
    pub name: usize,
    pub decl_pos: Pos,
    pub kind: TypeKind,
}

/// The ordered table of type declarations; a type is its index here.
#[derive(Clone, Debug, PartialEq, Eq)]
pub struct TypeTable {
    pub types: Vec<TypeDecl>,
}

/// The predicate "this record element is named `name`".
pub open spec fn element_named(name: usize) -> spec_fn(RecordElement) -> bool {
    |e: RecordElement| e.name == name
}

/// The record element selection `t.name` narrows to: the first element of
/// that name, provided `t` is a record type of the table.
pub open spec fn spec_selected_element(table: TypeTable, t: usize, name: usize) -> Option<
    RecordElement,
> {
    if t < table.types@.len() {
        match table.types@[t as int].kind {
            TypeKind::Record(elems) => match first_where(elems@, element_named(name)) {
                Some(i) => Some(elems@[i]),
                None => None,
            },
            _ => None,
        }
    } else {
        None
    }
}

/// The array view of `t`: its dimensionality and element type, if `t` is an
/// array type of the table.
pub open spec fn spec_array_info(table: TypeTable, t: usize) -> Option<(usize, usize)> {
    if t < table.types@.len() {
        match table.types@[t as int].kind {
            TypeKind::Array { dims, elem } => Some((dims, elem)),
            _ => None,
        }
    } else {
        None
    }
}

/// The declaration position of `t`, if it is a type of the table.
pub open spec fn spec_decl_pos(table: TypeTable, t: usize) -> Option<Pos> {
    if t < table.types@.len() {
        Some(table.types@[t as int].decl_pos)
    } else {
        None
    }
}

impl TypeTable {
    pub fn new(types: Vec<TypeDecl>) -> (r: TypeTable)
        ensures
            r == (TypeTable { types }),
    {
        TypeTable { types }
    }

    /// Record element lookup: what `t.name` selects, if anything.
    pub fn selected_element(&self, t: usize, name: usize) -> (r: Option<RecordElement>)
        ensures
            r == spec_selected_element(*self, t, name),
    {
        if t < self.types.len() {
            let row = &self.types[t];
            match &row.kind {
                TypeKind::Record(elems) => {
                    let n = elems.len();
                    let mut i: usize = 0;
                    while i < n
                        invariant
                            t < self.types@.len(),
                            self.types@[t as int].kind is Record,
                            self.types@[t as int].kind->Record_0 == *elems,
                            n == elems@.len(),
                            0 <= i <= n,
                            forall|j: int| 0 <= j < i ==> !element_named(name)(elems@[j]),
                        decreases n - i,
                    {
                        if elems[i].name == name {
                            proof {
                                assert(element_named(name)(elems@[i as int]));
                                lemma_first_where_found(elems@, element_named(name), i as int);
                            }
                            return Some(elems[i]);
                        }
                        i = i + 1;
                    }
                    proof {
                        lemma_first_where_none(elems@, element_named(name));
                    }
                    None
                },
                _ => None,
            }
        } else {
            None
        }
    }

    /// Array dimensionality and element type of `t`, if it is an array.
    pub fn array_info(&self, t: usize) -> (r: Option<(usize, usize)>)
        ensures
            r == spec_array_info(*self, t),
    {
        if t < self.types.len() {
            match &self.types[t].kind {
                TypeKind::Array { dims, elem } => Some((*dims, *elem)),
                _ => None,
            }
        } else {
            None
        }
    }

    /// The declaration position of `t`, if it is a type of the table.
    pub fn decl_pos(&self, t: usize) -> (r: Option<Pos>)
        ensures
            r == spec_decl_pos(*self, t),
    {
        if t < self.types.len() {
            Some(self.types[t].decl_pos)
        } else {
            None
        }
    }
}

} // verus!
