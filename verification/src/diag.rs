//! Diagnostics: the error taxonomy of association analysis, and the sink
//! that collects recoverable diagnostics in the order they are reported.

use vstd::prelude::*;
use crate::pos::Pos;

verus! {

/// What went wrong.  Every diagnostic of this library carries one of these.
#[derive(Clone, Copy, Debug, PartialEq, Eq, Structural)]
pub enum ErrorKind {
    /// The name is an attribute name, an external name, a `.all` selection,
    /// or otherwise of a shape that can never denote a formal.
    InvalidFormalShape,
    /// An identifier does not match any catalogue entry.
    FormalNotFound,
    /// Selection, indexing or slicing was applied to a converted formal, or
    /// to a type that cannot be selected or indexed.
    InvalidSelection,
    /// The number of supplied indexes does not match the array's
    /// dimensionality.
    DimensionMismatch { required: usize, got: usize },
    /// A conversion call's argument is not a bare identifier naming a
    /// catalogue entry, or the call's own name does not denote something
    /// usable as a conversion.
    InvalidFormalConversion,
    /// No visible single-parameter function accepts the formal's type.
    NoMatchingConversionFunction,
    /// More than one visible single-parameter function accepts the formal's
    /// type; the related entries name each candidate.
    AmbiguousConversionFunction,
    /// A required formal (no default, not an exempt output port) was left
    /// unconnected; `formal` is its catalogue index.
    MissingAssociation { formal: usize },
    /// An actual was supplied beyond the catalogue's size with no matching
    /// formal.
    ExtraAssociation,
    /// An actual expression's type does not match the resolved formal's type.
    TypeMismatch,
}

/// What a related sub-diagnostic points at.
#[derive(Clone, Copy, Debug, PartialEq, Eq, Structural)]
pub enum RelatedNote {
    /// The declaration site of the entity the main message is about.
    DefinedHere,
    /// One candidate of an ambiguous conversion call, by its entity id.
    Candidate { entity: usize },
}

/// A sub-diagnostic anchored at a declaration or candidate site.
#[derive(Clone, Copy, Debug, PartialEq, Eq, Structural)]
pub struct Related {
    pub pos: Pos,
    pub note: RelatedNote,
}

/// One reported problem: a kind, the source position it is anchored at, and
/// related sub-diagnostics pointing at declaration sites.
#[derive(Clone, Debug, PartialEq, Eq)]
pub struct Diagnostic {
    pub pos: Pos,
    pub kind: ErrorKind,
    pub related: Vec<Related>,
}

/// The mathematical value of a [`Diagnostic`].
#[verifier::ext_equal]
pub struct SpecDiagnostic {
    pub pos: Pos,
    pub kind: ErrorKind,
    pub related: Seq<Related>,
}

impl View for Diagnostic {
    type V = SpecDiagnostic;

    open spec fn view(&self) -> SpecDiagnostic {
        SpecDiagnostic { pos: self.pos, kind: self.kind, related: self.related@ }
    }
}

/// The spec-level diagnostic with no related entries.
pub open spec fn spec_diag(pos: Pos, kind: ErrorKind) -> SpecDiagnostic {
    SpecDiagnostic { pos, kind, related: Seq::empty() }
}

impl Diagnostic {
    /// A diagnostic with no related entries.
    pub fn new(pos: Pos, kind: ErrorKind) -> (d: Diagnostic)
        ensures
            d@ == spec_diag(pos, kind),
    {
        let d = Diagnostic { pos, kind, related: Vec::new() };
        proof {
            assert(d@.related =~= spec_diag(pos, kind).related);
        }
        d
    }

    /// Append a related sub-diagnostic.
    pub fn add_related(&mut self, pos: Pos, note: RelatedNote)
        ensures
            final(self)@ == (SpecDiagnostic {
                pos: old(self)@.pos,
                kind: old(self)@.kind,
                related: old(self)@.related.push(Related { pos, note }),
            }),
    {
        self.related.push(Related { pos, note });
    }
}

/// Collects recoverable diagnostics in the order they are reported.  The
/// analysis never aborts on one: it records the problem and continues, so a
/// single pass reports every structural problem of an association list.
pub struct DiagnosticSink {
    pub diagnostics: Vec<Diagnostic>,
}

impl View for DiagnosticSink {
    type V = Seq<SpecDiagnostic>;

    open spec fn view(&self) -> Seq<SpecDiagnostic> {
        self.diagnostics@.map_values(|d: Diagnostic| d@)
    }
}

impl DiagnosticSink {
    pub fn new() -> (s: DiagnosticSink)
        ensures
            s@ == Seq::<SpecDiagnostic>::empty(),
    {
        let s = DiagnosticSink { diagnostics: Vec::new() };
        proof {
            assert(s@ =~= Seq::<SpecDiagnostic>::empty());
        }
        s
    }

    /// Record one diagnostic.
    pub fn push(&mut self, d: Diagnostic)
        ensures
            final(self)@ == old(self)@.push(d@),
    {
        let ghost prior = self@;
        let ghost dv = d@;
        self.diagnostics.push(d);
        proof {
            assert(self@ =~= prior.push(dv));
        }
    }

    /// Record a diagnostic with no related entries.
    pub fn error(&mut self, pos: Pos, kind: ErrorKind)
        ensures
            final(self)@ == old(self)@.push(spec_diag(pos, kind)),
    {
        let d = Diagnostic::new(pos, kind);
        self.push(d);
    }

    pub fn len(&self) -> (n: usize)
        ensures
            n == self@.len(),
    {
        self.diagnostics.len()
    }
}

} // verus!
