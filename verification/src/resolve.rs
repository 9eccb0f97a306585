//! The formal resolver: walks a (possibly compound) formal name and reduces
//! it to a canonical reference — which catalogue entry it denotes, and the
//! concrete type at that point of selection, indexing, or conversion.
//!
//! The executable resolver is pinned exactly to the spec-level model
//! [`spec_resolve_formal`]: for every input it returns the model's result and
//! records the model's references, so resolution is a function of its inputs
//! alone.

use vstd::prelude::*;
use crate::diag::{Diagnostic, ErrorKind, Related, RelatedNote, SpecDiagnostic, spec_diag};
use crate::interface::{FormalRegion, InterfaceEnt, spec_lookup};
use crate::names::{
    FunctionCall, Name, positional_index_count, prefix_designator, spec_conversion_argument,
    spec_positional_index_count, spec_prefix_designator, to_formal_conversion_argument,
};
use crate::pos::{Pos, WithPos};
use crate::refs::{RefEntry, RefTable};
use crate::scope::{
    AnyEntKind, NamedEntities, OverloadedEnt, Scope, spec_can_convert, spec_scope_lookup,
};
use crate::types::{TypeTable, spec_array_info, spec_decl_pos, spec_selected_element};

verus! {

broadcast use vstd::seq_lib::group_seq_lib_default;

/// The canonical result of resolving one formal name.  Every resolved formal
/// traces back to exactly one catalogue index; selection never changes that
/// index, only the carried type.
#[derive(Clone, Copy, Debug, PartialEq, Eq, Structural)]
pub enum ResolvedFormal {
    /// A direct reference to a catalogue entry: `port map (foo => 0)`.
    Basic(usize, InterfaceEnt),
    /// A formal narrowed by record-element or array-element selection:
    /// `port map (foo.field => 0)` or `port map (foo(0) => 0)`.
    Selected(usize, InterfaceEnt, usize),
    /// A formal passed through a conversion function:
    /// `port map (to_slv(foo) => sig)`.
    Converted(usize, InterfaceEnt, usize),
}

impl ResolvedFormal {
    /// The concrete type at this point of selection or conversion.
    pub open spec fn spec_type_mark(self) -> usize {
        match self {
            ResolvedFormal::Basic(_, ent) => ent.typ,
            ResolvedFormal::Selected(_, _, typ) => typ,
            ResolvedFormal::Converted(_, _, typ) => typ,
        }
    }

    /// The concrete type at this point of selection or conversion.
    pub fn type_mark(&self) -> (t: usize)
        ensures
            t == self.spec_type_mark(),
    {
        match self {
            ResolvedFormal::Basic(_, ent) => ent.typ,
            ResolvedFormal::Selected(_, _, typ) => *typ,
            ResolvedFormal::Converted(_, _, typ) => *typ,
        }
    }

    /// Narrowing by selection: keeps the catalogue index, replaces the
    /// carried type.  A converted formal may not be further selected.
    pub open spec fn spec_select(self, suffix_type: usize) -> Option<ResolvedFormal> {
        match self {
            ResolvedFormal::Basic(idx, ent) => Some(ResolvedFormal::Selected(idx, ent, suffix_type)),
            ResolvedFormal::Selected(idx, ent, _) => Some(
                ResolvedFormal::Selected(idx, ent, suffix_type),
            ),
            ResolvedFormal::Converted(_, _, _) => None,
        }
    }

    /// Narrowing by selection: keeps the catalogue index, replaces the
    /// carried type.  A converted formal may not be further selected.
    pub fn select(self, suffix_type: usize) -> (r: Option<ResolvedFormal>)
        ensures
            r == self.spec_select(suffix_type),
    {
        match self {
            ResolvedFormal::Basic(idx, ent) => Some(ResolvedFormal::Selected(idx, ent, suffix_type)),
            ResolvedFormal::Selected(idx, ent, _) => Some(
                ResolvedFormal::Selected(idx, ent, suffix_type),
            ),
            ResolvedFormal::Converted(_, _, _) => None,
        }
    }

    /// The position of the formal in the catalogue.
    pub open spec fn spec_idx(self) -> usize {
        match self {
            ResolvedFormal::Basic(idx, _) => idx,
            ResolvedFormal::Selected(idx, _, _) => idx,
            ResolvedFormal::Converted(idx, _, _) => idx,
        }
    }

    /// The position of the formal in the catalogue.
    pub fn idx(&self) -> (i: usize)
        ensures
            i == self.spec_idx(),
    {
        match self {
            ResolvedFormal::Basic(idx, _) => *idx,
            ResolvedFormal::Selected(idx, _, _) => *idx,
            ResolvedFormal::Converted(idx, _, _) => *idx,
        }
    }
}

/// The model outcome of resolving one formal name: the result, and the
/// references recorded along the way, in order.
#[verifier::ext_equal]
pub struct FormalOutcome {
    pub res: Result<ResolvedFormal, SpecDiagnostic>,
    pub refs: Seq<RefEntry>,
}

/// An error outcome that recorded no references.
pub open spec fn err_outcome(d: SpecDiagnostic) -> FormalOutcome {
    FormalOutcome { res: Err(d), refs: Seq::empty() }
}

/// Whether an executable result equals a model result, diagnostics compared
/// by their mathematical value.
pub open spec fn res_agrees(
    r: Result<ResolvedFormal, Diagnostic>,
    m: Result<ResolvedFormal, SpecDiagnostic>,
) -> bool {
    match r {
        Ok(rf) => m == Result::<ResolvedFormal, SpecDiagnostic>::Ok(rf),
        Err(d) => m is Err && m->Err_0 == d@,
    }
}

/// Model of resolving a plain identifier: catalogue lookup; found means a
/// basic formal plus a reference at the name, not found is `FormalNotFound`.
pub open spec fn spec_resolve_designator(
    region: FormalRegion,
    name_pos: Pos,
    sym: usize,
) -> FormalOutcome {
    match spec_lookup(region, sym) {
        Some(i) => FormalOutcome {
            res: Ok(ResolvedFormal::Basic(i as usize, region.entries@[i])),
            refs: seq![RefEntry { pos: name_pos, entity: region.entries@[i].id }],
        },
        None => err_outcome(spec_diag(name_pos, ErrorKind::FormalNotFound)),
    }
}

/// Model of narrowing a resolved prefix by `.suffix`: the prefix type must
/// expose the element, and a converted prefix may not be selected into.  The
/// element reference is recorded even when the final narrowing fails.
pub open spec fn spec_selected_result(
    types: TypeTable,
    name_pos: Pos,
    rf: ResolvedFormal,
    suffix: WithPos<usize>,
    prefix_refs: Seq<RefEntry>,
) -> FormalOutcome {
    match spec_selected_element(types, rf.spec_type_mark(), suffix.item) {
        None => FormalOutcome {
            res: Err(spec_diag(suffix.pos, ErrorKind::InvalidSelection)),
            refs: prefix_refs,
        },
        Some(elem) => {
            let refs = prefix_refs.push(RefEntry { pos: suffix.pos, entity: elem.id });
            match rf.spec_select(elem.typ) {
                Some(narrowed) => FormalOutcome { res: Ok(narrowed), refs },
                None => FormalOutcome {
                    res: Err(spec_diag(name_pos, ErrorKind::InvalidSelection)),
                    refs,
                },
            }
        },
    }
}

/// The related entry a dimension-mismatch diagnostic points at: the array
/// type's declaration site.
pub open spec fn dim_related(types: TypeTable, t: usize) -> Seq<Related> {
    match spec_decl_pos(types, t) {
        Some(p) => seq![Related { pos: p, note: RelatedNote::DefinedHere }],
        None => Seq::empty(),
    }
}

/// Model of indexing a resolved prefix with `n` indexes: the prefix type must
/// be an array, the index count must match its dimensionality, and a
/// converted prefix may not be indexed.
pub open spec fn spec_indexed_result(
    types: TypeTable,
    name_pos: Pos,
    rf: ResolvedFormal,
    n: usize,
) -> Result<ResolvedFormal, SpecDiagnostic> {
    match spec_array_info(types, rf.spec_type_mark()) {
        Some((dims, elem)) => if n == dims {
            match rf.spec_select(elem) {
                Some(narrowed) => Ok(narrowed),
                None => Err(spec_diag(name_pos, ErrorKind::InvalidSelection)),
            }
        } else {
            Err(
                SpecDiagnostic {
                    pos: name_pos,
                    kind: ErrorKind::DimensionMismatch { required: dims, got: n },
                    related: dim_related(types, rf.spec_type_mark()),
                },
            )
        },
        None => Err(spec_diag(name_pos, ErrorKind::InvalidSelection)),
    }
}

/// Model of resolving a conversion call's own name: only a bare identifier
/// can denote a conversion; anything else resolves to nothing.
pub open spec fn spec_resolve_scope_name(scope: Scope, name: Name) -> Option<NamedEntities> {
    match name {
        Name::Designator(sym) => spec_scope_lookup(scope, sym),
        _ => None,
    }
}

/// The positions (in declaration order) of the overloaded candidates that are
/// functions callable with one parameter of type `typ`.
pub open spec fn candidate_indices(cands: Seq<OverloadedEnt>, typ: usize) -> Seq<int>
    decreases cands.len(),
{
    if cands.len() == 0 {
        Seq::empty()
    } else {
        let rest = candidate_indices(cands.drop_last(), typ);
        if spec_can_convert(cands.last(), typ) {
            rest.push(cands.len() - 1)
        } else {
            rest
        }
    }
}

/// Every candidate position is a position of the candidate list.
pub proof fn lemma_candidate_indices_in_range(cands: Seq<OverloadedEnt>, typ: usize)
    ensures
        forall|k: int|
            0 <= k < candidate_indices(cands, typ).len() ==> 0 <= #[trigger] candidate_indices(
                cands,
                typ,
            )[k] < cands.len(),
    decreases cands.len(),
{
    if cands.len() > 0 {
        lemma_candidate_indices_in_range(cands.drop_last(), typ);
        let rest = candidate_indices(cands.drop_last(), typ);
        let whole = candidate_indices(cands, typ);
        assert forall|k: int| 0 <= k < whole.len() implies 0 <= #[trigger] whole[k] < cands.len() by {
            if spec_can_convert(cands.last(), typ) {
                if k < rest.len() {
                    assert(whole[k] == rest[k]);
                } else {
                    assert(whole[k] == cands.len() - 1);
                }
            } else {
                assert(whole[k] == rest[k]);
            }
        }
    }
}

/// The related entries of an ambiguous-conversion diagnostic: one per
/// candidate, in declaration order, naming the candidate's entity at its
/// declaration site.
pub open spec fn candidate_related(cands: Seq<OverloadedEnt>, idxs: Seq<int>) -> Seq<Related> {
    idxs.map_values(
        |i: int| Related { pos: cands[i].decl_pos, note: RelatedNote::Candidate { entity: cands[i].id } },
    )
}

/// Model of choosing the conversion function, given the conversion argument's
/// catalogue entry: a single entity must be a type; overloaded candidates are
/// filtered to single-parameter functions accepting the formal's type, and
/// exactly one must remain.
pub open spec fn spec_conversion_result(
    types: TypeTable,
    scope: Scope,
    name_pos: Pos,
    call_name: WithPos<Name>,
    idx: usize,
    ent: InterfaceEnt,
) -> Result<ResolvedFormal, SpecDiagnostic> {
    match spec_resolve_scope_name(scope, call_name.item) {
        None => Err(spec_diag(name_pos, ErrorKind::InvalidFormalConversion)),
        Some(NamedEntities::Single(any)) => match any.kind {
            AnyEntKind::Type { typ } => Ok(ResolvedFormal::Converted(idx, ent, typ)),
            AnyEntKind::Other => Err(spec_diag(name_pos, ErrorKind::InvalidFormalConversion)),
        },
        Some(NamedEntities::Overloaded(cands)) => {
            let cs = candidate_indices(cands@, ent.typ);
            if cs.len() > 1 {
                Err(
                    SpecDiagnostic {
                        pos: call_name.pos,
                        kind: ErrorKind::AmbiguousConversionFunction,
                        related: candidate_related(cands@, cs),
                    },
                )
            } else if cs.len() == 1 {
                match cands@[cs[0]].return_type {
                    Some(rt) => Ok(ResolvedFormal::Converted(idx, ent, rt)),
                    None => Err(spec_diag(call_name.pos, ErrorKind::NoMatchingConversionFunction)),
                }
            } else {
                Err(spec_diag(call_name.pos, ErrorKind::NoMatchingConversionFunction))
            }
        },
    }
}

/// Model of the conversion path of a call-shaped formal: the call must have a
/// single bare-identifier argument naming a catalogue entry; the entry's
/// reference is recorded, then the conversion function is chosen.
pub open spec fn spec_resolve_conversion(
    types: TypeTable,
    region: FormalRegion,
    scope: Scope,
    name_pos: Pos,
    fcall: FunctionCall,
) -> FormalOutcome {
    match spec_conversion_argument(fcall.parameters@) {
        None => err_outcome(spec_diag(name_pos, ErrorKind::InvalidFormalConversion)),
        Some(arg) => match spec_lookup(region, arg.item) {
            None => err_outcome(spec_diag(name_pos, ErrorKind::InvalidFormalConversion)),
            Some(i) => {
                let ent = region.entries@[i];
                FormalOutcome {
                    res: spec_conversion_result(types, scope, name_pos, fcall.name, i as usize, ent),
                    refs: seq![RefEntry { pos: arg.pos, entity: ent.id }],
                }
            },
        },
    }
}

/// The model of formal resolution: what resolving `name` against the
/// catalogue and scope returns, and which references it records, for every
/// shape of the name grammar.
pub open spec fn spec_resolve_formal(
    types: TypeTable,
    region: FormalRegion,
    scope: Scope,
    name_pos: Pos,
    name: Name,
) -> FormalOutcome
    decreases name,
{
    match name {
        Name::Designator(sym) => spec_resolve_designator(region, name_pos, sym),
        Name::Selected(prefix, suffix) => {
            let p = spec_resolve_formal(types, region, scope, prefix.pos, prefix.item);
            match p.res {
                Err(_) => p,
                Ok(rf) => spec_selected_result(types, name_pos, rf, suffix, p.refs),
            }
        },
        Name::SelectedAll(_) => err_outcome(spec_diag(name_pos, ErrorKind::InvalidFormalShape)),
        Name::Indexed(prefix, indexes) => {
            let p = spec_resolve_formal(types, region, scope, prefix.pos, prefix.item);
            match p.res {
                Err(_) => p,
                Ok(rf) => FormalOutcome {
                    res: spec_indexed_result(types, name_pos, rf, indexes@.len() as usize),
                    refs: p.refs,
                },
            }
        },
        Name::Slice(prefix, _) => {
            let p = spec_resolve_formal(types, region, scope, prefix.pos, prefix.item);
            match p.res {
                Err(_) => p,
                Ok(rf) => if rf is Converted {
                    FormalOutcome {
                        res: Err(spec_diag(name_pos, ErrorKind::InvalidSelection)),
                        refs: p.refs,
                    }
                } else {
                    p
                },
            }
        },
        Name::Attribute(_) => err_outcome(spec_diag(name_pos, ErrorKind::InvalidFormalShape)),
        Name::External => err_outcome(spec_diag(name_pos, ErrorKind::InvalidFormalShape)),
        Name::FunctionCall(fcall) => match spec_prefix_designator(fcall.name.item) {
            None => err_outcome(spec_diag(name_pos, ErrorKind::InvalidFormalShape)),
            Some(pd) => {
                if spec_lookup(region, pd) is None {
                    spec_resolve_conversion(types, region, scope, name_pos, *fcall)
                } else {
                    match spec_positional_index_count(fcall.parameters@) {
                        None => err_outcome(spec_diag(name_pos, ErrorKind::InvalidFormalShape)),
                        Some(n) => {
                            let p = spec_resolve_formal(
                                types,
                                region,
                                scope,
                                fcall.name.pos,
                                fcall.name.item,
                            );
                            match p.res {
                                Err(_) => p,
                                Ok(rf) => FormalOutcome {
                                    res: spec_indexed_result(types, name_pos, rf, n),
                                    refs: p.refs,
                                },
                            }
                        },
                    }
                }
            },
        },
    }
}

/// The analysis context: the type table the resolver consults.
pub struct AnalyzeContext {
    pub types: TypeTable,
}

impl AnalyzeContext {
    pub fn new(types: TypeTable) -> (r: AnalyzeContext)
        ensures
            r == (AnalyzeContext { types }),
    {
        AnalyzeContext { types }
    }

    /// Indexing a resolved prefix with `n` indexes.
    fn indexed_result(&self, name_pos: Pos, rf: ResolvedFormal, n: usize) -> (r: Result<
        ResolvedFormal,
        Diagnostic,
    >)
        ensures
            res_agrees(r, spec_indexed_result(self.types, name_pos, rf, n)),
    {
        match self.types.array_info(rf.type_mark()) {
            Some((dims, elem)) => {
                if n == dims {
                    match rf.select(elem) {
                        Some(narrowed) => Ok(narrowed),
                        None => Err(Diagnostic::new(name_pos, ErrorKind::InvalidSelection)),
                    }
                } else {
                    let mut d = Diagnostic::new(
                        name_pos,
                        ErrorKind::DimensionMismatch { required: dims, got: n },
                    );
                    match self.types.decl_pos(rf.type_mark()) {
                        Some(p) => d.add_related(p, RelatedNote::DefinedHere),
                        None => {},
                    }
                    proof {
                        assert(d@.related =~= dim_related(self.types, rf.spec_type_mark()));
                        assert(d@ =~= (SpecDiagnostic {
                            pos: name_pos,
                            kind: ErrorKind::DimensionMismatch { required: dims, got: n },
                            related: dim_related(self.types, rf.spec_type_mark()),
                        }));
                    }
                    Err(d)
                }
            },
            None => Err(Diagnostic::new(name_pos, ErrorKind::InvalidSelection)),
        }
    }

    /// Choosing the conversion function for a conversion call, given the
    /// argument's catalogue position and entry.
    fn resolve_conversion_function(
        &self,
        scope: &Scope,
        name_pos: Pos,
        call_name: &WithPos<Name>,
        idx: usize,
        ent: InterfaceEnt,
    ) -> (r: Result<ResolvedFormal, Diagnostic>)
        ensures
            res_agrees(r, spec_conversion_result(self.types, *scope, name_pos, *call_name, idx, ent)),
    {
        let named = match &call_name.item {
            Name::Designator(sym) => scope.lookup(*sym),
            _ => None,
        };
        match named {
            None => Err(Diagnostic::new(name_pos, ErrorKind::InvalidFormalConversion)),
            Some(entities) => match entities {
                NamedEntities::Single(any) => match any.kind {
                    AnyEntKind::Type { typ } => Ok(ResolvedFormal::Converted(idx, ent, typ)),
                    AnyEntKind::Other => Err(
                        Diagnostic::new(name_pos, ErrorKind::InvalidFormalConversion),
                    ),
                },
                NamedEntities::Overloaded(cands) => {
                    let ghost cs = candidate_indices(cands@, ent.typ);
                    let m = cands.len();
                    let mut found: Vec<usize> = Vec::new();
                    let mut i: usize = 0;
                    proof {
                        assert(cands@.take(0) =~= Seq::<OverloadedEnt>::empty());
                        assert(found@.map_values(|u: usize| u as int) =~= candidate_indices(
                            cands@.take(0),
                            ent.typ,
                        ));
                    }
                    while i < m
                        invariant
                            m == cands@.len(),
                            0 <= i <= m,
                            forall|k: int| 0 <= k < found@.len() ==> found@[k] < m,
                            found@.map_values(|u: usize| u as int) == candidate_indices(
                                cands@.take(i as int),
                                ent.typ,
                            ),
                        decreases m - i,
                    {
                        let ghost prev = found@;
                        if cands[i].can_convert(ent.typ) {
                            found.push(i);
                        }
                        proof {
                            assert(cands@.take(i + 1).drop_last() =~= cands@.take(i as int));
                            assert(cands@.take(i + 1).last() == cands@[i as int]);
                            if spec_can_convert(cands@[i as int], ent.typ) {
                                assert(found@.map_values(|u: usize| u as int) =~= prev.map_values(
                                    |u: usize| u as int,
                                ).push(i as int));
                            }
                        }
                        i = i + 1;
                    }
                    proof {
                        assert(cands@.take(m as int) =~= cands@);
                        lemma_candidate_indices_in_range(cands@, ent.typ);
                    }
                    if found.len() > 1 {
                        let mut d = Diagnostic::new(
                            call_name.pos,
                            ErrorKind::AmbiguousConversionFunction,
                        );
                        let n_found = found.len();
                        let mut k: usize = 0;
                        proof {
                            assert(d@.related =~= candidate_related(cands@, cs.take(0)));
                        }
                        while k < n_found
                            invariant
                                n_found == found@.len(),
                                0 <= k <= n_found,
                                m == cands@.len(),
                                forall|j: int| 0 <= j < found@.len() ==> found@[j] < m,
                                cs == found@.map_values(|u: usize| u as int),
                                d@.pos == call_name.pos,
                                d@.kind == ErrorKind::AmbiguousConversionFunction,
                                d@.related == candidate_related(cands@, cs.take(k as int)),
                            decreases n_found - k,
                        {
                            let ghost prev_related = d@.related;
                            let c = found[k];
                            d.add_related(
                                cands[c].decl_pos,
                                RelatedNote::Candidate { entity: cands[c].id },
                            );
                            proof {
                                assert(cs.take(k + 1).drop_last() =~= cs.take(k as int));
                                assert(cs.take(k + 1).last() == cs[k as int]);
                                assert(d@.related =~= candidate_related(cands@, cs.take(k + 1)));
                            }
                            k = k + 1;
                        }
                        proof {
                            assert(cs.take(n_found as int) =~= cs);
                            assert(d@ =~= (SpecDiagnostic {
                                pos: call_name.pos,
                                kind: ErrorKind::AmbiguousConversionFunction,
                                related: candidate_related(cands@, cs),
                            }));
                        }
                        Err(d)
                    } else if found.len() == 1 {
                        let c = found[0];
                        match cands[c].return_type {
                            Some(rt) => Ok(ResolvedFormal::Converted(idx, ent, rt)),
                            None => Err(
                                Diagnostic::new(
                                    call_name.pos,
                                    ErrorKind::NoMatchingConversionFunction,
                                ),
                            ),
                        }
                    } else {
                        Err(
                            Diagnostic::new(call_name.pos, ErrorKind::NoMatchingConversionFunction),
                        )
                    }
                },
            },
        }
    }

    /// Resolve one formal name against the catalogue, recording a reference
    /// for every identifier it determines the meaning of — also on the paths
    /// where resolution then fails, since partial resolution is still useful
    /// to tooling.  Returns the canonical resolved formal, or the diagnostic
    /// describing why the name cannot denote a formal.
    pub fn resolve_formal(
        &self,
        formal_region: &FormalRegion,
        scope: &Scope,
        name_pos: Pos,
        name: &Name,
        refs: &mut RefTable,
    ) -> (r: Result<ResolvedFormal, Diagnostic>)
        ensures
            ({
                let o = spec_resolve_formal(self.types, *formal_region, *scope, name_pos, *name);
                &&& res_agrees(r, o.res)
                &&& final(refs)@ == old(refs)@ + o.refs
            }),
        decreases *name,
    {
        let ghost o = spec_resolve_formal(self.types, *formal_region, *scope, name_pos, *name);
        match name {
            Name::Designator(sym) => {
                match formal_region.lookup(name_pos, *sym) {
                    Ok((idx, ent)) => {
                        refs.record(name_pos, ent.id);
                        proof {
                            assert(refs@ =~= old(refs)@ + o.refs);
                        }
                        Ok(ResolvedFormal::Basic(idx, ent))
                    },
                    Err(d) => {
                        proof {
                            assert(refs@ =~= old(refs)@ + o.refs);
                        }
                        Err(d)
                    },
                }
            },
            Name::Selected(prefix, suffix) => {
                let p = self.resolve_formal(formal_region, scope, prefix.pos, &prefix.item, refs);
                match p {
                    Err(d) => Err(d),
                    Ok(rf) => {
                        match self.types.selected_element(rf.type_mark(), suffix.item) {
                            None => Err(Diagnostic::new(suffix.pos, ErrorKind::InvalidSelection)),
                            Some(elem) => {
                                refs.record(suffix.pos, elem.id);
                                proof {
                                    assert(refs@ =~= old(refs)@ + o.refs);
                                }
                                match rf.select(elem.typ) {
                                    Some(narrowed) => Ok(narrowed),
                                    None => Err(
                                        Diagnostic::new(name_pos, ErrorKind::InvalidSelection),
                                    ),
                                }
                            },
                        }
                    },
                }
            },
            Name::SelectedAll(_) => {
                proof {
                    assert(refs@ =~= old(refs)@ + o.refs);
                }
                Err(Diagnostic::new(name_pos, ErrorKind::InvalidFormalShape))
            },
            Name::Indexed(prefix, indexes) => {
                let p = self.resolve_formal(formal_region, scope, prefix.pos, &prefix.item, refs);
                match p {
                    Err(d) => Err(d),
                    Ok(rf) => self.indexed_result(name_pos, rf, indexes.len()),
                }
            },
            Name::Slice(prefix, _) => {
                let p = self.resolve_formal(formal_region, scope, prefix.pos, &prefix.item, refs);
                match p {
                    Err(d) => Err(d),
                    Ok(rf) => match rf {
                        ResolvedFormal::Converted(_, _, _) => Err(
                            Diagnostic::new(name_pos, ErrorKind::InvalidSelection),
                        ),
                        _ => Ok(rf),
                    },
                }
            },
            Name::Attribute(_) => {
                proof {
                    assert(refs@ =~= old(refs)@ + o.refs);
                }
                Err(Diagnostic::new(name_pos, ErrorKind::InvalidFormalShape))
            },
            Name::External => {
                proof {
                    assert(refs@ =~= old(refs)@ + o.refs);
                }
                Err(Diagnostic::new(name_pos, ErrorKind::InvalidFormalShape))
            },
            Name::FunctionCall(fcall) => {
                match prefix_designator(&fcall.name.item) {
                    None => {
                        proof {
                            assert(refs@ =~= old(refs)@ + o.refs);
                        }
                        Err(Diagnostic::new(name_pos, ErrorKind::InvalidFormalShape))
                    },
                    Some(pd) => {
                        if !formal_region.contains_name(pd) {
                            match to_formal_conversion_argument(&fcall.parameters) {
                                None => {
                                    proof {
                                        assert(refs@ =~= old(refs)@ + o.refs);
                                    }
                                    Err(
                                        Diagnostic::new(
                                            name_pos,
                                            ErrorKind::InvalidFormalConversion,
                                        ),
                                    )
                                },
                                Some(arg) => {
                                    match formal_region.lookup(name_pos, arg.item) {
                                        Err(_) => {
                                            proof {
                                                assert(refs@ =~= old(refs)@ + o.refs);
                                            }
                                            Err(
                                                Diagnostic::new(
                                                    name_pos,
                                                    ErrorKind::InvalidFormalConversion,
                                                ),
                                            )
                                        },
                                        Ok((idx, ent)) => {
                                            refs.record(arg.pos, ent.id);
                                            proof {
                                                assert(refs@ =~= old(refs)@ + o.refs);
                                            }
                                            self.resolve_conversion_function(
                                                scope,
                                                name_pos,
                                                &fcall.name,
                                                idx,
                                                ent,
                                            )
                                        },
                                    }
                                },
                            }
                        } else {
                            match positional_index_count(&fcall.parameters) {
                                None => {
                                    proof {
                                        assert(refs@ =~= old(refs)@ + o.refs);
                                    }
                                    Err(Diagnostic::new(name_pos, ErrorKind::InvalidFormalShape))
                                },
                                Some(n) => {
                                    let p = self.resolve_formal(
                                        formal_region,
                                        scope,
                                        fcall.name.pos,
                                        &fcall.name.item,
                                        refs,
                                    );
                                    match p {
                                        Err(d) => Err(d),
                                        Ok(rf) => self.indexed_result(name_pos, rf, n),
                                    }
                                },
                            }
                        }
                    },
                }
            },
        }
    }
}

} // verus!
