//! The library's laws: properties of association analysis, stated over the
//! spec-level models that the executable functions are pinned to by their
//! `ensures` ([`spec_resolve_formal`], [`assoc_pass`], [`unassociated`],
//! [`drive_check`]), and proved here.

use vstd::prelude::*;
use crate::assoc::{
    AssocPass, TypeCheck, assoc_complete, assoc_pass, drive_check, extra_diags, missing_diag,
    missing_diags, spec_exempt, unassociated,
};
use crate::diag::{ErrorKind, SpecDiagnostic};
use crate::interface::{FormalRegion, InterfaceListType, Mode};
use crate::names::{AssociationElement, Name};
use crate::pos::{Pos, WithPos};
use crate::refs::RefEntry;
use crate::resolve::{
    FormalOutcome, ResolvedFormal, spec_resolve_formal,
};
use crate::scope::{NamedEntities, OverloadedEnt, Scope, spec_can_convert, spec_scope_lookup};
use crate::types::TypeTable;

verus! {

broadcast use vstd::seq_lib::group_seq_lib_default;

/// Everything one association-list analysis observably produces: the check
/// verdict, the diagnostics in order, and the recorded references in order.
/// This is the model that `analyze_assoc_elems_with_formal_region`'s
/// `ensures` spell out case by case.
#[verifier::ext_equal]
pub struct AnalysisOutcome {
    pub check: TypeCheck,
    pub diags: Seq<SpecDiagnostic>,
    pub refs: Seq<RefEntry>,
}

/// The model of one whole analysis: resolve the list, then — only when it is
/// structurally complete — drive the type check over it.
pub open spec fn spec_analyze(
    types: TypeTable,
    region: FormalRegion,
    scope: Scope,
    error_pos: Pos,
    elems: Seq<AssociationElement>,
) -> AnalysisOutcome {
    let p = assoc_pass(types, region, scope, elems, elems.len() as int);
    let na = unassociated(region, p.covered, region.entries@.len() as int);
    if assoc_complete(p, na) {
        let c = drive_check(p.results, elems, elems.len() as int);
        AnalysisOutcome { check: c.check, diags: p.diags + c.diags, refs: p.refs }
    } else {
        AnalysisOutcome {
            check: TypeCheck::NotValid,
            diags: p.diags + missing_diags(region, error_pos, na) + extra_diags(p.extras),
            refs: p.refs,
        }
    }
}

/// Law (idempotence): resolving the same formal name twice, against the same
/// catalogue and scope, yields the same result and the same references.
/// Resolution is a function of its inputs alone — no hidden state and no
/// earlier run influences it.
pub proof fn lemma_resolution_idempotent(
    types: TypeTable,
    region: FormalRegion,
    scope: Scope,
    name_pos: Pos,
    name: Name,
    first: FormalOutcome,
    second: FormalOutcome,
)
    requires
        first == spec_resolve_formal(types, region, scope, name_pos, name),
        second == spec_resolve_formal(types, region, scope, name_pos, name),
    ensures
        first == second,
{
}

/// Law (idempotence): analysing the same well-formed association list twice
/// yields identical resolved-formal sequences and identical diagnostics: the
/// whole pass is a function of the catalogue, the scope, and the elements.
pub proof fn lemma_analysis_idempotent(
    types: TypeTable,
    region: FormalRegion,
    scope: Scope,
    error_pos: Pos,
    elems: Seq<AssociationElement>,
    first_pass: AssocPass,
    second_pass: AssocPass,
    first: AnalysisOutcome,
    second: AnalysisOutcome,
)
    requires
        first_pass == assoc_pass(types, region, scope, elems, elems.len() as int),
        second_pass == assoc_pass(types, region, scope, elems, elems.len() as int),
        first == spec_analyze(types, region, scope, error_pos, elems),
        second == spec_analyze(types, region, scope, error_pos, elems),
    ensures
        first_pass.results == second_pass.results,
        first == second,
{
}

/// Law (positional mapping): in a purely positional association list no
/// longer than the catalogue, element `k` resolves to catalogue index `k`.
pub proof fn lemma_positional_mapping(
    types: TypeTable,
    region: FormalRegion,
    scope: Scope,
    elems: Seq<AssociationElement>,
    n: int,
)
    requires
        forall|j: int| 0 <= j < elems.len() ==> (#[trigger] elems[j].formal) is None,
        elems.len() <= region.entries@.len(),
        0 <= n <= elems.len(),
    ensures
        ({
            let p = assoc_pass(types, region, scope, elems, n);
            &&& p.results.len() == n
            &&& forall|k: int|
                0 <= k < n ==> #[trigger] p.results[k] == ResolvedFormal::Basic(
                    k as usize,
                    region.entries@[k],
                )
        }),
    decreases n,
{
    if n > 0 {
        lemma_positional_mapping(types, region, scope, elems, n - 1);
    }
}

/// The number of diagnostics in `diags` that report a missing association of
/// catalogue entry `i`.
pub open spec fn count_missing_for(diags: Seq<SpecDiagnostic>, i: usize) -> nat
    decreases diags.len(),
{
    if diags.len() == 0 {
        0
    } else {
        count_missing_for(diags.drop_last(), i) + if diags.last().kind
            == (ErrorKind::MissingAssociation { formal: i }) {
            1nat
        } else {
            0nat
        }
    }
}

/// Whether a diagnostic is anything but a missing association.
pub open spec fn diag_not_missing(d: SpecDiagnostic) -> bool {
    !(d.kind is MissingAssociation)
}

/// The formal resolver never reports a missing association: its failures are
/// about one name's shape, not about the list's completeness.
pub proof fn lemma_resolver_diag_kind(
    types: TypeTable,
    region: FormalRegion,
    scope: Scope,
    name_pos: Pos,
    name: Name,
)
    ensures
        ({
            let o = spec_resolve_formal(types, region, scope, name_pos, name);
            o.res is Err ==> diag_not_missing(o.res->Err_0)
        }),
    decreases name,
{
    match name {
        Name::Selected(prefix, _) => {
            lemma_resolver_diag_kind(types, region, scope, prefix.pos, prefix.item);
        },
        Name::Indexed(prefix, _) => {
            lemma_resolver_diag_kind(types, region, scope, prefix.pos, prefix.item);
        },
        Name::Slice(prefix, _) => {
            lemma_resolver_diag_kind(types, region, scope, prefix.pos, prefix.item);
        },
        Name::FunctionCall(fcall) => {
            lemma_resolver_diag_kind(types, region, scope, fcall.name.pos, fcall.name.item);
        },
        _ => {},
    }
}

/// Every diagnostic the resolution pass records is a resolution failure,
/// never a missing association.
pub proof fn lemma_pass_diags_not_missing(
    types: TypeTable,
    region: FormalRegion,
    scope: Scope,
    elems: Seq<AssociationElement>,
    n: int,
)
    requires
        0 <= n,
    ensures
        forall|j: int|
            0 <= j < assoc_pass(types, region, scope, elems, n).diags.len() ==> diag_not_missing(
                #[trigger] assoc_pass(types, region, scope, elems, n).diags[j],
            ),
    decreases n,
{
    if n > 0 {
        lemma_pass_diags_not_missing(types, region, scope, elems, n - 1);
        let p = assoc_pass(types, region, scope, elems, n - 1);
        let q = assoc_pass(types, region, scope, elems, n);
        match elems[n - 1].formal {
            Some(f) => {
                lemma_resolver_diag_kind(types, region, scope, f.pos, f.item);
            },
            None => {},
        }
        assert forall|j: int| 0 <= j < q.diags.len() implies diag_not_missing(q.diags[j]) by {
            if j < p.diags.len() {
                assert(q.diags[j] == p.diags[j]);
            }
        }
    }
}

/// The type-check drive only ever reports type mismatches.
pub proof fn lemma_drive_diags_not_missing(
    formals: Seq<ResolvedFormal>,
    elems: Seq<AssociationElement>,
    n: int,
)
    ensures
        forall|j: int|
            0 <= j < drive_check(formals, elems, n).diags.len() ==> diag_not_missing(
                #[trigger] drive_check(formals, elems, n).diags[j],
            ),
    decreases n,
{
    if n > 0 {
        lemma_drive_diags_not_missing(formals, elems, n - 1);
    }
}

/// Extra-association diagnostics are not missing-association diagnostics.
pub proof fn lemma_extra_diags_not_missing(extras: Seq<Pos>)
    ensures
        forall|j: int|
            0 <= j < extra_diags(extras).len() ==> diag_not_missing(
                #[trigger] extra_diags(extras)[j],
            ),
{
}

/// A run of diagnostics none of which is a missing association counts zero
/// for every entry.
pub proof fn lemma_count_zero(s: Seq<SpecDiagnostic>, i: usize)
    requires
        forall|j: int| 0 <= j < s.len() ==> diag_not_missing(#[trigger] s[j]),
    ensures
        count_missing_for(s, i) == 0,
    decreases s.len(),
{
    if s.len() > 0 {
        assert forall|j: int| 0 <= j < s.drop_last().len() implies diag_not_missing(
            #[trigger] s.drop_last()[j],
        ) by {
            assert(s.drop_last()[j] == s[j]);
        }
        lemma_count_zero(s.drop_last(), i);
    }
}

/// Counting distributes over concatenation.
pub proof fn lemma_count_concat(a: Seq<SpecDiagnostic>, b: Seq<SpecDiagnostic>, i: usize)
    ensures
        count_missing_for(a + b, i) == count_missing_for(a, i) + count_missing_for(b, i),
    decreases b.len(),
{
    if b.len() == 0 {
        assert(a + b =~= a);
    } else {
        lemma_count_concat(a, b.drop_last(), i);
        assert((a + b).drop_last() =~= a + b.drop_last());
        assert((a + b).last() == b.last());
    }
}

/// How many unassociated-entry positions equal `i`.
pub open spec fn count_index(na: Seq<usize>, i: usize) -> nat
    decreases na.len(),
{
    if na.len() == 0 {
        0
    } else {
        count_index(na.drop_last(), i) + if na.last() == i {
            1nat
        } else {
            0nat
        }
    }
}

/// Entry `i` stands in the unassociated list exactly once when it is below
/// `n`, uncovered, without default, and not exempt — and not at all
/// otherwise.
pub proof fn lemma_unassociated_count(
    region: FormalRegion,
    covered: Set<usize>,
    n: int,
    i: usize,
)
    requires
        0 <= n <= usize::MAX,
    ensures
        count_index(unassociated(region, covered, n), i) == if (i as int) < n
            && !covered.contains(i) && !region.entries@[i as int].has_default && !spec_exempt(
            region,
            i as int,
        ) {
            1nat
        } else {
            0nat
        },
    decreases n,
{
    if n > 0 {
        lemma_unassociated_count(region, covered, n - 1, i);
        let rest = unassociated(region, covered, n - 1);
        if !covered.contains((n - 1) as usize) && !region.entries@[n - 1].has_default
            && !spec_exempt(region, n - 1) {
            assert(rest.push((n - 1) as usize).drop_last() =~= rest);
        }
    }
}

/// One missing-association diagnostic for `i` per unassociated position `i`.
pub proof fn lemma_missing_diags_count(
    region: FormalRegion,
    error_pos: Pos,
    na: Seq<usize>,
    i: usize,
)
    ensures
        count_missing_for(missing_diags(region, error_pos, na), i) == count_index(na, i),
    decreases na.len(),
{
    if na.len() > 0 {
        lemma_missing_diags_count(region, error_pos, na.drop_last(), i);
        assert(missing_diags(region, error_pos, na).drop_last() =~= missing_diags(
            region,
            error_pos,
            na.drop_last(),
        ));
        assert(missing_diags(region, error_pos, na).last() == missing_diag(
            region,
            error_pos,
            na.last(),
        ));
    }
}

/// Law (output-port exemption): in a catalogue tagged as a port list, an
/// output-mode entry left uncovered produces zero missing-association
/// diagnostics over the whole analysis, while an input-mode entry without a
/// default in the same situation produces exactly one.
pub proof fn lemma_output_port_exemption(
    types: TypeTable,
    region: FormalRegion,
    scope: Scope,
    error_pos: Pos,
    elems: Seq<AssociationElement>,
    i: usize,
)
    requires
        region.typ == InterfaceListType::Port,
        (i as int) < region.entries@.len(),
        !assoc_pass(types, region, scope, elems, elems.len() as int).covered.contains(i),
    ensures
        ({
            let o = spec_analyze(types, region, scope, error_pos, elems);
            &&& region.entries@[i as int].mode == Mode::Out ==> count_missing_for(o.diags, i) == 0
            &&& (region.entries@[i as int].mode == Mode::In && !region.entries@[i as int].has_default)
                ==> count_missing_for(o.diags, i) == 1
        }),
{
    let p = assoc_pass(types, region, scope, elems, elems.len() as int);
    let na = unassociated(region, p.covered, region.entries@.len() as int);
    assert(region.entries.len() == region.entries@.len());
    assert(region.entries@.len() <= usize::MAX);
    lemma_pass_diags_not_missing(types, region, scope, elems, elems.len() as int);
    lemma_count_zero(p.diags, i);
    lemma_unassociated_count(region, p.covered, region.entries@.len() as int, i);
    lemma_missing_diags_count(region, error_pos, na, i);
    lemma_extra_diags_not_missing(p.extras);
    lemma_count_zero(extra_diags(p.extras), i);
    if assoc_complete(p, na) {
        let c = drive_check(p.results, elems, elems.len() as int);
        lemma_drive_diags_not_missing(p.results, elems, elems.len() as int);
        lemma_count_zero(c.diags, i);
        lemma_count_concat(p.diags, c.diags, i);
    } else {
        lemma_count_concat(p.diags, missing_diags(region, error_pos, na), i);
        lemma_count_concat(p.diags + missing_diags(region, error_pos, na), extra_diags(p.extras), i);
    }
}

/// Law (conversion blocks narrowing, at the core): a converted formal admits
/// no further selection at all.
pub proof fn lemma_converted_blocks_select(rf: ResolvedFormal, suffix_type: usize)
    requires
        rf is Converted,
    ensures
        rf.spec_select(suffix_type) is None,
{
}

/// Law (conversion blocks further selection): resolving `prefix.suffix`
/// fails with `InvalidSelection` whenever the prefix resolved to a converted
/// formal, whatever the suffix.
pub proof fn lemma_conversion_blocks_selected(
    types: TypeTable,
    region: FormalRegion,
    scope: Scope,
    name_pos: Pos,
    prefix: Box<WithPos<Name>>,
    suffix: WithPos<usize>,
)
    requires
        ({
            let p = spec_resolve_formal(types, region, scope, prefix.pos, prefix.item);
            p.res is Ok && p.res->Ok_0 is Converted
        }),
    ensures
        ({
            let o = spec_resolve_formal(types, region, scope, name_pos, Name::Selected(
                prefix,
                suffix,
            ));
            o.res is Err && o.res->Err_0.kind == ErrorKind::InvalidSelection
        }),
{
}

/// Law (conversion blocks further selection): resolving `prefix(range)`
/// fails with `InvalidSelection` whenever the prefix resolved to a converted
/// formal.
pub proof fn lemma_conversion_blocks_slice(
    types: TypeTable,
    region: FormalRegion,
    scope: Scope,
    name_pos: Pos,
    prefix: Box<WithPos<Name>>,
    drange: Box<crate::names::DiscreteRange>,
)
    requires
        ({
            let p = spec_resolve_formal(types, region, scope, prefix.pos, prefix.item);
            p.res is Ok && p.res->Ok_0 is Converted
        }),
    ensures
        ({
            let o = spec_resolve_formal(types, region, scope, name_pos, Name::Slice(
                prefix,
                drange,
            ));
            o.res is Err && o.res->Err_0.kind == ErrorKind::InvalidSelection
        }),
{
}

/// Law (conversion blocks further selection): resolving `prefix(i, ...)`
/// fails with `InvalidSelection` whenever the prefix resolved to a converted
/// formal and the index count fits the converted type's dimensionality (a
/// wrong count is reported as a dimension mismatch first).
pub proof fn lemma_conversion_blocks_indexed(
    types: TypeTable,
    region: FormalRegion,
    scope: Scope,
    name_pos: Pos,
    prefix: Box<WithPos<Name>>,
    indexes: Vec<crate::names::Expression>,
)
    requires
        ({
            let p = spec_resolve_formal(types, region, scope, prefix.pos, prefix.item);
            &&& p.res is Ok
            &&& p.res->Ok_0 is Converted
            &&& match crate::types::spec_array_info(types, p.res->Ok_0.spec_type_mark()) {
                Some(info) => indexes@.len() == info.0,
                None => true,
            }
        }),
    ensures
        ({
            let o = spec_resolve_formal(types, region, scope, name_pos, Name::Indexed(
                prefix,
                indexes,
            ));
            o.res is Err && o.res->Err_0.kind == ErrorKind::InvalidSelection
        }),
{
}

/// Law (conversion disambiguation): with exactly two overloaded candidates
/// visible for the call's name, a single-parameter function taking `t1` and
/// returning `r1`, and another taking `t2`, a conversion call on a formal of
/// type `t1` picks the first candidate when the parameter types are distinct
/// — with no diagnostic — and is ambiguous when both accept `t1`, listing
/// both candidates as related entries in declaration order.
pub proof fn lemma_conversion_disambiguation(
    types: TypeTable,
    region: FormalRegion,
    scope: Scope,
    name_pos: Pos,
    name: Name,
    fsym: usize,
    arg: WithPos<usize>,
    i: int,
    cands: Vec<OverloadedEnt>,
    c1: OverloadedEnt,
    c2: OverloadedEnt,
    t1: usize,
    t2: usize,
    r1: usize,
)
    requires
        name is FunctionCall,
        ({
            let fcall = name->FunctionCall_0;
            &&& fcall.name.item == Name::Designator(fsym)
            &&& crate::names::spec_conversion_argument(fcall.parameters@) == Some(arg)
        }),
        crate::interface::spec_lookup(region, fsym) is None,
        crate::interface::spec_lookup(region, arg.item) == Some(i),
        region.entries@[i].typ == t1,
        spec_scope_lookup(scope, fsym) == Some(NamedEntities::Overloaded(cands)),
        cands@ == seq![c1, c2],
        c1.param_types@ == seq![t1],
        c1.return_type == Some(r1),
        c2.param_types@ == seq![t2],
        c2.return_type is Some,
    ensures
        ({
            let o = spec_resolve_formal(types, region, scope, name_pos, name);
            &&& t1 != t2 ==> o.res == Result::<ResolvedFormal, SpecDiagnostic>::Ok(
                ResolvedFormal::Converted(i as usize, region.entries@[i], r1),
            )
            &&& t1 == t2 ==> {
                &&& o.res is Err
                &&& o.res->Err_0.kind == ErrorKind::AmbiguousConversionFunction
                &&& o.res->Err_0.related == seq![
                    crate::diag::Related {
                        pos: c1.decl_pos,
                        note: crate::diag::RelatedNote::Candidate { entity: c1.id },
                    },
                    crate::diag::Related {
                        pos: c2.decl_pos,
                        note: crate::diag::RelatedNote::Candidate { entity: c2.id },
                    },
                ]
            }
        }),
{
    let fcall = name->FunctionCall_0;
    assert(crate::names::spec_prefix_designator(fcall.name.item) == Some(fsym));
    let cs = crate::resolve::candidate_indices(cands@, t1);
    assert(cands@.drop_last() =~= seq![c1]);
    assert(cands@.last() == c2);
    assert(seq![c1].drop_last() =~= Seq::<OverloadedEnt>::empty());
    assert(seq![c1].last() == c1);
    assert(spec_can_convert(c1, t1));
    assert(crate::resolve::candidate_indices(Seq::<OverloadedEnt>::empty(), t1) =~= Seq::<
        int,
    >::empty());
    assert(crate::resolve::candidate_indices(seq![c1], t1) =~= seq![0int]);
    if t1 != t2 {
        assert(!spec_can_convert(c2, t1));
        assert(cs =~= seq![0int]);
    } else {
        assert(spec_can_convert(c2, t1));
        assert(cs =~= seq![0int, 1int]);
        let o = spec_resolve_formal(types, region, scope, name_pos, name);
        assert(o.res->Err_0.related =~= seq![
            crate::diag::Related {
                pos: c1.decl_pos,
                note: crate::diag::RelatedNote::Candidate { entity: c1.id },
            },
            crate::diag::Related {
                pos: c2.decl_pos,
                note: crate::diag::RelatedNote::Candidate { entity: c2.id },
            },
        ]);
    }
}

} // verus!
