//! The association resolver and the target-directed type-check driver.
//!
//! The resolver walks one association list in source order, resolving every
//! named formal (and inferring positional ones), then judges the whole list:
//! complete, or defective with every structural problem reported in one pass.
//! Only a complete list is then type-checked, element by element in source
//! order, stopping at the first failure — a deliberate bound on the
//! combinatorial cost of target-directed checking, not an accident.
//!
//! Both executable functions are pinned exactly to spec-level models
//! ([`assoc_pass`], [`unassociated`], [`drive_check`]), so their outcome and
//! every diagnostic they emit are functions of their inputs alone.

use vstd::prelude::*;
use crate::covered::{covered_contains, covered_indices, covered_insert, covered_new};
use crate::diag::{Diagnostic, DiagnosticSink, ErrorKind, Related, RelatedNote, SpecDiagnostic,
    spec_diag};
use crate::interface::{FormalRegion, InterfaceListType, Mode};
use crate::names::{ActualPart, AssociationElement, Expression};
use crate::pos::Pos;
use crate::refs::{RefEntry, RefTable};
use crate::resolve::{AnalyzeContext, ResolvedFormal, spec_resolve_formal};
use crate::scope::Scope;
use crate::types::TypeTable;

verus! {

broadcast use vstd::seq_lib::group_seq_lib_default;

/// The tri-state accumulator of the type-check driver.  `Unknown` is reserved
/// for future use; the driver stops as soon as the accumulated state is no
/// longer `Ok`.
#[derive(Clone, Copy, Debug, PartialEq, Eq, Structural)]
pub enum TypeCheck {
    Valid,
    NotValid,
    Unknown,
}

/// Combining two check states: a failure dominates, then an unknown.
pub open spec fn spec_combine(a: TypeCheck, b: TypeCheck) -> TypeCheck {
    if a == TypeCheck::NotValid || b == TypeCheck::NotValid {
        TypeCheck::NotValid
    } else if a == TypeCheck::Unknown || b == TypeCheck::Unknown {
        TypeCheck::Unknown
    } else {
        TypeCheck::Valid
    }
}

impl TypeCheck {
    /// Fold another element's check state into the accumulator.
    pub fn add(&mut self, other: TypeCheck)
        ensures
            *final(self) == spec_combine(*old(self), other),
    {
        let combined = if matches!(*self, TypeCheck::NotValid) || matches!(other, TypeCheck::NotValid) {
            TypeCheck::NotValid
        } else if matches!(*self, TypeCheck::Unknown) || matches!(other, TypeCheck::Unknown) {
            TypeCheck::Unknown
        } else {
            TypeCheck::Valid
        };
        *self = combined;
    }
}

/// What target-directed checking of one actual expression yields: the
/// external type system judges the expression's type against the formal's.
pub open spec fn spec_check_expression(target_type: usize, expr: Expression) -> TypeCheck {
    if expr.typ == target_type {
        TypeCheck::Valid
    } else {
        TypeCheck::NotValid
    }
}

/// The diagnostics target-directed checking of one actual emits: one type
/// mismatch at the actual's position, or nothing.
pub open spec fn spec_check_diags(target_type: usize, expr: Expression, pos: Pos) -> Seq<
    SpecDiagnostic,
> {
    if expr.typ == target_type {
        Seq::empty()
    } else {
        seq![spec_diag(pos, ErrorKind::TypeMismatch)]
    }
}

/// The running state of one resolution pass over an association list's first
/// `n` elements: the resolved formals in source order, the covered catalogue
/// indices, the positions of extra associations, whether any element failed
/// to resolve, and the diagnostics and references recorded so far.
#[verifier::ext_equal]
pub struct AssocPass {
    pub results: Seq<ResolvedFormal>,
    pub covered: Set<usize>,
    pub extras: Seq<Pos>,
    pub missing: bool,
    pub diags: Seq<SpecDiagnostic>,
    pub refs: Seq<RefEntry>,
}

/// The model of the resolution pass over the first `n` association elements.
/// A named element resolves through the formal resolver — a failure is
/// recorded and the pass continues; a positional element covers the catalogue
/// index equal to its position, or is an extra association beyond the
/// catalogue's size.  Covering is idempotent per index: a second association
/// of an already-covered index is absorbed.
pub open spec fn assoc_pass(
    types: TypeTable,
    region: FormalRegion,
    scope: Scope,
    elems: Seq<AssociationElement>,
    n: int,
) -> AssocPass
    decreases n,
{
    if n <= 0 {
        AssocPass {
            results: Seq::empty(),
            covered: Set::empty(),
            extras: Seq::empty(),
            missing: false,
            diags: Seq::empty(),
            refs: Seq::empty(),
        }
    } else {
        let p = assoc_pass(types, region, scope, elems, n - 1);
        match elems[n - 1].formal {
            Some(f) => {
                let o = spec_resolve_formal(types, region, scope, f.pos, f.item);
                match o.res {
                    Err(d) => AssocPass {
                        results: p.results,
                        covered: p.covered,
                        extras: p.extras,
                        missing: true,
                        diags: p.diags.push(d),
                        refs: p.refs + o.refs,
                    },
                    Ok(rf) => AssocPass {
                        results: p.results.push(rf),
                        covered: p.covered.insert(rf.spec_idx()),
                        extras: p.extras,
                        missing: p.missing,
                        diags: p.diags,
                        refs: p.refs + o.refs,
                    },
                }
            },
            None => {
                if n - 1 < region.entries@.len() {
                    AssocPass {
                        results: p.results.push(
                            ResolvedFormal::Basic((n - 1) as usize, region.entries@[n - 1]),
                        ),
                        covered: p.covered.insert((n - 1) as usize),
                        extras: p.extras,
                        missing: p.missing,
                        diags: p.diags,
                        refs: p.refs,
                    }
                } else {
                    AssocPass {
                        results: p.results,
                        covered: p.covered,
                        extras: p.extras.push(elems[n - 1].actual.pos),
                        missing: p.missing,
                        diags: p.diags,
                        refs: p.refs,
                    }
                }
            },
        }
    }
}

/// Whether catalogue entry `i` is exempt from the completeness requirement:
/// unconnected outputs of a port list are legal.
pub open spec fn spec_exempt(region: FormalRegion, i: int) -> bool {
    region.typ == InterfaceListType::Port && region.entries@[i].mode == Mode::Out
}

/// The catalogue indices below `n` that are uncovered, lack a default value,
/// and are not exempt — in ascending order, each exactly once.
pub open spec fn unassociated(region: FormalRegion, covered: Set<usize>, n: int) -> Seq<usize>
    decreases n,
{
    if n <= 0 {
        Seq::empty()
    } else {
        let rest = unassociated(region, covered, n - 1);
        if !covered.contains((n - 1) as usize) && !region.entries@[n - 1].has_default
            && !spec_exempt(region, n - 1) {
            rest.push((n - 1) as usize)
        } else {
            rest
        }
    }
}

/// The diagnostic for one missing association: anchored at the call site,
/// naming the catalogue entry, with a related entry at its declaration.
pub open spec fn missing_diag(region: FormalRegion, error_pos: Pos, i: usize) -> SpecDiagnostic {
    SpecDiagnostic {
        pos: error_pos,
        kind: ErrorKind::MissingAssociation { formal: i },
        related: seq![
            Related { pos: region.entries@[i as int].decl_pos, note: RelatedNote::DefinedHere },
        ],
    }
}

/// One missing-association diagnostic per unassociated entry, in catalogue
/// order.
pub open spec fn missing_diags(region: FormalRegion, error_pos: Pos, na: Seq<usize>) -> Seq<
    SpecDiagnostic,
> {
    na.map_values(|i: usize| missing_diag(region, error_pos, i))
}

/// One extra-association diagnostic per recorded extra, at the actual's
/// position, in source order.
pub open spec fn extra_diags(extras: Seq<Pos>) -> Seq<SpecDiagnostic> {
    extras.map_values(|p: Pos| spec_diag(p, ErrorKind::ExtraAssociation))
}

/// A pass is complete when no element failed to resolve, nothing required is
/// unassociated, and nothing extra was supplied.
pub open spec fn assoc_complete(p: AssocPass, na: Seq<usize>) -> bool {
    !p.missing && na.len() == 0 && p.extras.len() == 0
}

/// In a pass with no resolution failure and no extras, every element
/// contributed exactly one resolved formal.
pub proof fn lemma_assoc_pass_results_len(
    types: TypeTable,
    region: FormalRegion,
    scope: Scope,
    elems: Seq<AssociationElement>,
    n: int,
)
    requires
        0 <= n,
    ensures
        ({
            let p = assoc_pass(types, region, scope, elems, n);
            !p.missing && p.extras.len() == 0 ==> p.results.len() == n
        }),
    decreases n,
{
    if n > 0 {
        lemma_assoc_pass_results_len(types, region, scope, elems, n - 1);
    }
}

/// The accumulated outcome of the type-check drive over the first `n`
/// elements of a complete association.
#[verifier::ext_equal]
pub struct CheckOutcome {
    pub check: TypeCheck,
    pub diags: Seq<SpecDiagnostic>,
}

/// The model of the type-check drive: elements are checked in source order
/// against their resolved formals' types; an open actual is always
/// well-formed; the drive stops at the first non-`Ok` state, so elements
/// after the first failure are not checked and emit nothing.
pub open spec fn drive_check(
    formals: Seq<ResolvedFormal>,
    elems: Seq<AssociationElement>,
    n: int,
) -> CheckOutcome
    decreases n,
{
    if n <= 0 {
        CheckOutcome { check: TypeCheck::Valid, diags: Seq::empty() }
    } else {
        let p = drive_check(formals, elems, n - 1);
        if p.check != TypeCheck::Valid {
            p
        } else {
            match elems[n - 1].actual.item {
                ActualPart::Open => p,
                ActualPart::Expression(e) => {
                    let target = formals[n - 1].spec_type_mark();
                    CheckOutcome {
                        check: spec_combine(p.check, spec_check_expression(target, e)),
                        diags: p.diags + spec_check_diags(target, e, elems[n - 1].actual.pos),
                    }
                },
            }
        }
    }
}

/// Once the drive has left `Ok`, later elements change nothing.
pub proof fn lemma_drive_check_stable(
    formals: Seq<ResolvedFormal>,
    elems: Seq<AssociationElement>,
    k: int,
    n: int,
)
    requires
        0 <= k <= n,
        drive_check(formals, elems, k).check != TypeCheck::Valid,
    ensures
        drive_check(formals, elems, n) == drive_check(formals, elems, k),
    decreases n - k,
{
    if n > k {
        lemma_drive_check_stable(formals, elems, k, n - 1);
    }
}

impl AnalyzeContext {
    /// Target-directed type checking of one actual expression against the
    /// type the external type system assigned it: `Ok` exactly when the types
    /// agree, with one `TypeMismatch` diagnostic at `pos` otherwise.
    pub fn analyze_expression_with_target_type(
        &self,
        scope: &Scope,
        target_type: usize,
        pos: Pos,
        expr: &Expression,
        diagnostics: &mut DiagnosticSink,
    ) -> (r: TypeCheck)
        ensures
            r == spec_check_expression(target_type, *expr),
            final(diagnostics)@ == old(diagnostics)@ + spec_check_diags(target_type, *expr, pos),
    {
        if expr.typ == target_type {
            proof {
                assert(diagnostics@ =~= old(diagnostics)@ + spec_check_diags(
                    target_type,
                    *expr,
                    pos,
                ));
            }
            TypeCheck::Valid
        } else {
            diagnostics.error(pos, ErrorKind::TypeMismatch);
            proof {
                assert(diagnostics@ =~= old(diagnostics)@ + spec_check_diags(
                    target_type,
                    *expr,
                    pos,
                ));
            }
            TypeCheck::NotValid
        }
    }

    /// Resolve every formal of one association list and judge the list:
    /// `Some` with the resolved formals (one per element, in source order)
    /// when the list is complete; `None` when it is defective, with every
    /// structural problem — resolution failures as they occur, then one
    /// diagnostic per missing required formal, then one per extra
    /// association — reported in this one pass.
    pub fn resolve_association_formals(
        &self,
        error_pos: Pos,
        formal_region: &FormalRegion,
        scope: &Scope,
        elems: &Vec<AssociationElement>,
        diagnostics: &mut DiagnosticSink,
        refs: &mut RefTable,
    ) -> (r: Option<Vec<ResolvedFormal>>)
        ensures
            ({
                let p = assoc_pass(self.types, *formal_region, *scope, elems@, elems@.len() as int);
                let na = unassociated(*formal_region, p.covered, formal_region.entries@.len() as int);
                &&& final(refs)@ == old(refs)@ + p.refs
                &&& if assoc_complete(p, na) {
                    (match r {
                        Some(v) => v@ == p.results,
                        None => false,
                    }) && final(diagnostics)@ == old(diagnostics)@ + p.diags
                } else {
                    r is None && final(diagnostics)@ == old(diagnostics)@ + p.diags + missing_diags(
                        *formal_region,
                        error_pos,
                        na,
                    ) + extra_diags(p.extras)
                }
            }),
    {
        let n = elems.len();
        let mut result: Vec<ResolvedFormal> = Vec::new();
        let mut covered = covered_new();
        let mut extras: Vec<Pos> = Vec::new();
        let mut missing = false;
        let mut i: usize = 0;
        proof {
            let entry_state = assoc_pass(self.types, *formal_region, *scope, elems@, 0);
            assert(result@ =~= entry_state.results);
            assert(covered_indices(covered) =~= entry_state.covered);
            assert(extras@ =~= entry_state.extras);
            assert(diagnostics@ =~= old(diagnostics)@ + entry_state.diags);
            assert(refs@ =~= old(refs)@ + entry_state.refs);
        }
        while i < n
            invariant
                n == elems@.len(),
                0 <= i <= n,
                ({
                    let p = assoc_pass(self.types, *formal_region, *scope, elems@, i as int);
                    &&& result@ == p.results
                    &&& covered_indices(covered) == p.covered
                    &&& extras@ == p.extras
                    &&& missing == p.missing
                    &&& diagnostics@ == old(diagnostics)@ + p.diags
                    &&& refs@ == old(refs)@ + p.refs
                }),
            decreases n - i,
        {
            let ghost p = assoc_pass(self.types, *formal_region, *scope, elems@, i as int);
            let elem = &elems[i];
            match &elem.formal {
                Some(f) => {
                    let ghost o = spec_resolve_formal(
                        self.types,
                        *formal_region,
                        *scope,
                        f.pos,
                        f.item,
                    );
                    let res = self.resolve_formal(formal_region, scope, f.pos, &f.item, refs);
                    proof {
                        assert(refs@ =~= old(refs)@ + (p.refs + o.refs));
                    }
                    match res {
                        Err(d) => {
                            missing = true;
                            diagnostics.push(d);
                        },
                        Ok(rf) => {
                            covered_insert(&mut covered, rf.idx());
                            result.push(rf);
                        },
                    }
                },
                None => {
                    match formal_region.nth(i) {
                        Some(ent) => {
                            covered_insert(&mut covered, i);
                            result.push(ResolvedFormal::Basic(i, ent));
                        },
                        None => {
                            extras.push(elem.actual.pos);
                        },
                    }
                },
            }
            proof {
                let next_state = assoc_pass(self.types, *formal_region, *scope, elems@, i + 1);
                assert(result@ =~= next_state.results);
                assert(covered_indices(covered) =~= next_state.covered);
                assert(extras@ =~= next_state.extras);
                assert(diagnostics@ =~= old(diagnostics)@ + next_state.diags);
                assert(refs@ =~= old(refs)@ + next_state.refs);
            }
            i = i + 1;
        }
        let ghost p = assoc_pass(self.types, *formal_region, *scope, elems@, elems@.len() as int);
        let region_len = formal_region.len();
        let mut not_associated: Vec<usize> = Vec::new();
        let mut j: usize = 0;
        proof {
            assert(not_associated@ =~= unassociated(*formal_region, p.covered, 0));
        }
        while j < region_len
            invariant
                region_len == formal_region.entries@.len(),
                0 <= j <= region_len,
                covered_indices(covered) == p.covered,
                not_associated@ == unassociated(*formal_region, p.covered, j as int),
                forall|t: int|
                    0 <= t < not_associated@.len() ==> (#[trigger] not_associated@[t]) < region_len,
                result@ == p.results,
                extras@ == p.extras,
                missing == p.missing,
                diagnostics@ == old(diagnostics)@ + p.diags,
                refs@ == old(refs)@ + p.refs,
            decreases region_len - j,
        {
            let ent = formal_region.entries[j];
            let exempt = match formal_region.typ {
                InterfaceListType::Port => ent.is_output_signal(),
                _ => false,
            };
            if !covered_contains(&covered, j) && !ent.has_default && !exempt {
                not_associated.push(j);
            }
            proof {
                assert(not_associated@ =~= unassociated(*formal_region, p.covered, j + 1));
            }
            j = j + 1;
        }
        let ghost na = unassociated(*formal_region, p.covered, formal_region.entries@.len() as int);
        if !missing && not_associated.len() == 0 && extras.len() == 0 {
            Some(result)
        } else {
            // Only complain about coverage once the pass is known defective.
            let m = not_associated.len();
            let mut k: usize = 0;
            proof {
                assert(na.take(0) =~= Seq::<usize>::empty());
                assert(diagnostics@ =~= old(diagnostics)@ + p.diags + missing_diags(
                    *formal_region,
                    error_pos,
                    na.take(0),
                ));
            }
            while k < m
                invariant
                    m == not_associated@.len(),
                    0 <= k <= m,
                    na == not_associated@,
                    region_len == formal_region.entries@.len(),
                    forall|t: int|
                        0 <= t < not_associated@.len() ==> (#[trigger] not_associated@[t])
                            < region_len,
                    diagnostics@ == old(diagnostics)@ + p.diags + missing_diags(
                        *formal_region,
                        error_pos,
                        na.take(k as int),
                    ),
                    refs@ == old(refs)@ + p.refs,
                decreases m - k,
            {
                let idx = not_associated[k];
                let mut d = Diagnostic::new(
                    error_pos,
                    ErrorKind::MissingAssociation { formal: idx },
                );
                d.add_related(formal_region.entries[idx].decl_pos, RelatedNote::DefinedHere);
                proof {
                    assert(d@ =~= missing_diag(*formal_region, error_pos, idx));
                }
                diagnostics.push(d);
                proof {
                    assert(na.take(k + 1).drop_last() =~= na.take(k as int));
                    assert(na.take(k + 1).last() == na[k as int]);
                    assert(missing_diags(*formal_region, error_pos, na.take(k + 1)) =~= missing_diags(
                        *formal_region,
                        error_pos,
                        na.take(k as int),
                    ).push(missing_diag(*formal_region, error_pos, na[k as int])));
                    assert(diagnostics@ =~= old(diagnostics)@ + p.diags + missing_diags(
                        *formal_region,
                        error_pos,
                        na.take(k + 1),
                    ));
                }
                k = k + 1;
            }
            proof {
                assert(na.take(m as int) =~= na);
            }
            let n_extras = extras.len();
            let mut x: usize = 0;
            proof {
                assert(p.extras.take(0) =~= Seq::<Pos>::empty());
                assert(diagnostics@ =~= old(diagnostics)@ + p.diags + missing_diags(
                    *formal_region,
                    error_pos,
                    na,
                ) + extra_diags(p.extras.take(0)));
            }
            while x < n_extras
                invariant
                    n_extras == extras@.len(),
                    0 <= x <= n_extras,
                    extras@ == p.extras,
                    na == unassociated(
                        *formal_region,
                        p.covered,
                        formal_region.entries@.len() as int,
                    ),
                    diagnostics@ == old(diagnostics)@ + p.diags + missing_diags(
                        *formal_region,
                        error_pos,
                        na,
                    ) + extra_diags(p.extras.take(x as int)),
                    refs@ == old(refs)@ + p.refs,
                decreases n_extras - x,
            {
                diagnostics.error(extras[x], ErrorKind::ExtraAssociation);
                proof {
                    assert(p.extras.take(x + 1).drop_last() =~= p.extras.take(x as int));
                    assert(p.extras.take(x + 1).last() == p.extras[x as int]);
                    assert(extra_diags(p.extras.take(x + 1)) =~= extra_diags(
                        p.extras.take(x as int),
                    ).push(spec_diag(p.extras[x as int], ErrorKind::ExtraAssociation)));
                    assert(diagnostics@ =~= old(diagnostics)@ + p.diags + missing_diags(
                        *formal_region,
                        error_pos,
                        na,
                    ) + extra_diags(p.extras.take(x + 1)));
                }
                x = x + 1;
            }
            proof {
                assert(p.extras.take(n_extras as int) =~= p.extras);
            }
            None
        }
    }

    /// Analyse one association list against the catalogue: resolve its
    /// formals, and if the list is structurally complete, type-check each
    /// actual against its formal's type in source order, stopping at the
    /// first failure.  A defective list is `NotOk` and is not type-checked.
    pub fn analyze_assoc_elems_with_formal_region(
        &self,
        error_pos: Pos,
        formal_region: &FormalRegion,
        scope: &Scope,
        elems: &Vec<AssociationElement>,
        diagnostics: &mut DiagnosticSink,
        refs: &mut RefTable,
    ) -> (r: TypeCheck)
        ensures
            ({
                let p = assoc_pass(self.types, *formal_region, *scope, elems@, elems@.len() as int);
                let na = unassociated(*formal_region, p.covered, formal_region.entries@.len() as int);
                &&& final(refs)@ == old(refs)@ + p.refs
                &&& if assoc_complete(p, na) {
                    let c = drive_check(p.results, elems@, elems@.len() as int);
                    r == c.check && final(diagnostics)@ == old(diagnostics)@ + p.diags + c.diags
                } else {
                    r == TypeCheck::NotValid && final(diagnostics)@ == old(diagnostics)@ + p.diags
                        + missing_diags(*formal_region, error_pos, na) + extra_diags(p.extras)
                }
            }),
    {
        let ghost p = assoc_pass(self.types, *formal_region, *scope, elems@, elems@.len() as int);
        let formals_opt = self.resolve_association_formals(
            error_pos,
            formal_region,
            scope,
            elems,
            diagnostics,
            refs,
        );
        match formals_opt {
            None => TypeCheck::NotValid,
            Some(formals) => {
                proof {
                    lemma_assoc_pass_results_len(
                        self.types,
                        *formal_region,
                        *scope,
                        elems@,
                        elems@.len() as int,
                    );
                    assert(drive_check(formals@, elems@, 0).diags
                        =~= Seq::<SpecDiagnostic>::empty());
                }
                let ghost sink_after_pass = diagnostics@;
                let n = elems.len();
                let mut check = TypeCheck::Valid;
                let mut i: usize = 0;
                while i < n
                    invariant
                        p == assoc_pass(
                            self.types,
                            *formal_region,
                            *scope,
                            elems@,
                            elems@.len() as int,
                        ),
                        assoc_complete(
                            p,
                            unassociated(
                                *formal_region,
                                p.covered,
                                formal_region.entries@.len() as int,
                            ),
                        ),
                        sink_after_pass == old(diagnostics)@ + p.diags,
                        n == elems@.len(),
                        formals@ == p.results,
                        formals@.len() == n,
                        0 <= i <= n,
                        check == TypeCheck::Valid,
                        drive_check(formals@, elems@, i as int) == (CheckOutcome {
                            check: TypeCheck::Valid,
                            diags: Seq::<SpecDiagnostic>::empty(),
                        }),
                        diagnostics@ == sink_after_pass,
                        refs@ == old(refs)@ + p.refs,
                    decreases n - i,
                {
                    match &elems[i].actual.item {
                        ActualPart::Expression(e) => {
                            let target = formals[i].type_mark();
                            let elem_check = self.analyze_expression_with_target_type(
                                scope,
                                target,
                                elems[i].actual.pos,
                                e,
                                diagnostics,
                            );
                            check.add(elem_check);
                        },
                        ActualPart::Open => {},
                    }
                    // To avoid combinatorial explosion when checking trees of
                    // overloaded subprograms, stop at the first failure.
                    if !matches!(check, TypeCheck::Valid) {
                        proof {
                            let c1 = drive_check(formals@, elems@, i + 1);
                            assert(c1.check == check);
                            assert(diagnostics@ =~= sink_after_pass + c1.diags);
                            lemma_drive_check_stable(formals@, elems@, i + 1, n as int);
                        }
                        return check;
                    }
                    proof {
                        assert(drive_check(formals@, elems@, i + 1).diags =~= Seq::<
                            SpecDiagnostic,
                        >::empty());
                    }
                    i = i + 1;
                }
                proof {
                    assert(diagnostics@ =~= sink_after_pass + drive_check(
                        formals@,
                        elems@,
                        n as int,
                    ).diags);
                }
                check
            },
        }
    }
}

} // verus!
