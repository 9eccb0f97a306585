//! End-to-end tests of association analysis: formal resolution over every
//! name shape, completeness judgement with the output-port exemption, the
//! early-exit type-check drive, diagnostics, and the reference side-table.

use vhdl_lang::assoc::TypeCheck;
use vhdl_lang::diag::{DiagnosticSink, ErrorKind, RelatedNote};
use vhdl_lang::interface::{FormalRegion, InterfaceEnt, InterfaceListType, Mode};
use vhdl_lang::names::{
    ActualPart, AssociationElement, DiscreteRange, ExprShape, Expression, FunctionCall, Name,
};
use vhdl_lang::pos::{Pos, WithPos};
use vhdl_lang::refs::RefTable;
use vhdl_lang::resolve::{AnalyzeContext, ResolvedFormal};
use vhdl_lang::scope::{AnyEnt, AnyEntKind, NamedEntities, OverloadedEnt, Scope, ScopeEntry};
use vhdl_lang::types::{RecordElement, TypeDecl, TypeKind, TypeTable};

// Type ids of the fixture table.
const NATURAL: usize = 0;
const BIT: usize = 1;
const BIT_VECTOR: usize = 2;
const REC_T: usize = 3;
const ARR2_T: usize = 4;

// Name symbols.
const SYM_NATURAL: usize = 10;
const SYM_BIT: usize = 11;
const SYM_BIT_VECTOR: usize = 12;
const SYM_REC_T: usize = 13;
const SYM_ARR2_T: usize = 14;
const SYM_FOO: usize = 20;
const SYM_BAR: usize = 21;
const SYM_FIELD: usize = 22;
const SYM_TO_SLV: usize = 23;
const SYM_MISSING: usize = 24;

// Entity ids.
const ENT_FOO: usize = 100;
const ENT_BAR: usize = 101;
const ENT_FIELD: usize = 102;
const ENT_TO_SLV_A: usize = 103;
const ENT_TO_SLV_B: usize = 104;
const ENT_OBJ: usize = 105;

fn pos(n: usize) -> Pos {
    Pos::new(n, n + 1)
}

fn fixture_types() -> TypeTable {
    TypeTable::new(vec![
        TypeDecl { id: 0, name: SYM_NATURAL, decl_pos: pos(1000), kind: TypeKind::Scalar },
        TypeDecl { id: 1, name: SYM_BIT, decl_pos: pos(1001), kind: TypeKind::Scalar },
        TypeDecl {
            id: 2,
            name: SYM_BIT_VECTOR,
            decl_pos: pos(1002),
            kind: TypeKind::Array { dims: 1, elem: BIT },
        },
        TypeDecl {
            id: 3,
            name: SYM_REC_T,
            decl_pos: pos(1003),
            kind: TypeKind::Record(vec![RecordElement {
                id: ENT_FIELD,
                name: SYM_FIELD,
                typ: NATURAL,
            }]),
        },
        TypeDecl {
            id: 4,
            name: SYM_ARR2_T,
            decl_pos: pos(1004),
            kind: TypeKind::Array { dims: 2, elem: NATURAL },
        },
    ])
}

fn entry(id: usize, name: usize, typ: usize, has_default: bool, mode: Mode, p: usize) -> InterfaceEnt {
    InterfaceEnt { id, name, typ, has_default, mode, decl_pos: pos(p) }
}

fn empty_scope() -> Scope {
    Scope::new(Vec::new())
}

fn ctx() -> AnalyzeContext {
    AnalyzeContext::new(fixture_types())
}

fn designator(sym: usize, p: usize) -> WithPos<Name> {
    WithPos::new(Name::Designator(sym), pos(p))
}

fn named_elem(formal: WithPos<Name>, actual_typ: usize, p: usize) -> AssociationElement {
    AssociationElement {
        formal: Some(formal),
        actual: WithPos::new(
            ActualPart::Expression(Expression { typ: actual_typ, shape: ExprShape::Other }),
            pos(p),
        ),
    }
}

fn positional_elem(actual_typ: usize, p: usize) -> AssociationElement {
    AssociationElement {
        formal: None,
        actual: WithPos::new(
            ActualPart::Expression(Expression { typ: actual_typ, shape: ExprShape::Other }),
            pos(p),
        ),
    }
}

/// A conversion-call formal `func(arg)`.
fn conversion_name(func: usize, arg: usize, call_pos: usize, arg_pos: usize) -> Name {
    Name::FunctionCall(Box::new(FunctionCall {
        name: designator(func, call_pos),
        parameters: vec![AssociationElement {
            formal: None,
            actual: WithPos::new(
                ActualPart::Expression(Expression {
                    typ: NATURAL,
                    shape: ExprShape::Designator { sym: arg },
                }),
                pos(arg_pos),
            ),
        }],
    }))
}

fn to_slv_candidate(id: usize, param: usize, ret: usize, p: usize) -> OverloadedEnt {
    OverloadedEnt { id, param_types: vec![param], return_type: Some(ret), decl_pos: pos(p) }
}

fn scope_with_to_slv(cands: Vec<OverloadedEnt>) -> Scope {
    Scope::new(vec![ScopeEntry { name: SYM_TO_SLV, ent: NamedEntities::Overloaded(cands) }])
}

// ---------------------------------------------------------------------------
// Plain identifiers and the basic shapes.

#[test]
fn resolves_plain_identifier_to_basic() {
    let region = FormalRegion::new(
        InterfaceListType::Port,
        vec![entry(ENT_FOO, SYM_FOO, BIT, false, Mode::In, 1)],
    );
    let mut refs = RefTable::new();
    let r = ctx().resolve_formal(&region, &empty_scope(), pos(5), &Name::Designator(SYM_FOO), &mut refs);
    assert_eq!(r, Ok(ResolvedFormal::Basic(0, region.entries[0])));
    // The identifier acquired a reference to the catalogue entry.
    assert_eq!(refs.resolved_at(pos(5)), Some(ENT_FOO));
}

#[test]
fn unknown_identifier_is_formal_not_found() {
    let region = FormalRegion::new(
        InterfaceListType::Port,
        vec![entry(ENT_FOO, SYM_FOO, BIT, false, Mode::In, 1)],
    );
    let mut refs = RefTable::new();
    let r = ctx().resolve_formal(&region, &empty_scope(), pos(5), &Name::Designator(SYM_MISSING), &mut refs);
    let d = r.unwrap_err();
    assert_eq!(d.kind, ErrorKind::FormalNotFound);
    assert_eq!(d.pos, pos(5));
    assert!(refs.resolved_at(pos(5)).is_none());
}

#[test]
fn attribute_external_and_selected_all_are_invalid_shapes() {
    let region = FormalRegion::new(
        InterfaceListType::Port,
        vec![entry(ENT_FOO, SYM_FOO, BIT, false, Mode::In, 1)],
    );
    let mut refs = RefTable::new();
    let c = ctx();
    let scope = empty_scope();
    let attr = Name::Attribute(Box::new(designator(SYM_FOO, 1)));
    let all = Name::SelectedAll(Box::new(designator(SYM_FOO, 1)));
    for name in [attr, all, Name::External] {
        let d = c.resolve_formal(&region, &scope, pos(9), &name, &mut refs).unwrap_err();
        assert_eq!(d.kind, ErrorKind::InvalidFormalShape);
        assert_eq!(d.pos, pos(9));
    }
}

// ---------------------------------------------------------------------------
// Selected names (scenario: `foo.field` against a record type).

#[test]
fn selects_record_element_and_narrows_type() {
    let region = FormalRegion::new(
        InterfaceListType::Port,
        vec![entry(ENT_FOO, SYM_FOO, REC_T, false, Mode::In, 1)],
    );
    let mut refs = RefTable::new();
    let name = Name::Selected(
        Box::new(designator(SYM_FOO, 2)),
        WithPos::new(SYM_FIELD, pos(3)),
    );
    let r = ctx().resolve_formal(&region, &empty_scope(), pos(4), &name, &mut refs);
    assert_eq!(r, Ok(ResolvedFormal::Selected(0, region.entries[0], NATURAL)));
    // Both the prefix and the record element acquired references.
    assert_eq!(refs.resolved_at(pos(2)), Some(ENT_FOO));
    assert_eq!(refs.resolved_at(pos(3)), Some(ENT_FIELD));
}

#[test]
fn selection_on_scalar_type_fails() {
    let region = FormalRegion::new(
        InterfaceListType::Port,
        vec![entry(ENT_FOO, SYM_FOO, BIT, false, Mode::In, 1)],
    );
    let mut refs = RefTable::new();
    let name = Name::Selected(
        Box::new(designator(SYM_FOO, 2)),
        WithPos::new(SYM_FIELD, pos(3)),
    );
    let d = ctx().resolve_formal(&region, &empty_scope(), pos(4), &name, &mut refs).unwrap_err();
    assert_eq!(d.kind, ErrorKind::InvalidSelection);
    assert_eq!(d.pos, pos(3));
}

#[test]
fn selection_of_unknown_element_fails() {
    let region = FormalRegion::new(
        InterfaceListType::Port,
        vec![entry(ENT_FOO, SYM_FOO, REC_T, false, Mode::In, 1)],
    );
    let mut refs = RefTable::new();
    let name = Name::Selected(
        Box::new(designator(SYM_FOO, 2)),
        WithPos::new(SYM_BAR, pos(3)),
    );
    let d = ctx().resolve_formal(&region, &empty_scope(), pos(4), &name, &mut refs).unwrap_err();
    assert_eq!(d.kind, ErrorKind::InvalidSelection);
}

// ---------------------------------------------------------------------------
// Indexed names and slices.

#[test]
fn indexing_narrows_to_element_type() {
    let region = FormalRegion::new(
        InterfaceListType::Port,
        vec![entry(ENT_FOO, SYM_FOO, BIT_VECTOR, false, Mode::In, 1)],
    );
    let mut refs = RefTable::new();
    let name = Name::Indexed(
        Box::new(designator(SYM_FOO, 2)),
        vec![Expression { typ: NATURAL, shape: ExprShape::Other }],
    );
    let r = ctx().resolve_formal(&region, &empty_scope(), pos(4), &name, &mut refs);
    assert_eq!(r, Ok(ResolvedFormal::Selected(0, region.entries[0], BIT)));
}

#[test]
fn index_count_mismatch_reports_dimensions() {
    let region = FormalRegion::new(
        InterfaceListType::Port,
        vec![entry(ENT_FOO, SYM_FOO, ARR2_T, false, Mode::In, 1)],
    );
    let mut refs = RefTable::new();
    let name = Name::Indexed(
        Box::new(designator(SYM_FOO, 2)),
        vec![Expression { typ: NATURAL, shape: ExprShape::Other }],
    );
    let d = ctx().resolve_formal(&region, &empty_scope(), pos(4), &name, &mut refs).unwrap_err();
    assert_eq!(d.kind, ErrorKind::DimensionMismatch { required: 2, got: 1 });
    assert_eq!(d.pos, pos(4));
    // The related entry points at the array type's declaration.
    assert_eq!(d.related.len(), 1);
    assert_eq!(d.related[0].pos, pos(1004));
    assert_eq!(d.related[0].note, RelatedNote::DefinedHere);
}

#[test]
fn indexing_scalar_type_fails() {
    let region = FormalRegion::new(
        InterfaceListType::Port,
        vec![entry(ENT_FOO, SYM_FOO, NATURAL, false, Mode::In, 1)],
    );
    let mut refs = RefTable::new();
    let name = Name::Indexed(
        Box::new(designator(SYM_FOO, 2)),
        vec![Expression { typ: NATURAL, shape: ExprShape::Other }],
    );
    let d = ctx().resolve_formal(&region, &empty_scope(), pos(4), &name, &mut refs).unwrap_err();
    assert_eq!(d.kind, ErrorKind::InvalidSelection);
}

#[test]
fn slice_keeps_the_resolved_formal_unchanged() {
    let region = FormalRegion::new(
        InterfaceListType::Port,
        vec![entry(ENT_FOO, SYM_FOO, BIT_VECTOR, false, Mode::In, 1)],
    );
    let mut refs = RefTable::new();
    let name = Name::Slice(
        Box::new(designator(SYM_FOO, 2)),
        Box::new(DiscreteRange {
            left: Expression { typ: NATURAL, shape: ExprShape::Other },
            right: Expression { typ: NATURAL, shape: ExprShape::Other },
        }),
    );
    let r = ctx().resolve_formal(&region, &empty_scope(), pos(4), &name, &mut refs);
    assert_eq!(r, Ok(ResolvedFormal::Basic(0, region.entries[0])));
}

// ---------------------------------------------------------------------------
// Call syntax: indexing written as a call, and conversion functions.

#[test]
fn call_syntax_on_a_formal_resolves_as_indexed() {
    let region = FormalRegion::new(
        InterfaceListType::Port,
        vec![entry(ENT_FOO, SYM_FOO, BIT_VECTOR, false, Mode::In, 1)],
    );
    let mut refs = RefTable::new();
    let name = Name::FunctionCall(Box::new(FunctionCall {
        name: designator(SYM_FOO, 2),
        parameters: vec![positional_elem(NATURAL, 3)],
    }));
    let r = ctx().resolve_formal(&region, &empty_scope(), pos(4), &name, &mut refs);
    assert_eq!(r, Ok(ResolvedFormal::Selected(0, region.entries[0], BIT)));
}

#[test]
fn call_syntax_with_named_parameter_on_a_formal_fails() {
    let region = FormalRegion::new(
        InterfaceListType::Port,
        vec![entry(ENT_FOO, SYM_FOO, BIT_VECTOR, false, Mode::In, 1)],
    );
    let mut refs = RefTable::new();
    let name = Name::FunctionCall(Box::new(FunctionCall {
        name: designator(SYM_FOO, 2),
        parameters: vec![named_elem(designator(SYM_BAR, 5), NATURAL, 3)],
    }));
    let d = ctx().resolve_formal(&region, &empty_scope(), pos(4), &name, &mut refs).unwrap_err();
    assert_eq!(d.kind, ErrorKind::InvalidFormalShape);
}

#[test]
fn unique_conversion_function_converts_the_formal() {
    // Scenario: `to_slv(foo)` with exactly one visible candidate accepting
    // foo's type and returning a bit vector.
    let region = FormalRegion::new(
        InterfaceListType::Port,
        vec![entry(ENT_FOO, SYM_FOO, NATURAL, false, Mode::In, 1)],
    );
    let scope = scope_with_to_slv(vec![to_slv_candidate(ENT_TO_SLV_A, NATURAL, BIT_VECTOR, 50)]);
    let mut refs = RefTable::new();
    let name = conversion_name(SYM_TO_SLV, SYM_FOO, 2, 3);
    let r = ctx().resolve_formal(&region, &scope, pos(4), &name, &mut refs);
    assert_eq!(r, Ok(ResolvedFormal::Converted(0, region.entries[0], BIT_VECTOR)));
    // The conversion argument acquired a reference to the catalogue entry.
    assert_eq!(refs.resolved_at(pos(3)), Some(ENT_FOO));
}

#[test]
fn conversion_picks_the_overload_matching_the_formal_type() {
    // Two candidates with distinct parameter types: the one accepting the
    // formal's type wins, with no diagnostic.
    let region = FormalRegion::new(
        InterfaceListType::Port,
        vec![entry(ENT_FOO, SYM_FOO, NATURAL, false, Mode::In, 1)],
    );
    let scope = scope_with_to_slv(vec![
        to_slv_candidate(ENT_TO_SLV_A, NATURAL, BIT_VECTOR, 50),
        to_slv_candidate(ENT_TO_SLV_B, BIT, BIT, 51),
    ]);
    let mut refs = RefTable::new();
    let name = conversion_name(SYM_TO_SLV, SYM_FOO, 2, 3);
    let r = ctx().resolve_formal(&region, &scope, pos(4), &name, &mut refs);
    assert_eq!(r, Ok(ResolvedFormal::Converted(0, region.entries[0], BIT_VECTOR)));
}

#[test]
fn ambiguous_conversion_lists_both_candidates_in_declaration_order() {
    let region = FormalRegion::new(
        InterfaceListType::Port,
        vec![entry(ENT_FOO, SYM_FOO, NATURAL, false, Mode::In, 1)],
    );
    let scope = scope_with_to_slv(vec![
        to_slv_candidate(ENT_TO_SLV_A, NATURAL, BIT_VECTOR, 50),
        to_slv_candidate(ENT_TO_SLV_B, NATURAL, BIT, 51),
    ]);
    let mut refs = RefTable::new();
    let name = conversion_name(SYM_TO_SLV, SYM_FOO, 2, 3);
    let d = ctx().resolve_formal(&region, &scope, pos(4), &name, &mut refs).unwrap_err();
    assert_eq!(d.kind, ErrorKind::AmbiguousConversionFunction);
    // Anchored at the call's own name.
    assert_eq!(d.pos, pos(2));
    assert_eq!(d.related.len(), 2);
    assert_eq!(d.related[0].pos, pos(50));
    assert_eq!(d.related[0].note, RelatedNote::Candidate { entity: ENT_TO_SLV_A });
    assert_eq!(d.related[1].pos, pos(51));
    assert_eq!(d.related[1].note, RelatedNote::Candidate { entity: ENT_TO_SLV_B });
}

#[test]
fn no_matching_conversion_function_is_reported() {
    let region = FormalRegion::new(
        InterfaceListType::Port,
        vec![entry(ENT_FOO, SYM_FOO, NATURAL, false, Mode::In, 1)],
    );
    let scope = scope_with_to_slv(vec![to_slv_candidate(ENT_TO_SLV_A, BIT, BIT_VECTOR, 50)]);
    let mut refs = RefTable::new();
    let name = conversion_name(SYM_TO_SLV, SYM_FOO, 2, 3);
    let d = ctx().resolve_formal(&region, &scope, pos(4), &name, &mut refs).unwrap_err();
    assert_eq!(d.kind, ErrorKind::NoMatchingConversionFunction);
    assert_eq!(d.pos, pos(2));
}

#[test]
fn conversion_through_a_type_name_uses_the_type() {
    // A type conversion like `natural(foo)`: the call's name denotes a single
    // entity that is a type.
    let region = FormalRegion::new(
        InterfaceListType::Port,
        vec![entry(ENT_FOO, SYM_FOO, BIT, false, Mode::In, 1)],
    );
    let scope = Scope::new(vec![ScopeEntry {
        name: SYM_NATURAL,
        ent: NamedEntities::Single(AnyEnt { id: 0, kind: AnyEntKind::Type { typ: NATURAL } }),
    }]);
    let mut refs = RefTable::new();
    let name = conversion_name(SYM_NATURAL, SYM_FOO, 2, 3);
    let r = ctx().resolve_formal(&region, &scope, pos(4), &name, &mut refs);
    assert_eq!(r, Ok(ResolvedFormal::Converted(0, region.entries[0], NATURAL)));
}

#[test]
fn conversion_through_a_non_type_entity_fails() {
    let region = FormalRegion::new(
        InterfaceListType::Port,
        vec![entry(ENT_FOO, SYM_FOO, BIT, false, Mode::In, 1)],
    );
    let scope = Scope::new(vec![ScopeEntry {
        name: SYM_BAR,
        ent: NamedEntities::Single(AnyEnt { id: ENT_OBJ, kind: AnyEntKind::Other }),
    }]);
    let mut refs = RefTable::new();
    let name = conversion_name(SYM_BAR, SYM_FOO, 2, 3);
    let d = ctx().resolve_formal(&region, &scope, pos(4), &name, &mut refs).unwrap_err();
    assert_eq!(d.kind, ErrorKind::InvalidFormalConversion);
}

#[test]
fn conversion_argument_must_be_a_bare_formal_identifier() {
    let region = FormalRegion::new(
        InterfaceListType::Port,
        vec![entry(ENT_FOO, SYM_FOO, NATURAL, false, Mode::In, 1)],
    );
    let scope = scope_with_to_slv(vec![to_slv_candidate(ENT_TO_SLV_A, NATURAL, BIT_VECTOR, 50)]);
    let c = ctx();
    let mut refs = RefTable::new();
    // Argument is not a bare identifier.
    let name = Name::FunctionCall(Box::new(FunctionCall {
        name: designator(SYM_TO_SLV, 2),
        parameters: vec![positional_elem(NATURAL, 3)],
    }));
    let d = c.resolve_formal(&region, &scope, pos(4), &name, &mut refs).unwrap_err();
    assert_eq!(d.kind, ErrorKind::InvalidFormalConversion);
    // Argument identifier is not a formal of the catalogue.
    let name = conversion_name(SYM_TO_SLV, SYM_MISSING, 2, 3);
    let d = c.resolve_formal(&region, &scope, pos(4), &name, &mut refs).unwrap_err();
    assert_eq!(d.kind, ErrorKind::InvalidFormalConversion);
    // The call's own name denotes nothing in scope.
    let name = conversion_name(SYM_BAR, SYM_FOO, 2, 3);
    let d = c.resolve_formal(&region, &scope, pos(4), &name, &mut refs).unwrap_err();
    assert_eq!(d.kind, ErrorKind::InvalidFormalConversion);
}

// ---------------------------------------------------------------------------
// Conversion blocks further selection.

#[test]
fn converted_formal_admits_no_select() {
    let ent = entry(ENT_FOO, SYM_FOO, NATURAL, false, Mode::In, 1);
    let converted = ResolvedFormal::Converted(0, ent, BIT_VECTOR);
    assert_eq!(converted.select(BIT), None);
    assert_eq!(converted.type_mark(), BIT_VECTOR);
    assert_eq!(converted.idx(), 0);
}

#[test]
fn selection_after_conversion_fails() {
    // `to_slv(foo).field` — conversion must be the outermost operation.
    let region = FormalRegion::new(
        InterfaceListType::Port,
        vec![entry(ENT_FOO, SYM_FOO, NATURAL, false, Mode::In, 1)],
    );
    // The conversion returns the record type, so the element lookup itself
    // succeeds and the narrowing is what fails.
    let scope = scope_with_to_slv(vec![to_slv_candidate(ENT_TO_SLV_A, NATURAL, REC_T, 50)]);
    let mut refs = RefTable::new();
    let name = Name::Selected(
        Box::new(WithPos::new(conversion_name(SYM_TO_SLV, SYM_FOO, 2, 3), pos(2))),
        WithPos::new(SYM_FIELD, pos(5)),
    );
    let d = ctx().resolve_formal(&region, &scope, pos(6), &name, &mut refs).unwrap_err();
    assert_eq!(d.kind, ErrorKind::InvalidSelection);
    assert_eq!(d.pos, pos(6));
}

#[test]
fn slice_after_conversion_fails() {
    let region = FormalRegion::new(
        InterfaceListType::Port,
        vec![entry(ENT_FOO, SYM_FOO, NATURAL, false, Mode::In, 1)],
    );
    let scope = scope_with_to_slv(vec![to_slv_candidate(ENT_TO_SLV_A, NATURAL, BIT_VECTOR, 50)]);
    let mut refs = RefTable::new();
    let name = Name::Slice(
        Box::new(WithPos::new(conversion_name(SYM_TO_SLV, SYM_FOO, 2, 3), pos(2))),
        Box::new(DiscreteRange {
            left: Expression { typ: NATURAL, shape: ExprShape::Other },
            right: Expression { typ: NATURAL, shape: ExprShape::Other },
        }),
    );
    let d = ctx().resolve_formal(&region, &scope, pos(6), &name, &mut refs).unwrap_err();
    assert_eq!(d.kind, ErrorKind::InvalidSelection);
}

#[test]
fn indexing_after_conversion_fails() {
    let region = FormalRegion::new(
        InterfaceListType::Port,
        vec![entry(ENT_FOO, SYM_FOO, NATURAL, false, Mode::In, 1)],
    );
    let scope = scope_with_to_slv(vec![to_slv_candidate(ENT_TO_SLV_A, NATURAL, BIT_VECTOR, 50)]);
    let mut refs = RefTable::new();
    let name = Name::Indexed(
        Box::new(WithPos::new(conversion_name(SYM_TO_SLV, SYM_FOO, 2, 3), pos(2))),
        vec![Expression { typ: NATURAL, shape: ExprShape::Other }],
    );
    let d = ctx().resolve_formal(&region, &scope, pos(6), &name, &mut refs).unwrap_err();
    assert_eq!(d.kind, ErrorKind::InvalidSelection);
}

// ---------------------------------------------------------------------------
// Association-list completeness.

#[test]
fn unconnected_output_port_is_complete_with_zero_diagnostics() {
    // Scenario: interface `(signal s : out bit)`, unconnected.
    let region = FormalRegion::new(
        InterfaceListType::Port,
        vec![entry(ENT_FOO, SYM_FOO, BIT, false, Mode::Out, 1)],
    );
    let mut sink = DiagnosticSink::new();
    let mut refs = RefTable::new();
    let elems: Vec<AssociationElement> = Vec::new();
    let r = ctx().analyze_assoc_elems_with_formal_region(
        pos(0),
        &region,
        &empty_scope(),
        &elems,
        &mut sink,
        &mut refs,
    );
    assert_eq!(r, TypeCheck::Valid);
    assert_eq!(sink.diagnostics.len(), 0);
}

#[test]
fn unconnected_generic_without_default_is_missing() {
    // Scenario: interface `(constant c : natural)`, no default, unconnected.
    let region = FormalRegion::new(
        InterfaceListType::Generic,
        vec![entry(ENT_FOO, SYM_FOO, NATURAL, false, Mode::In, 7)],
    );
    let mut sink = DiagnosticSink::new();
    let mut refs = RefTable::new();
    let elems: Vec<AssociationElement> = Vec::new();
    let r = ctx().analyze_assoc_elems_with_formal_region(
        pos(0),
        &region,
        &empty_scope(),
        &elems,
        &mut sink,
        &mut refs,
    );
    assert_eq!(r, TypeCheck::NotValid);
    assert_eq!(sink.diagnostics.len(), 1);
    let d = &sink.diagnostics[0];
    assert_eq!(d.kind, ErrorKind::MissingAssociation { formal: 0 });
    assert_eq!(d.pos, pos(0));
    assert_eq!(d.related.len(), 1);
    assert_eq!(d.related[0].pos, pos(7));
    assert_eq!(d.related[0].note, RelatedNote::DefinedHere);
}

#[test]
fn unconnected_output_of_a_generic_list_is_not_exempt() {
    // The exemption is for port lists only.
    let region = FormalRegion::new(
        InterfaceListType::Generic,
        vec![entry(ENT_FOO, SYM_FOO, NATURAL, false, Mode::Out, 7)],
    );
    let mut sink = DiagnosticSink::new();
    let mut refs = RefTable::new();
    let elems: Vec<AssociationElement> = Vec::new();
    let r = ctx().analyze_assoc_elems_with_formal_region(
        pos(0),
        &region,
        &empty_scope(),
        &elems,
        &mut sink,
        &mut refs,
    );
    assert_eq!(r, TypeCheck::NotValid);
    assert_eq!(sink.diagnostics.len(), 1);
    assert_eq!(sink.diagnostics[0].kind, ErrorKind::MissingAssociation { formal: 0 });
}

#[test]
fn default_valued_entry_may_stay_unconnected() {
    let region = FormalRegion::new(
        InterfaceListType::Generic,
        vec![entry(ENT_FOO, SYM_FOO, NATURAL, true, Mode::In, 7)],
    );
    let mut sink = DiagnosticSink::new();
    let mut refs = RefTable::new();
    let elems: Vec<AssociationElement> = Vec::new();
    let r = ctx().analyze_assoc_elems_with_formal_region(
        pos(0),
        &region,
        &empty_scope(),
        &elems,
        &mut sink,
        &mut refs,
    );
    assert_eq!(r, TypeCheck::Valid);
    assert_eq!(sink.diagnostics.len(), 0);
}

#[test]
fn three_positional_actuals_against_two_entries_is_one_extra() {
    // Scenario: three positional entries against a two-entry catalogue.
    let region = FormalRegion::new(
        InterfaceListType::Port,
        vec![
            entry(ENT_FOO, SYM_FOO, NATURAL, false, Mode::In, 1),
            entry(ENT_BAR, SYM_BAR, NATURAL, false, Mode::In, 2),
        ],
    );
    let mut sink = DiagnosticSink::new();
    let mut refs = RefTable::new();
    let elems = vec![
        positional_elem(NATURAL, 30),
        positional_elem(NATURAL, 31),
        positional_elem(NATURAL, 32),
    ];
    let r = ctx().analyze_assoc_elems_with_formal_region(
        pos(0),
        &region,
        &empty_scope(),
        &elems,
        &mut sink,
        &mut refs,
    );
    assert_eq!(r, TypeCheck::NotValid);
    assert_eq!(sink.diagnostics.len(), 1);
    let d = &sink.diagnostics[0];
    assert_eq!(d.kind, ErrorKind::ExtraAssociation);
    // Anchored at the third actual's position.
    assert_eq!(d.pos, pos(32));
}

#[test]
fn positional_element_k_resolves_to_catalogue_index_k() {
    let region = FormalRegion::new(
        InterfaceListType::Port,
        vec![
            entry(ENT_FOO, SYM_FOO, NATURAL, false, Mode::In, 1),
            entry(ENT_BAR, SYM_BAR, BIT, false, Mode::In, 2),
        ],
    );
    let mut sink = DiagnosticSink::new();
    let mut refs = RefTable::new();
    let elems = vec![positional_elem(NATURAL, 30), positional_elem(BIT, 31)];
    let formals = ctx()
        .resolve_association_formals(pos(0), &region, &empty_scope(), &elems, &mut sink, &mut refs)
        .unwrap();
    assert_eq!(formals.len(), 2);
    assert_eq!(formals[0], ResolvedFormal::Basic(0, region.entries[0]));
    assert_eq!(formals[1], ResolvedFormal::Basic(1, region.entries[1]));
    assert_eq!(sink.diagnostics.len(), 0);
}

#[test]
fn resolution_failure_never_halts_the_pass() {
    // Two bad names: both are reported in one pass.
    let region = FormalRegion::new(
        InterfaceListType::Port,
        vec![
            entry(ENT_FOO, SYM_FOO, NATURAL, false, Mode::In, 1),
            entry(ENT_BAR, SYM_BAR, NATURAL, false, Mode::In, 2),
        ],
    );
    let mut sink = DiagnosticSink::new();
    let mut refs = RefTable::new();
    let elems = vec![
        named_elem(designator(SYM_MISSING, 40), NATURAL, 41),
        named_elem(designator(SYM_TO_SLV, 42), NATURAL, 43),
    ];
    let r = ctx().resolve_association_formals(
        pos(0),
        &region,
        &empty_scope(),
        &elems,
        &mut sink,
        &mut refs,
    );
    assert!(r.is_none());
    // Two resolution failures, then the two missing formals.
    assert_eq!(sink.diagnostics.len(), 4);
    assert_eq!(sink.diagnostics[0].kind, ErrorKind::FormalNotFound);
    assert_eq!(sink.diagnostics[0].pos, pos(40));
    assert_eq!(sink.diagnostics[1].kind, ErrorKind::FormalNotFound);
    assert_eq!(sink.diagnostics[1].pos, pos(42));
    assert_eq!(sink.diagnostics[2].kind, ErrorKind::MissingAssociation { formal: 0 });
    assert_eq!(sink.diagnostics[3].kind, ErrorKind::MissingAssociation { formal: 1 });
}

#[test]
fn naming_the_same_formal_twice_is_absorbed() {
    // Duplicate coverage of one catalogue index is permissive: the second
    // named association is absorbed into the covered set.
    let region = FormalRegion::new(
        InterfaceListType::Port,
        vec![entry(ENT_FOO, SYM_FOO, NATURAL, false, Mode::In, 1)],
    );
    let mut sink = DiagnosticSink::new();
    let mut refs = RefTable::new();
    let elems = vec![
        named_elem(designator(SYM_FOO, 40), NATURAL, 41),
        named_elem(designator(SYM_FOO, 42), NATURAL, 43),
    ];
    let formals = ctx()
        .resolve_association_formals(pos(0), &region, &empty_scope(), &elems, &mut sink, &mut refs)
        .unwrap();
    assert_eq!(formals.len(), 2);
    assert_eq!(sink.diagnostics.len(), 0);
}

// ---------------------------------------------------------------------------
// The type-check drive.

#[test]
fn complete_list_with_matching_types_is_valid() {
    let region = FormalRegion::new(
        InterfaceListType::Port,
        vec![
            entry(ENT_FOO, SYM_FOO, NATURAL, false, Mode::In, 1),
            entry(ENT_BAR, SYM_BAR, BIT, false, Mode::In, 2),
        ],
    );
    let mut sink = DiagnosticSink::new();
    let mut refs = RefTable::new();
    let elems = vec![positional_elem(NATURAL, 30), positional_elem(BIT, 31)];
    let r = ctx().analyze_assoc_elems_with_formal_region(
        pos(0),
        &region,
        &empty_scope(),
        &elems,
        &mut sink,
        &mut refs,
    );
    assert_eq!(r, TypeCheck::Valid);
    assert_eq!(sink.diagnostics.len(), 0);
}

#[test]
fn type_mismatch_is_reported_at_the_actual() {
    let region = FormalRegion::new(
        InterfaceListType::Port,
        vec![entry(ENT_FOO, SYM_FOO, NATURAL, false, Mode::In, 1)],
    );
    let mut sink = DiagnosticSink::new();
    let mut refs = RefTable::new();
    let elems = vec![positional_elem(BIT, 30)];
    let r = ctx().analyze_assoc_elems_with_formal_region(
        pos(0),
        &region,
        &empty_scope(),
        &elems,
        &mut sink,
        &mut refs,
    );
    assert_eq!(r, TypeCheck::NotValid);
    assert_eq!(sink.diagnostics.len(), 1);
    assert_eq!(sink.diagnostics[0].kind, ErrorKind::TypeMismatch);
    assert_eq!(sink.diagnostics[0].pos, pos(30));
}

#[test]
fn type_checking_stops_at_the_first_failure() {
    // Both actuals mismatch; only the first is reported — the drive exits
    // early to bound the cost of target-directed checking.
    let region = FormalRegion::new(
        InterfaceListType::Port,
        vec![
            entry(ENT_FOO, SYM_FOO, NATURAL, false, Mode::In, 1),
            entry(ENT_BAR, SYM_BAR, NATURAL, false, Mode::In, 2),
        ],
    );
    let mut sink = DiagnosticSink::new();
    let mut refs = RefTable::new();
    let elems = vec![positional_elem(BIT, 30), positional_elem(BIT, 31)];
    let r = ctx().analyze_assoc_elems_with_formal_region(
        pos(0),
        &region,
        &empty_scope(),
        &elems,
        &mut sink,
        &mut refs,
    );
    assert_eq!(r, TypeCheck::NotValid);
    assert_eq!(sink.diagnostics.len(), 1);
    assert_eq!(sink.diagnostics[0].pos, pos(30));
}

#[test]
fn open_actuals_are_never_type_checked() {
    let region = FormalRegion::new(
        InterfaceListType::Port,
        vec![entry(ENT_FOO, SYM_FOO, NATURAL, false, Mode::In, 1)],
    );
    let mut sink = DiagnosticSink::new();
    let mut refs = RefTable::new();
    let elems = vec![AssociationElement {
        formal: None,
        actual: WithPos::new(ActualPart::Open, pos(30)),
    }];
    let r = ctx().analyze_assoc_elems_with_formal_region(
        pos(0),
        &region,
        &empty_scope(),
        &elems,
        &mut sink,
        &mut refs,
    );
    assert_eq!(r, TypeCheck::Valid);
    assert_eq!(sink.diagnostics.len(), 0);
}

#[test]
fn defective_list_skips_type_checking() {
    // The mismatching actual would fail the type check, but the structural
    // failure (an unknown formal) suppresses the phase entirely.
    let region = FormalRegion::new(
        InterfaceListType::Port,
        vec![entry(ENT_FOO, SYM_FOO, NATURAL, false, Mode::In, 1)],
    );
    let mut sink = DiagnosticSink::new();
    let mut refs = RefTable::new();
    let elems = vec![
        named_elem(designator(SYM_FOO, 40), BIT, 41),
        named_elem(designator(SYM_MISSING, 42), BIT, 43),
    ];
    let r = ctx().analyze_assoc_elems_with_formal_region(
        pos(0),
        &region,
        &empty_scope(),
        &elems,
        &mut sink,
        &mut refs,
    );
    assert_eq!(r, TypeCheck::NotValid);
    assert_eq!(sink.diagnostics.len(), 1);
    assert_eq!(sink.diagnostics[0].kind, ErrorKind::FormalNotFound);
}

// ---------------------------------------------------------------------------
// Idempotence: the analysis is a function of its inputs alone.

#[test]
fn analysing_twice_yields_identical_outcomes() {
    let region = FormalRegion::new(
        InterfaceListType::Port,
        vec![
            entry(ENT_FOO, SYM_FOO, REC_T, false, Mode::In, 1),
            entry(ENT_BAR, SYM_BAR, NATURAL, false, Mode::In, 2),
        ],
    );
    let elems = vec![
        named_elem(
            WithPos::new(
                Name::Selected(Box::new(designator(SYM_FOO, 2)), WithPos::new(SYM_FIELD, pos(3))),
                pos(2),
            ),
            NATURAL,
            4,
        ),
        named_elem(designator(SYM_MISSING, 5), NATURAL, 6),
    ];
    let c = ctx();
    let mut sink1 = DiagnosticSink::new();
    let mut refs1 = RefTable::new();
    let r1 = c.analyze_assoc_elems_with_formal_region(
        pos(0),
        &region,
        &empty_scope(),
        &elems,
        &mut sink1,
        &mut refs1,
    );
    let mut sink2 = DiagnosticSink::new();
    let mut refs2 = RefTable::new();
    let r2 = c.analyze_assoc_elems_with_formal_region(
        pos(0),
        &region,
        &empty_scope(),
        &elems,
        &mut sink2,
        &mut refs2,
    );
    assert_eq!(r1, r2);
    assert_eq!(sink1.diagnostics, sink2.diagnostics);
    assert_eq!(refs1.entries, refs2.entries);
}

// ---------------------------------------------------------------------------
// The tri-state accumulator.

#[test]
fn tri_state_combination_is_failure_dominant() {
    let mut c = TypeCheck::Valid;
    c.add(TypeCheck::Valid);
    assert_eq!(c, TypeCheck::Valid);
    c.add(TypeCheck::Unknown);
    assert_eq!(c, TypeCheck::Unknown);
    c.add(TypeCheck::Valid);
    assert_eq!(c, TypeCheck::Unknown);
    c.add(TypeCheck::NotValid);
    assert_eq!(c, TypeCheck::NotValid);
    c.add(TypeCheck::Valid);
    assert_eq!(c, TypeCheck::NotValid);
}
