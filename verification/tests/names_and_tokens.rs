//! Unit tests of the name-shape helpers, the catalogue lookups, the
//! reference side-table, and the token data model.

use vhdl_lang::interface::{FormalRegion, InterfaceEnt, InterfaceListType, Mode};
use vhdl_lang::names::{
    ActualPart, AssociationElement, ExprShape, Expression, FunctionCall, Name,
    positional_index_count, prefix_designator, to_formal_conversion_argument,
};
use vhdl_lang::pos::{Pos, WithPos};
use vhdl_lang::refs::RefTable;
use vhdl_lang::tokens::{SourceToken, SourceTokenKind};

const SYM_FOO: usize = 1;
const SYM_BAR: usize = 2;

fn pos(n: usize) -> Pos {
    Pos::new(n, n + 1)
}

fn expr_elem(shape: ExprShape, p: usize) -> AssociationElement {
    AssociationElement {
        formal: None,
        actual: WithPos::new(ActualPart::Expression(Expression { typ: 0, shape }), pos(p)),
    }
}

#[test]
fn conversion_argument_requires_one_bare_positional_identifier() {
    let good = vec![expr_elem(ExprShape::Designator { sym: SYM_FOO }, 3)];
    let arg = to_formal_conversion_argument(&good).unwrap();
    assert_eq!(arg.item, SYM_FOO);
    assert_eq!(arg.pos, pos(3));

    // Not a bare identifier.
    assert!(to_formal_conversion_argument(&vec![expr_elem(ExprShape::Other, 3)]).is_none());
    // Two parameters.
    let two = vec![
        expr_elem(ExprShape::Designator { sym: SYM_FOO }, 3),
        expr_elem(ExprShape::Designator { sym: SYM_BAR }, 4),
    ];
    assert!(to_formal_conversion_argument(&two).is_none());
    // A named parameter.
    let named = vec![AssociationElement {
        formal: Some(WithPos::new(Name::Designator(SYM_BAR), pos(5))),
        actual: WithPos::new(
            ActualPart::Expression(Expression {
                typ: 0,
                shape: ExprShape::Designator { sym: SYM_FOO },
            }),
            pos(6),
        ),
    }];
    assert!(to_formal_conversion_argument(&named).is_none());
    // An open actual.
    let open = vec![AssociationElement {
        formal: None,
        actual: WithPos::new(ActualPart::Open, pos(7)),
    }];
    assert!(to_formal_conversion_argument(&open).is_none());
}

#[test]
fn call_parameters_read_as_indexes_only_when_all_positional_expressions() {
    let good = vec![expr_elem(ExprShape::Other, 1), expr_elem(ExprShape::Other, 2)];
    assert_eq!(positional_index_count(&good), Some(2));
    let with_open = vec![
        expr_elem(ExprShape::Other, 1),
        AssociationElement { formal: None, actual: WithPos::new(ActualPart::Open, pos(2)) },
    ];
    assert_eq!(positional_index_count(&with_open), None);
    let empty: Vec<AssociationElement> = Vec::new();
    assert_eq!(positional_index_count(&empty), Some(0));
}

#[test]
fn prefix_designator_walks_to_the_leftmost_identifier() {
    let name = Name::Slice(
        Box::new(WithPos::new(
            Name::Selected(
                Box::new(WithPos::new(Name::Designator(SYM_FOO), pos(1))),
                WithPos::new(SYM_BAR, pos(2)),
            ),
            pos(1),
        )),
        Box::new(vhdl_lang::names::DiscreteRange {
            left: Expression { typ: 0, shape: ExprShape::Other },
            right: Expression { typ: 0, shape: ExprShape::Other },
        }),
    );
    assert_eq!(prefix_designator(&name), Some(SYM_FOO));
    assert_eq!(prefix_designator(&Name::External), None);
    let call = Name::FunctionCall(Box::new(FunctionCall {
        name: WithPos::new(Name::Designator(SYM_BAR), pos(3)),
        parameters: Vec::new(),
    }));
    assert_eq!(prefix_designator(&call), Some(SYM_BAR));
}

#[test]
fn catalogue_lookup_finds_first_entry_by_name() {
    let e0 = InterfaceEnt {
        id: 7,
        name: SYM_FOO,
        typ: 0,
        has_default: false,
        mode: Mode::In,
        decl_pos: pos(1),
    };
    let e1 = InterfaceEnt {
        id: 8,
        name: SYM_BAR,
        typ: 1,
        has_default: true,
        mode: Mode::Out,
        decl_pos: pos(2),
    };
    let region = FormalRegion::new(InterfaceListType::Parameter, vec![e0, e1]);
    assert_eq!(region.len(), 2);
    assert_eq!(region.lookup(pos(9), SYM_BAR), Ok((1, e1)));
    assert!(region.lookup(pos(9), 99).is_err());
    assert_eq!(region.nth(0), Some(e0));
    assert_eq!(region.nth(2), None);
    assert!(region.contains_name(SYM_FOO));
    assert!(!region.contains_name(99));
    assert!(e1.is_output_signal());
    assert!(!e0.is_output_signal());
    assert_eq!(e0.type_mark(), 0);
}

#[test]
fn reference_table_returns_the_latest_entry_for_a_position() {
    let mut refs = RefTable::new();
    assert_eq!(refs.resolved_at(pos(1)), None);
    refs.record(pos(1), 10);
    refs.record(pos(2), 11);
    refs.record(pos(1), 12);
    assert_eq!(refs.resolved_at(pos(1)), Some(12));
    assert_eq!(refs.resolved_at(pos(2)), Some(11));
    assert_eq!(refs.resolved_at(pos(3)), None);
}

#[test]
fn source_tokens_carry_kind_and_position() {
    let t = SourceToken { kind: SourceTokenKind::Keyword, pos: pos(4) };
    assert_eq!(t.kind, SourceTokenKind::Keyword);
    assert_eq!(t.pos, Pos::new(4, 5));
    let u = SourceToken { kind: SourceTokenKind::BitString, pos: pos(4) };
    assert_ne!(t, u);
}
