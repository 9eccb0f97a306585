//! The formal-name grammar and association elements.  A formal name is one of
//! a closed set of shapes: a plain identifier, a selected name, an indexed
//! name, a slice, an attribute name, a function-call-shaped name, or an
//! external name.  Actual expressions are carried with the type the external
//! type system assigned them, plus their syntactic shape where resolution
//! inspects it (the bare-identifier argument of a conversion call).

use vstd::prelude::*;
use crate::pos::{Pos, WithPos};

verus! {

/// The syntactic shape of an actual expression, as far as formal resolution
/// inspects it.
#[derive(Clone, Copy, Debug, PartialEq, Eq, Structural)]
pub enum ExprShape {
    /// A bare identifier.
    Designator { sym: usize },
    /// Any other expression.
    Other,
}

/// An actual expression: its shape, and the type the external type system
/// computed for it.
#[derive(Clone, Copy, Debug, PartialEq, Eq, Structural)]
pub struct Expression {
    pub typ: usize,
    pub shape: ExprShape,
}

/// A discrete range of a slice.  Its bounds are validated by the external
/// type system, not here; a slice restricts the connected range but does not
/// narrow the catalogue-visible type.
#[derive(Clone, Copy, Debug, PartialEq, Eq, Structural)]
pub struct DiscreteRange {
    pub left: Expression,
    pub right: Expression,
}

/// The actual side of an association element: an expression, or an explicit
/// `open` (absence of connection).
#[derive(Clone, Copy, Debug, PartialEq, Eq, Structural)]
pub enum ActualPart {
    Expression(Expression),
    Open,
}

/// One element of an association list: an optional formal name (absent means
/// positional) and an actual.
pub struct AssociationElement {
    pub formal: Option<WithPos<Name>>,
    pub actual: WithPos<ActualPart>,
}

/// A function-call-shaped name: a called name and its parameter association
/// list.
pub struct FunctionCall {
    pub name: WithPos<Name>,
    pub parameters: Vec<AssociationElement>,
}

/// A (possibly compound) name, the closed grammar formal resolution walks.
pub enum Name {
    /// A plain identifier, by its case-normalized symbol.
    Designator(usize),
    /// `prefix.suffix`: record-element selection.
    Selected(Box<WithPos<Name>>, WithPos<usize>),
    /// `prefix.all`.
    SelectedAll(Box<WithPos<Name>>),
    /// `prefix(i, j, ...)`: array indexing.
    Indexed(Box<WithPos<Name>>, Vec<Expression>),
    /// `prefix(range)`: an array slice.
    Slice(Box<WithPos<Name>>, Box<DiscreteRange>),
    /// `prefix'attr`: never a formal.
    Attribute(Box<WithPos<Name>>),
    /// `f(args)`: call syntax, either indexing written as a call or a
    /// conversion function applied to a formal.
    FunctionCall(Box<FunctionCall>),
    /// `<< ... >>`: never a formal.
    External,
}

/// The leftmost plain identifier of a name, if it has one.
pub open spec fn spec_prefix_designator(name: Name) -> Option<usize>
    decreases name,
{
    match name {
        Name::Designator(sym) => Some(sym),
        Name::Selected(prefix, _) => spec_prefix_designator(prefix.item),
        Name::SelectedAll(prefix) => spec_prefix_designator(prefix.item),
        Name::Indexed(prefix, _) => spec_prefix_designator(prefix.item),
        Name::Slice(prefix, _) => spec_prefix_designator(prefix.item),
        Name::Attribute(prefix) => spec_prefix_designator(prefix.item),
        Name::FunctionCall(fcall) => spec_prefix_designator(fcall.name.item),
        Name::External => None,
    }
}

/// The leftmost plain identifier of a name, if it has one.
pub fn prefix_designator(name: &Name) -> (r: Option<usize>)
    ensures
        r == spec_prefix_designator(*name),
    decreases *name,
{
    match name {
        Name::Designator(sym) => Some(*sym),
        Name::Selected(prefix, _) => prefix_designator(&prefix.item),
        Name::SelectedAll(prefix) => prefix_designator(&prefix.item),
        Name::Indexed(prefix, _) => prefix_designator(&prefix.item),
        Name::Slice(prefix, _) => prefix_designator(&prefix.item),
        Name::Attribute(prefix) => prefix_designator(&prefix.item),
        Name::FunctionCall(fcall) => prefix_designator(&fcall.name.item),
        Name::External => None,
    }
}

/// The bare-identifier argument a conversion call must have: exactly one
/// parameter, positional, whose actual is a bare-identifier expression.
pub open spec fn spec_conversion_argument(parameters: Seq<AssociationElement>) -> Option<
    WithPos<usize>,
> {
    if parameters.len() == 1 && parameters[0].formal is None {
        match parameters[0].actual.item {
            ActualPart::Expression(e) => match e.shape {
                ExprShape::Designator { sym } => Some(
                    WithPos { item: sym, pos: parameters[0].actual.pos },
                ),
                ExprShape::Other => None,
            },
            ActualPart::Open => None,
        }
    } else {
        None
    }
}

/// The single bare-identifier argument of a conversion call, if the parameter
/// list has that shape.
pub fn to_formal_conversion_argument(parameters: &Vec<AssociationElement>) -> (r: Option<
    WithPos<usize>,
>)
    ensures
        r == spec_conversion_argument(parameters@),
{
    if parameters.len() == 1 {
        let elem = &parameters[0];
        if elem.formal.is_none() {
            match &elem.actual.item {
                ActualPart::Expression(e) => match e.shape {
                    ExprShape::Designator { sym } => Some(
                        WithPos { item: sym, pos: elem.actual.pos },
                    ),
                    ExprShape::Other => None,
                },
                ActualPart::Open => None,
            }
        } else {
            None
        }
    } else {
        None
    }
}

/// Call syntax reads as an indexed name when every parameter is a positional
/// expression; the value is then the index count.
pub open spec fn spec_positional_index_count(parameters: Seq<AssociationElement>) -> Option<usize> {
    if forall|j: int|
        0 <= j < parameters.len() ==> parameters[j].formal is None && parameters[j].actual.item
            is Expression {
        Some(parameters.len() as usize)
    } else {
        None
    }
}

/// The index count of call syntax read as an indexed name, if every
/// parameter is a positional expression.
pub fn positional_index_count(parameters: &Vec<AssociationElement>) -> (r: Option<usize>)
    ensures
        r == spec_positional_index_count(parameters@),
{
    let n = parameters.len();
    let mut i: usize = 0;
    while i < n
        invariant
            n == parameters@.len(),
            0 <= i <= n,
            forall|j: int|
                0 <= j < i ==> parameters@[j].formal is None && parameters@[j].actual.item
                    is Expression,
        decreases n - i,
    {
        let elem = &parameters[i];
        let positional_expression = elem.formal.is_none() && match &elem.actual.item {
            ActualPart::Expression(_) => true,
            ActualPart::Open => false,
        };
        if !positional_expression {
            return None;
        }
        i = i + 1;
    }
    Some(n)
}

} // verus!
