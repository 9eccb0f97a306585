//! Source tokens as an editor-tooling layer classifies them.  Only the data
//! model lives here; producing tokens from source text belongs to the
//! tokenizer, an external collaborator.

use vstd::prelude::*;
use crate::pos::Pos;

verus! {

/// The classification of one source token.
#[derive(Clone, Copy, Debug, PartialEq, Eq, Structural)]
pub enum SourceTokenKind {
    Keyword,
    Variable,
    Signal,
    Port,
    Entity,
    Architecture,
    Procedure,
    Function,
    Component,
    Comment,
    String,
    Number,
    BitString,
    Character,
    Operator,
}

/// One classified source token and where it stands in the source.
#[derive(Clone, Copy, Debug, PartialEq, Eq, Structural)]
pub struct SourceToken {
    pub kind: SourceTokenKind,
    pub pos: Pos,
}

} // verus!
