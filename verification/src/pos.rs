//! Source positions and position-carrying wrappers.

use vstd::prelude::*;

verus! {

/// A source position: a half-open byte range into the analysed source text.
#[derive(Clone, Copy, Debug, PartialEq, Eq, Structural)]
pub struct Pos {
    pub start: usize,
    pub end: usize,
}

impl Pos {
    pub fn new(start: usize, end: usize) -> (p: Pos)
        ensures
            p == (Pos { start, end }),
    {
        Pos { start, end }
    }
}

/// A syntax item together with the source position it was written at.
#[derive(Clone, Copy, Debug, PartialEq, Eq)]
pub struct WithPos<T> {
    pub item: T,
    pub pos: Pos,
}

impl<T> WithPos<T> {
    pub fn new(item: T, pos: Pos) -> (w: WithPos<T>)
        ensures
            w.item == item,
            w.pos == pos,
    {
        WithPos { item, pos }
    }
}

} // verus!
