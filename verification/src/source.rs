//! Positions in source text.

use vstd::prelude::*;

verus! {

/// A span of source text: the file it lies in, the offset of its first
/// byte and its length in bytes.
#[derive(Clone, Copy, Debug, PartialEq, Eq, Structural)]
pub struct SrcPos {
    pub source: usize,
    pub start: usize,
    pub length: usize,
}

impl SrcPos {
    pub fn new(source: usize, start: usize, length: usize) -> (pos: SrcPos)
        ensures
            pos == (SrcPos { source, start, length }),
    {
        SrcPos { source, start, length }
    }
}

/// A value together with the place in the source where it was written.
#[derive(Debug)]
pub struct WithPos<T> {
    pub item: T,
    pub pos: SrcPos,
}

impl<T> WithPos<T> {
    pub fn new(item: T, pos: SrcPos) -> (res: WithPos<T>)
        ensures
            res.item == item,
            res.pos == pos,
    {
        WithPos { item, pos }
    }
}

} // verus!
