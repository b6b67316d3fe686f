//! Source positions.

use vstd::prelude::*;

verus! {

/// A place in the source text.
///
/// Lines and columns count from one and saturate at the largest value of
/// their type; a column is a byte of its line. `offset` is the number of
/// bytes before the place.
#[derive(Clone, Copy, Debug, PartialEq, Eq, Structural)]
pub struct Position {
    pub line: u64,
    pub column: u64,
    pub offset: usize,
}

/// One more than `n`, or `n` itself when it is already the largest `u64`.
pub open spec fn bump(n: u64) -> u64 {
    if n < u64::MAX {
        (n + 1) as u64
    } else {
        n
    }
}

/// The position that follows `p` once the byte `b` has been read.
pub open spec fn step(p: Position, b: u8) -> Position {
    if b == 10 {
        Position { line: bump(p.line), column: 1, offset: (p.offset + 1) as usize }
    } else {
        Position { line: p.line, column: bump(p.column), offset: (p.offset + 1) as usize }
    }
}

/// The position of byte `offset` of `src`: line one, column one at the start,
/// a new line after every line feed.
pub open spec fn position_of(src: Seq<u8>, offset: int) -> Position
    decreases offset,
{
    if offset <= 0 || offset > src.len() {
        Position { line: 1, column: 1, offset: 0 }
    } else {
        step(position_of(src, offset - 1), src[offset - 1])
    }
}

impl Position {
    /// The start of any text.
    pub fn start() -> (p: Position)
        ensures
            p == (Position { line: 1, column: 1, offset: 0 }),
    {
        Position { line: 1, column: 1, offset: 0 }
    }

    /// Moves a position forward over `src` up to byte `to`.
    pub fn advance(self, src: &[u8], to: usize) -> (p: Position)
        requires
            self.offset <= to <= src@.len(),
            self == position_of(src@, self.offset as int),
        ensures
            p == position_of(src@, to as int),
            p.offset == to,
    {
        let mut p = self;
        while p.offset < to
            invariant
                p.offset <= to <= src@.len(),
                p == position_of(src@, p.offset as int),
            decreases to - p.offset,
        {
            let b = src[p.offset];
            let next: usize = p.offset + 1;
            if b == 10 {
                let line: u64 = if p.line < u64::MAX { p.line + 1 } else { p.line };
                p = Position { line, column: 1, offset: next };
            } else {
                let column: u64 = if p.column < u64::MAX { p.column + 1 } else { p.column };
                p = Position { line: p.line, column, offset: next };
            }
        }
        p
    }
}

} // verus!
