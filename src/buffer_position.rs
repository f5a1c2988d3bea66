use vstd::prelude::*;

verus! {

/// A position in a text: zero-based line index and byte column within that line.
#[derive(Debug, Clone, Copy, PartialEq, Eq, Structural, Default)]
pub struct BufferPosition {
    pub line_index: u32,
    pub column_byte_index: u32,
}

impl BufferPosition {
    pub fn zero() -> (r: BufferPosition)
        ensures
            r.line_index == 0 && r.column_byte_index == 0,
    {
        BufferPosition { line_index: 0, column_byte_index: 0 }
    }

    pub fn line_col(line_index: u32, column_byte_index: u32) -> (r: BufferPosition)
        ensures
            r.line_index == line_index && r.column_byte_index == column_byte_index,
    {
        BufferPosition { line_index, column_byte_index }
    }
}

} // verus!

verus! {

/// Positions ordered by line, then column.
pub open spec fn position_le(a: BufferPosition, b: BufferPosition) -> bool {
    a.line_index < b.line_index || (a.line_index == b.line_index && a.column_byte_index
        <= b.column_byte_index)
}

impl BufferPosition {
    pub fn le(&self, other: &BufferPosition) -> (r: bool)
        ensures
            r == position_le(*self, *other),
    {
        self.line_index < other.line_index || (self.line_index == other.line_index
            && self.column_byte_index <= other.column_byte_index)
    }
}

/// The positions from `from` to `to`, both included.
#[derive(Debug, Clone, Copy, PartialEq, Eq, Structural)]
pub struct BufferRange {
    pub from: BufferPosition,
    pub to: BufferPosition,
}

impl BufferRange {
    /// The range between two positions, whichever comes first.
    pub fn between(a: BufferPosition, b: BufferPosition) -> (r: BufferRange)
        ensures
            position_le(a, b) ==> r.from == a && r.to == b,
            !position_le(a, b) ==> r.from == b && r.to == a,
    {
        if a.le(&b) {
            BufferRange { from: a, to: b }
        } else {
            BufferRange { from: b, to: a }
        }
    }

    pub fn contains(&self, position: BufferPosition) -> (r: bool)
        ensures
            r == (position_le(self.from, position) && position_le(position, self.to)),
    {
        self.from.le(&position) && position.le(&self.to)
    }
}

} // verus!
