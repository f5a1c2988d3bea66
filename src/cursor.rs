use vstd::prelude::*;

use crate::buffer_position::{position_le, BufferPosition, BufferRange};

verus! {

#[derive(Debug, Clone, Copy, PartialEq, Eq, Structural, Default)]
pub struct Cursor {
    pub anchor: BufferPosition,
    pub position: BufferPosition,
}

pub open spec fn cursor_from(c: Cursor) -> BufferPosition {
    if position_le(c.anchor, c.position) {
        c.anchor
    } else {
        c.position
    }
}

impl Cursor {
    pub fn range(&self) -> (r: BufferRange)
        ensures
            r.from == cursor_from(*self),
            r.to == cursor_to(*self),
            position_le(r.from, r.to),
    {
        BufferRange::between(self.anchor, self.position)
    }
}

/// Cursors sorted by where their ranges start, merged where they overlap, and
/// one of them the main cursor.
pub struct CursorCollection {
    pub cursors: Vec<Cursor>,
    pub main_cursor_index: usize,
}

/// Where a cursor's range ends.
pub open spec fn cursor_to(c: Cursor) -> BufferPosition {
    if position_le(c.anchor, c.position) {
        c.position
    } else {
        c.anchor
    }
}

/// The range of `a` ends before the range of `b` starts.
pub open spec fn before_range(a: Cursor, b: Cursor) -> bool {
    !position_le(cursor_from(b), cursor_to(a))
}

/// No two ranges overlap; each ends before the next one starts.
pub open spec fn disjoint(cs: Seq<Cursor>) -> bool {
    forall|x: int, y: int| 0 <= x < y < cs.len() ==> #[trigger] before_range(cs[x], cs[y])
}

/// Sorted by the start of the ranges.
pub open spec fn sorted(cs: Seq<Cursor>) -> bool {
    forall|i: int, j: int| 0 <= i < j < cs.len() ==> position_le(cursor_from(cs[i]), cursor_from(cs[j]))
}

impl CursorCollection {
    pub open spec fn wf(&self) -> bool {
        &&& self.cursors@.len() >= 1
        &&& self.main_cursor_index < self.cursors@.len()
    }

    pub fn new() -> (r: CursorCollection)
        ensures
            r.wf(),
            r.cursors@.len() == 1,
            r.cursors@[0] == (Cursor {
                anchor: BufferPosition { line_index: 0, column_byte_index: 0 },
                position: BufferPosition { line_index: 0, column_byte_index: 0 },
            }),
    {
        let c = Cursor { anchor: BufferPosition::zero(), position: BufferPosition::zero() };
        let mut cursors = Vec::new();
        cursors.push(c);
        CursorCollection { cursors, main_cursor_index: 0 }
    }

    pub fn cursors(&self) -> (r: &[Cursor])
        ensures
            r@ == self.cursors@,
    {
        self.cursors.as_slice()
    }

    pub fn main_cursor(&self) -> (r: &Cursor)
        requires
            self.wf(),
        ensures
            *r == self.cursors@[self.main_cursor_index as int],
    {
        &self.cursors[self.main_cursor_index]
    }

    /// Adds a cursor, which becomes the main one, then sorts and merges.
    pub fn add_cursor(&mut self, cursor: Cursor)
        requires
            old(self).wf(),
        ensures
            final(self).wf(),
            sorted(final(self).cursors@),
            disjoint(final(self).cursors@),
            final(self).cursors@.len() <= old(self).cursors@.len() + 1,
    {
        self.main_cursor_index = self.cursors.len();
        self.cursors.push(cursor);
        self.sort_and_merge();
    }

    /// Every anchor moves to its cursor's position.
    pub fn collapse_anchors(&mut self)
        requires
            old(self).wf(),
        ensures
            final(self).wf(),
            final(self).cursors@.len() == old(self).cursors@.len(),
            final(self).main_cursor_index == old(self).main_cursor_index,
            forall|i: int|
                0 <= i < final(self).cursors@.len() ==> final(self).cursors@[i] == (Cursor {
                    anchor: old(self).cursors@[i].position,
                    position: old(self).cursors@[i].position,
                }),
    {
        let mut i: usize = 0;
        while i < self.cursors.len()
            invariant
                i <= self.cursors@.len() == old(self).cursors@.len(),
                self.main_cursor_index == old(self).main_cursor_index,
                forall|j: int|
                    0 <= j < i ==> self.cursors@[j] == (Cursor {
                        anchor: old(self).cursors@[j].position,
                        position: old(self).cursors@[j].position,
                    }),
                forall|j: int| i <= j < self.cursors@.len() ==> self.cursors@[j] == old(self).cursors@[j],
            decreases self.cursors@.len() - i,
        {
            let c = self.cursors[i];
            self.cursors.set(i, Cursor { anchor: c.position, position: c.position });
            i += 1;
        }
    }

    /// Every cursor's anchor and position trade places.
    pub fn swap_positions_and_anchors(&mut self)
        requires
            old(self).wf(),
        ensures
            final(self).wf(),
            final(self).cursors@.len() == old(self).cursors@.len(),
            final(self).main_cursor_index == old(self).main_cursor_index,
            forall|i: int|
                0 <= i < final(self).cursors@.len() ==> final(self).cursors@[i] == (Cursor {
                    anchor: old(self).cursors@[i].position,
                    position: old(self).cursors@[i].anchor,
                }),
    {
        let mut i: usize = 0;
        while i < self.cursors.len()
            invariant
                i <= self.cursors@.len() == old(self).cursors@.len(),
                self.main_cursor_index == old(self).main_cursor_index,
                forall|j: int|
                    0 <= j < i ==> self.cursors@[j] == (Cursor {
                        anchor: old(self).cursors@[j].position,
                        position: old(self).cursors@[j].anchor,
                    }),
                forall|j: int| i <= j < self.cursors@.len() ==> self.cursors@[j] == old(self).cursors@[j],
            decreases self.cursors@.len() - i,
        {
            let c = self.cursors[i];
            self.cursors.set(i, Cursor { anchor: c.position, position: c.anchor });
            i += 1;
        }
    }

    /// Replaces the cursors with `cursors` (the main one keeps its index when
    /// it can), then sorts and merges.
    pub fn change_all(&mut self, cursors: Vec<Cursor>)
        requires
            old(self).wf(),
        ensures
            final(self).wf(),
            sorted(final(self).cursors@),
            disjoint(final(self).cursors@),
    {
        if cursors.len() == 0 {
            return self.sort_and_merge();
        }
        self.cursors = cursors;
        if self.main_cursor_index >= self.cursors.len() {
            self.main_cursor_index = 0;
        }
        self.sort_and_merge();
    }

    fn sort_and_merge(&mut self)
        requires
            old(self).wf(),
        ensures
            final(self).wf(),
            sorted(final(self).cursors@),
            disjoint(final(self).cursors@),
            final(self).cursors@.len() <= old(self).cursors@.len(),
    {
        let main_position = self.cursors[self.main_cursor_index].position;
        self.sort();
        let mut main_index: usize = 0;
        let mut k: usize = 0;
        while k < self.cursors.len()
            invariant
                k <= self.cursors@.len(),
                main_index < self.cursors@.len(),
                self.cursors@.len() >= 1,
            decreases self.cursors@.len() - k,
        {
            if self.cursors[k].position == main_position {
                main_index = k;
                break ;
            }
            k += 1;
        }
        self.main_cursor_index = main_index;
        let mut i: usize = 0;
        while i < self.cursors.len()
            invariant
                self.wf(),
                sorted(self.cursors@),
                i <= self.cursors@.len() <= old(self).cursors@.len(),
                forall|x: int, y: int|
                    0 <= x < i && x < y < self.cursors@.len() ==> #[trigger] before_range(self.cursors@[x], self.cursors@[y]),
            decreases self.cursors@.len() - i,
        {
            let c = self.cursors[i];
            let mut range = c.range();
            let ghost len0 = self.cursors@.len();
            loop
                invariant
                    self.wf(),
                    sorted(self.cursors@),
                    i < self.cursors@.len() <= len0 <= old(self).cursors@.len(),
                    self.cursors@[i as int] == c,
                    range.from == cursor_from(c),
                    position_le(range.from, range.to),
                    position_le(cursor_to(c), range.to),
                    forall|x: int, y: int|
                        0 <= x < i && x < y < self.cursors@.len() ==> #[trigger] before_range(self.cursors@[x], self.cursors@[y]),
                ensures
                    self.wf(),
                    sorted(self.cursors@),
                    i < self.cursors@.len() <= old(self).cursors@.len(),
                    self.cursors@[i as int] == c,
                    range.from == cursor_from(c),
                    position_le(range.from, range.to),
                    position_le(cursor_to(c), range.to),
                    forall|x: int, y: int|
                        0 <= x < i && x < y < self.cursors@.len() ==> #[trigger] before_range(self.cursors@[x], self.cursors@[y]),
                    i + 1 < self.cursors@.len() ==> !position_le(cursor_from(self.cursors@[i + 1]), range.to),
                decreases self.cursors@.len(),
            {
                if self.cursors.len() - i <= 1 {
                    break;
                }
                let next_from = self.cursors[i + 1].range().from;
                if !range.contains(next_from) {
                    break;
                }
                let j = i + 1;
                let other = self.cursors[j].range();
                if !other.to.le(&range.to) {
                    range.to = other.to;
                }
                let ghost before = self.cursors@;
                self.cursors.remove(j);
                assert forall|a: int, b: int| 0 <= a < b < self.cursors@.len() implies position_le(
                    cursor_from(self.cursors@[a]),
                    cursor_from(self.cursors@[b]),
                ) by {
                    let a0 = if a < j { a } else { a + 1 };
                    let b0 = if b < j { b } else { b + 1 };
                    assert(self.cursors@[a] == before[a0]);
                    assert(self.cursors@[b] == before[b0]);
                }
                assert forall|x: int, y: int|
                    0 <= x < i && x < y < self.cursors@.len() implies #[trigger] before_range(self.cursors@[x], self.cursors@[y]) by {
                    let y0 = if y < j { y } else { y + 1 };
                    assert(self.cursors@[x] == before[x]);
                    assert(self.cursors@[y] == before[y0]);
                }
                if j <= self.main_cursor_index && self.main_cursor_index > 0 {
                    self.main_cursor_index -= 1;
                }
            }
            let merged = if c.anchor.le(&c.position) {
                Cursor { anchor: range.from, position: range.to }
            } else {
                Cursor { anchor: range.to, position: range.from }
            };
            let ghost before = self.cursors@;
            self.cursors.set(i, merged);
            assert(cursor_from(merged) == cursor_from(c));
            assert(cursor_to(merged) == range.to);
            assert forall|a: int, b: int| 0 <= a < b < self.cursors@.len() implies position_le(
                cursor_from(self.cursors@[a]),
                cursor_from(self.cursors@[b]),
            ) by {
                assert(a != i ==> self.cursors@[a] == before[a]);
                assert(b != i ==> self.cursors@[b] == before[b]);
            }
            assert forall|x: int, y: int|
                0 <= x < i + 1 && x < y < self.cursors@.len() implies #[trigger] before_range(self.cursors@[x], self.cursors@[y]) by {
                assert(y != i ==> self.cursors@[y] == before[y]);
                if x < i {
                    assert(self.cursors@[x] == before[x]);
                    assert(before_range(before[x], before[y]));
                    if y == i {
                        assert(before[i as int] == c);
                        assert(cursor_from(self.cursors@[y]) == cursor_from(c));
                    }
                } else {
                    assert(x == i);
                    assert(self.cursors@[x] == merged);
                    assert(position_le(cursor_from(before[i + 1]), cursor_from(before[y])));
                    assert(!position_le(cursor_from(before[i + 1]), range.to));
                    assert(!position_le(cursor_from(before[y]), range.to));
                }
            }
            i += 1;
        }
    }

    /// Stable insertion sort by the start of the ranges.
    fn sort(&mut self)
        requires
            old(self).wf(),
        ensures
            final(self).wf(),
            final(self).cursors@.len() == old(self).cursors@.len(),
            sorted(final(self).cursors@),
    {
        let n = self.cursors.len();
        let mut i: usize = 1;
        while i < n
            invariant
                1 <= i <= n,
                n == self.cursors@.len(),
                self.wf(),
                forall|a: int, b: int|
                    0 <= a < b < i ==> position_le(
                        cursor_from(self.cursors@[a]),
                        cursor_from(self.cursors@[b]),
                    ),
            decreases n - i,
        {
            let mut j = i;
            loop
                invariant
                    0 <= j <= i < n,
                    n == self.cursors@.len(),
                    self.wf(),
                    forall|a: int, b: int|
                        0 <= a < b <= i && a != j && b != j ==> position_le(
                            cursor_from(self.cursors@[a]),
                            cursor_from(self.cursors@[b]),
                        ),
                    forall|k: int|
                        j < k <= i ==> position_le(
                            cursor_from(self.cursors@[j as int]),
                            cursor_from(self.cursors@[k]),
                        ),
                ensures
                    0 <= j <= i < n,
                    n == self.cursors@.len(),
                    self.wf(),
                    forall|a: int, b: int|
                        0 <= a < b <= i ==> position_le(
                            cursor_from(self.cursors@[a]),
                            cursor_from(self.cursors@[b]),
                        ),
                decreases j,
            {
                if j == 0 {
                    break ;
                }
                let a = self.cursors[j - 1];
                let b = self.cursors[j];
                if a.range().from.le(&b.range().from) {
                    assert forall|x: int, y: int| 0 <= x < y <= i implies position_le(
                        cursor_from(self.cursors@[x]),
                        cursor_from(self.cursors@[y]),
                    ) by {
                        if y == j && x < j - 1 {
                            assert(position_le(cursor_from(self.cursors@[x]), cursor_from(self.cursors@[j - 1])));
                        }
                    }
                    break ;
                }
                self.cursors.set(j - 1, b);
                self.cursors.set(j, a);
                j -= 1;
            }
            i += 1;
        }
    }
}

} // verus!
