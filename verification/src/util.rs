//! A selection index that wraps around at both ends.

use vstd::prelude::*;

verus! {

/// A cursor over `total_len` items that cycles in both directions.
#[derive(Clone, Copy, Debug)]
pub struct BiCycle {
    pub total_len: usize,
    pub current_item: usize,
}

/// The index that follows `current` among `len` items, wrapping from the last
/// item to the first. Any index at or past the last item wraps to `0`.
pub open spec fn next_index(len: int, current: int) -> int {
    if current >= len - 1 {
        0
    } else {
        current + 1
    }
}

/// The index that precedes `current` among `len` items, wrapping from the
/// first item to the last.
pub open spec fn prev_index(len: int, current: int) -> int {
    if current == 0 {
        len - 1
    } else {
        current - 1
    }
}

/// The index reached from `current` by `steps` forward moves.
pub open spec fn next_index_n(len: int, current: int, steps: nat) -> int
    decreases steps,
{
    if steps == 0 {
        current
    } else {
        next_index(len, next_index_n(len, current, (steps - 1) as nat))
    }
}

impl BiCycle {
    /// True when the selection points at one of the items, or at `0` when
    /// there are none.
    pub open spec fn wf(&self) -> bool {
        self.current_item < self.total_len || (self.total_len == 0 && self.current_item == 0)
    }

    /// The cursor after one step forward; unchanged when there are no items.
    pub open spec fn forward(self) -> BiCycle {
        if self.total_len == 0 {
            self
        } else {
            BiCycle {
                total_len: self.total_len,
                current_item: next_index(self.total_len as int, self.current_item as int) as usize,
            }
        }
    }

    /// The cursor after one step back; unchanged when there are no items.
    pub open spec fn backward(self) -> BiCycle {
        if self.total_len == 0 {
            self
        } else {
            BiCycle {
                total_len: self.total_len,
                current_item: prev_index(self.total_len as int, self.current_item as int) as usize,
            }
        }
    }

    /// A cursor over `total_len` items, on the first of them.
    pub fn new(total_len: usize) -> (cycle: Self)
        ensures
            cycle.total_len == total_len,
            cycle.current_item == 0,
            cycle.wf(),
    {
        BiCycle { total_len, current_item: 0 }
    }

    /// Moves the selection forward by one item. With no items there is no
    /// selection: nothing changes and the result is `None`.
    pub fn next(&mut self) -> (selected: Option<usize>)
        ensures
            *final(self) == old(self).forward(),
            selected == (if old(self).total_len == 0 {
                None
            } else {
                Some(next_index(old(self).total_len as int, old(self).current_item as int) as usize)
            }),
            final(self).total_len > 0 ==> final(self).wf(),
            old(self).wf() ==> final(self).wf(),
    {
        if self.total_len == 0 {
            return None;
        }
        self.current_item = if self.current_item >= self.total_len - 1 {
            0
        } else {
            self.current_item + 1
        };
        Some(self.current_item)
    }

    /// Moves the selection back by one item. With no items there is no
    /// selection: nothing changes and the result is `None`.
    pub fn prev(&mut self) -> (selected: Option<usize>)
        ensures
            *final(self) == old(self).backward(),
            selected == (if old(self).total_len == 0 {
                None
            } else {
                Some(prev_index(old(self).total_len as int, old(self).current_item as int) as usize)
            }),
            old(self).wf() ==> final(self).wf(),
    {
        if self.total_len == 0 {
            return None;
        }
        self.current_item = if self.current_item == 0 {
            self.total_len - 1
        } else {
            self.current_item - 1
        };
        Some(self.current_item)
    }
}

impl Default for BiCycle {
    fn default() -> (cycle: Self)
        ensures
            cycle.total_len == 0,
            cycle.current_item == 0,
    {
        BiCycle { total_len: 0, current_item: 0 }
    }
}

/// Stepping forward `steps` times from the first item reaches item `steps`,
/// as long as that stays inside the list.
pub proof fn lemma_next_counts_up(len: int, steps: nat)
    requires
        steps < len,
    ensures
        next_index_n(len, 0, steps) == steps,
    decreases steps,
{
    if steps > 0 {
        lemma_next_counts_up(len, (steps - 1) as nat);
    }
}

/// Selection wrap: over a list of `len >= 1` items, `len` forward steps from
/// the first item lead back to it, and one backward step from the first item
/// leads to the last.
pub proof fn lemma_selection_wraps(len: nat)
    requires
        len >= 1,
    ensures
        next_index_n(len as int, 0, len) == 0,
        prev_index(len as int, 0) == len - 1,
{
    lemma_next_counts_up(len as int, (len - 1) as nat);
}

/// A step forward and a step back undo each other, wherever the selection
/// points at an item.
pub proof fn lemma_steps_undo(cycle: BiCycle)
    requires
        cycle.wf(),
    ensures
        cycle.forward().backward() == cycle,
        cycle.backward().forward() == cycle,
{
}

} // verus!
