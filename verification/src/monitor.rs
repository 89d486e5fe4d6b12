//! The bookkeeping of the system monitor: which frames refresh the figures,
//! the bounded history of readings, and the layout of the per-core grid.
//!
//! The readings themselves are floats; the history holds values of any type
//! and never looks at them.

use vstd::prelude::*;

verus! {

/// The figures are refreshed every this many frames.
pub const REFRESHING_TIME: u128 = 6;

/// The history keeps this many readings.
pub const HISTORY_LENGTH: usize = 100;

/// The per-core grid has this many columns.
pub const N_COLUMNS_FOR_CORE_USAGE: usize = 4;

/// Counts frames and says which of them refresh the figures.
pub struct RefreshClock {
    frame_counter: u128,
}

impl View for RefreshClock {
    type V = nat;

    closed spec fn view(&self) -> nat {
        self.frame_counter as nat
    }
}

impl RefreshClock {
    /// No frame drawn yet.
    pub fn new() -> (c: RefreshClock)
        ensures
            c@ == 0,
    {
        RefreshClock { frame_counter: 0 }
    }

    /// How many frames were counted.
    pub fn frames(&self) -> (r: u128)
        ensures
            r == self@,
    {
        self.frame_counter
    }

    /// Counts one more frame; says whether this frame refreshes the figures:
    /// every `REFRESHING_TIME`-th frame does.
    pub fn tick(&mut self) -> (refresh: bool)
        requires
            old(self)@ < u128::MAX,
        ensures
            final(self)@ == old(self)@ + 1,
            refresh == (final(self)@ % (REFRESHING_TIME as nat) == 0),
    {
        self.frame_counter = self.frame_counter + 1;
        self.frame_counter % REFRESHING_TIME == 0
    }
}

/// A history of at most `capacity` readings, oldest first.
pub struct History<T> {
    items: Vec<T>,
    capacity: usize,
}

/// The history after a push: the new value at the end, and the oldest value
/// dropped when there are more than `capacity`.
pub open spec fn push_spec<T>(items: Seq<T>, capacity: nat, value: T) -> Seq<T> {
    let grown = items.push(value);
    if grown.len() > capacity {
        grown.drop_first()
    } else {
        grown
    }
}

/// The history after pushing `values` in order.
pub open spec fn push_all<T>(items: Seq<T>, capacity: nat, values: Seq<T>) -> Seq<T>
    decreases values.len(),
{
    if values.len() == 0 {
        items
    } else {
        push_spec(push_all(items, capacity, values.drop_last()), capacity, values.last())
    }
}

impl<T> History<T> {
    pub closed spec fn items(&self) -> Seq<T> {
        self.items@
    }

    pub closed spec fn capacity(&self) -> nat {
        self.capacity as nat
    }

    /// Holds no more than its capacity, which is positive.
    pub closed spec fn well_formed(&self) -> bool {
        &&& 0 < self.capacity
        &&& self.items@.len() <= self.capacity
    }

    /// A full history: `capacity` copies of `value`.
    pub fn filled(value: T, capacity: usize) -> (h: History<T>)
        where
            T: Copy,
        requires
            capacity > 0,
        ensures
            h.well_formed(),
            h.capacity() == capacity,
            h.items() == Seq::new(capacity as nat, |i: int| value),
    {
        let mut items: Vec<T> = Vec::new();
        let mut i: usize = 0;
        while i < capacity
            invariant
                0 <= i <= capacity,
                items@ == Seq::new(i as nat, |j: int| value),
            decreases capacity - i,
        {
            items.push(value);
            i = i + 1;
            proof {
                assert(items@ =~= Seq::new(i as nat, |j: int| value));
            }
        }
        History { items, capacity }
    }

    /// The readings, oldest first.
    pub fn as_slice(&self) -> (r: &[T])
        ensures
            r@ == self.items(),
    {
        self.items.as_slice()
    }

    /// Appends a reading, dropping the oldest when the history is full.
    pub fn push(&mut self, value: T)
        requires
            old(self).well_formed(),
        ensures
            final(self).well_formed(),
            final(self).capacity() == old(self).capacity(),
            final(self).items() == push_spec(old(self).items(), old(self).capacity(), value),
    {
        self.items.push(value);
        if self.items.len() > self.capacity {
            self.items.remove(0);
            proof {
                assert(self.items@ =~= push_spec(old(self).items(), old(self).capacity(), value));
            }
        }
    }
}

/// After any pushes, a history holds the most recent readings: the last
/// `capacity` of what it held followed by what was pushed (all of them when
/// there are fewer).
pub proof fn law_history_keeps_latest<T>(items: Seq<T>, capacity: nat, values: Seq<T>)
    requires
        0 < capacity,
        items.len() <= capacity,
    ensures
        ({
            let all = items + values;
            let keep = if all.len() > capacity {
                capacity
            } else {
                all.len()
            };
            push_all(items, capacity, values) == all.subrange(all.len() - keep, all.len() as int)
        }),
    decreases values.len(),
{
    let all = items + values;
    if values.len() == 0 {
        assert(all == items);
        assert(all.subrange(0, all.len() as int) == all);
    } else {
        let before = values.drop_last();
        law_history_keeps_latest(items, capacity, before);
        let all0 = items + before;
        assert(all0 == all.drop_last());
        let keep0 = if all0.len() > capacity {
            capacity
        } else {
            all0.len()
        };
        let h0 = all0.subrange(all0.len() - keep0, all0.len() as int);
        assert(push_all(items, capacity, before) == h0);
        if h0.push(values.last()).len() > capacity {
            assert(push_spec(h0, capacity, values.last()) =~= all.subrange(
                all.len() - capacity,
                all.len() as int,
            ));
        } else {
            assert(push_spec(h0, capacity, values.last()) =~= all.subrange(0, all.len() as int));
        }
    }
}

/// Whether the cell for core `index` (counted from 0) ends a row of the grid.
pub fn ends_grid_row(index: usize) -> (r: bool)
    requires
        index < usize::MAX,
    ensures
        r == ((index + 1) % (N_COLUMNS_FOR_CORE_USAGE as int) == 0),
{
    (index + 1) % N_COLUMNS_FOR_CORE_USAGE == 0
}

} // verus!
