//! A batch of points handed to a checker, and the hits it found for them.

use vstd::prelude::*;

verus! {

/// A pixel hit: its column, its row and the value to record there.
pub type Hit = (u32, u32, u16);

/// A batch of `size` points whose traces hold at most `trace_length`
/// iterates, with the hits found for them.
pub struct Batch {
    pub trace_length: usize,
    pub size: usize,
    pub coords: Vec<Hit>,
}

impl Batch {
    /// An empty batch of `capacity` points, with room reserved for half of
    /// them to leave hits along whole traces.
    pub fn new(trace_length: usize, capacity: usize) -> (batch: Batch)
        requires
            (capacity / 2) * trace_length <= usize::MAX,
            (capacity / 2) * trace_length * vstd::layout::size_of::<Hit>() <= isize::MAX,
        ensures
            batch.trace_length == trace_length,
            batch.size == capacity,
            batch.coords@ == Seq::<Hit>::empty(),
    {
        Batch { trace_length, size: capacity, coords: Vec::with_capacity(capacity / 2 * trace_length) }
    }

    /// `new`, when the room it reserves can be allocated: `None` where the
    /// number of hits reserved, or their size in bytes, overflows.
    pub fn checked_new(trace_length: usize, capacity: usize) -> (batch: Option<Batch>)
        ensures
            batch is Some <==> ((capacity / 2) * trace_length <= usize::MAX
                && (capacity / 2) * trace_length * vstd::layout::size_of::<Hit>() <= isize::MAX),
            batch matches Some(b) ==> b.trace_length == trace_length && b.size == capacity
                && b.coords@ == Seq::<Hit>::empty(),
    {
        let half = capacity / 2;
        match half.checked_mul(trace_length) {
            None => None,
            Some(reserved) => {
                let size = core::mem::size_of::<Hit>();
                match reserved.checked_mul(size) {
                    None => {
                        proof {
                            assert(reserved * size > isize::MAX) by (nonlinear_arith)
                                requires reserved * size > usize::MAX;
                        }
                        None
                    },
                    Some(bytes) => {
                        if bytes <= isize::MAX as usize {
                            Some(Batch::new(trace_length, capacity))
                        } else {
                            None
                        }
                    },
                }
            },
        }
    }

    /// Forgets the hits, keeping the batch's sizes.
    pub fn reset(&mut self)
        ensures
            final(self).trace_length == old(self).trace_length,
            final(self).size == old(self).size,
            final(self).coords@ == Seq::<Hit>::empty(),
    {
        self.coords.clear();
    }
}

} // verus!
