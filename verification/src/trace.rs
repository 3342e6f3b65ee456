//! The orbit of one point under the iteration, and whether it is finished.

use vstd::prelude::*;

verus! {

/// Where an orbit stands.
#[derive(Clone, Copy, PartialEq, Eq, Structural, Debug)]
pub enum TraceStatus {
    /// The orbit is still inside the disk of radius 2 and may grow.
    NotDone,
    /// The orbit stayed inside the disk for as many steps as allowed.
    Inside,
    /// The orbit left the disk of radius 2.
    Outside,
}

/// The status of an orbit of `len` steps allowed `max_length`, whose last
/// point `escaped` the disk of radius 2 or not.
pub open spec fn status_of(escaped: bool, len: nat, max_length: nat) -> TraceStatus {
    if escaped {
        TraceStatus::Outside
    } else if len >= max_length {
        TraceStatus::Inside
    } else {
        TraceStatus::NotDone
    }
}

/// An orbit: its starting point followed by at most `max_length` iterates.
/// The points are of any type; computing them is left to the caller.
pub struct Trace<P> {
    origin: P,
    max_length: usize,
    path: Vec<P>,
}

impl<P: Copy> Trace<P> {
    /// The starting point.
    pub closed spec fn start(&self) -> P {
        self.origin
    }

    /// The iterates computed so far.
    pub closed spec fn steps(&self) -> Seq<P> {
        self.path@
    }

    /// The number of iterates the orbit may hold.
    pub closed spec fn limit(&self) -> nat {
        self.max_length as nat
    }

    /// The orbit never holds more iterates than allowed.
    pub open spec fn wf(&self) -> bool {
        self.steps().len() <= self.limit()
    }

    /// The last point of the orbit: its last iterate, or its start.
    pub open spec fn last_point(&self) -> P {
        if self.steps().len() == 0 {
            self.start()
        } else {
            self.steps().last()
        }
    }

    /// An empty orbit from `origin` that may hold `max_length` iterates.
    pub fn new(max_length: usize, origin: P) -> (trace: Trace<P>)
        requires
            max_length * vstd::layout::size_of::<P>() <= isize::MAX,
        ensures
            trace.wf(),
            trace.start() == origin,
            trace.steps() == Seq::<P>::empty(),
            trace.limit() == max_length,
    {
        Trace { origin, max_length, path: Vec::with_capacity(max_length) }
    }

    /// `new`, when the room it reserves can be allocated: `None` where the
    /// size in bytes of `max_length` points overflows.
    pub fn checked_new(max_length: usize, origin: P) -> (trace: Option<Trace<P>>)
        ensures
            trace is Some <==> max_length * vstd::layout::size_of::<P>() <= isize::MAX,
            trace matches Some(t) ==> t.wf() && t.start() == origin && t.steps() == Seq::<P>::empty()
                && t.limit() == max_length,
    {
        let size = core::mem::size_of::<P>();
        match max_length.checked_mul(size) {
            None => {
                proof {
                    assert(max_length * size > isize::MAX) by (nonlinear_arith)
                        requires max_length * size > usize::MAX;
                }
                None
            },
            Some(bytes) => {
                if bytes <= isize::MAX as usize {
                    Some(Trace::new(max_length, origin))
                } else {
                    None
                }
            },
        }
    }

    /// The starting point.
    pub fn origin(&self) -> (r: &P)
        ensures
            *r == self.start(),
    {
        &self.origin
    }

    /// The starting point.
    pub fn origin_mut(&mut self) -> (r: &P)
        ensures
            *r == old(self).start(),
            *final(self) == *old(self),
    {
        &self.origin
    }

    /// The last point of the orbit.
    pub fn tail(&self) -> (r: &P)
        ensures
            *r == self.last_point(),
    {
        let n = self.path.len();
        if n == 0 {
            &self.origin
        } else {
            &self.path[n - 1]
        }
    }

    /// The number of iterates computed so far.
    pub fn len(&self) -> (r: usize)
        ensures
            r == self.steps().len(),
    {
        self.path.len()
    }

    /// Whether the orbit holds as many iterates as allowed.
    pub fn is_at_max_length(&self) -> (r: bool)
        ensures
            r == (self.steps().len() >= self.limit()),
    {
        self.path.len() >= self.max_length
    }

    /// Where the orbit stands, given whether its last point lies outside the
    /// disk of radius 2.
    pub fn status(&self, tail_is_outside: bool) -> (r: TraceStatus)
        ensures
            r == status_of(tail_is_outside, self.steps().len(), self.limit()),
    {
        if tail_is_outside {
            TraceStatus::Outside
        } else {
            if self.is_at_max_length() {
                TraceStatus::Inside
            } else {
                TraceStatus::NotDone
            }
        }
    }

    /// Starts the orbit over from `new_origin`.
    pub fn reset(&mut self, new_origin: P)
        ensures
            final(self).wf(),
            final(self).start() == new_origin,
            final(self).steps() == Seq::<P>::empty(),
            final(self).limit() == old(self).limit(),
    {
        self.origin = new_origin;
        self.path.clear();
    }

    /// Appends the next iterate; the orbit must have room for it.
    pub fn extend(&mut self, point: P)
        requires
            old(self).steps().len() < old(self).limit(),
        ensures
            final(self).wf(),
            final(self).start() == old(self).start(),
            final(self).steps() == old(self).steps().push(point),
            final(self).limit() == old(self).limit(),
    {
        self.path.push(point);
    }

    /// Appends `blank` as the next iterate and gives it back to be filled in;
    /// the orbit must have room for it.
    pub fn get_next_point(&mut self, blank: P) -> (r: &mut P)
        requires
            old(self).steps().len() < old(self).limit(),
        ensures
            *r == blank,
            final(self).wf(),
            final(self).start() == old(self).start(),
            final(self).steps() == old(self).steps().push(*final(r)),
            final(self).limit() == old(self).limit(),
    {
        self.path.push(blank);
        let n = self.path.len();
        &mut self.path[n - 1]
    }

    /// The points of the orbit in order: the start, then the iterates.
    pub fn iter(&self) -> (r: Vec<P>)
        ensures
            r@ == seq![self.start()] + self.steps(),
    {
        let mut r: Vec<P> = Vec::with_capacity(1);
        r.push(self.origin);
        let mut i: usize = 0;
        while i < self.path.len()
            invariant
                i <= self.path.len(),
                r@ == seq![self.origin] + self.path@.take(i as int),
            decreases self.path.len() - i,
        {
            r.push(self.path[i]);
            i += 1;
            assert(self.path@.take(i as int) =~= self.path@.take(i - 1).push(self.path@[i - 1]));
        }
        assert(self.path@.take(self.path.len() as int) =~= self.path@);
        r
    }

    /// The points of the orbit in order: the start, then the iterates.
    pub fn iter_mut(&mut self) -> (r: Vec<P>)
        ensures
            r@ == seq![old(self).start()] + old(self).steps(),
            *final(self) == *old(self),
    {
        self.iter()
    }
}

} // verus!
