//! The decisions of the two point finders: when to hand a checker a new
//! batch, when to collect one, and what is counted of the collected hits.
//! Handing batches over and computing orbits is the caller's work.

use vstd::prelude::*;
use crate::args::Args;
use crate::batch::Batch;
use crate::slate::{Slate, hits};

verus! {

/// What the random finder does next.
#[derive(Clone, Copy, PartialEq, Eq, Structural, Debug)]
pub enum RandomStep {
    /// Fill a fresh batch with random points and hand it to the checker.
    SendNew,
    /// Collect a checked batch, count its hits, refill it and hand it back.
    Recycle,
    /// Collect a checked batch and count its hits.
    Collect,
    /// All batches are collected; the render is complete.
    Finish,
}

/// Where the random finder stands.
#[derive(Clone, Copy, PartialEq, Eq, Structural, Debug)]
pub enum RandomPhase {
    /// Handing the checker its first batches; this many were sent.
    Loading(usize),
    /// Recycling batches for a fixed number of rounds; this many were done.
    Sampling(usize),
    /// Recycling batches until enough hits are found.
    Targeting,
    /// Collecting the last batches; this many were collected.
    Draining(usize),
    /// Done.
    Finished,
}

/// The random finder draws points in the square [-2, 2] x [-2, 2] and counts
/// the hits of their orbits, either for a fixed number of points or until a
/// number of hits is found.
pub struct RandomPointFinder {
    phase: RandomPhase,
    capacity: usize,
    rounds: usize,
    sampling: bool,
    point_target: usize,
    good_points: usize,
}

/// The phase that a finder in phase `phase` acts from: phases with nothing
/// left to do give way to the next one.
pub open spec fn settled(
    phase: RandomPhase,
    capacity: usize,
    rounds: usize,
    sampling: bool,
    point_target: usize,
    good_points: usize,
) -> RandomPhase {
    let p1 = match phase {
        RandomPhase::Loading(sent) => if sent >= capacity {
            if sampling { RandomPhase::Sampling(0) } else { RandomPhase::Targeting }
        } else {
            phase
        },
        _ => phase,
    };
    let p2 = match p1 {
        RandomPhase::Sampling(done) => if done >= rounds { RandomPhase::Draining(0) } else { p1 },
        RandomPhase::Targeting => if good_points >= point_target { RandomPhase::Draining(0) } else { p1 },
        _ => p1,
    };
    match p2 {
        RandomPhase::Draining(collected) => if collected >= capacity { RandomPhase::Finished } else { p2 },
        _ => p2,
    }
}

/// The step taken from a settled phase, and the phase after it.
pub open spec fn random_step(p: RandomPhase) -> (RandomStep, RandomPhase) {
    match p {
        RandomPhase::Loading(sent) => (RandomStep::SendNew, RandomPhase::Loading((sent + 1) as usize)),
        RandomPhase::Sampling(done) => (RandomStep::Recycle, RandomPhase::Sampling((done + 1) as usize)),
        RandomPhase::Targeting => (RandomStep::Recycle, RandomPhase::Targeting),
        RandomPhase::Draining(collected) => (RandomStep::Collect, RandomPhase::Draining((collected + 1) as usize)),
        RandomPhase::Finished => (RandomStep::Finish, RandomPhase::Finished),
    }
}

/// The step that `next_step` takes from the finder `f`, and the phase after it.
pub open spec fn step_from(f: RandomPointFinder) -> (RandomStep, RandomPhase) {
    random_step(settled(f.phase(), f.capacity(), f.rounds(), f.sampling(), f.target(), f.found()))
}

/// While loading, the finder hands the checker one fresh batch per step
/// until it holds `capacity()` batches.
pub proof fn lemma_loading_fills_the_checker(f: RandomPointFinder, sent: usize)
    requires
        f.wf(),
        f.phase() == RandomPhase::Loading(sent),
        sent < f.capacity(),
    ensures
        step_from(f) == (RandomStep::SendNew, RandomPhase::Loading((sent + 1) as usize)),
{
}

/// A fixed sample runs every one of its rounds: from round `done` of
/// `rounds()` the finder recycles a batch, whatever the hits found so far
/// and whatever target was given.
pub proof fn lemma_sampling_runs_every_round(f: RandomPointFinder, done: usize)
    requires
        f.wf(),
        f.phase() == RandomPhase::Sampling(done),
        done < f.rounds(),
    ensures
        step_from(f) == (RandomStep::Recycle, RandomPhase::Sampling((done + 1) as usize)),
{
}

/// After its last round a fixed sample collects what the checker holds.
pub proof fn lemma_sampling_ends_after_its_rounds(f: RandomPointFinder)
    requires
        f.wf(),
        f.phase() == RandomPhase::Sampling(f.rounds()),
    ensures
        step_from(f) == (RandomStep::Collect, RandomPhase::Draining(1)),
{
}

/// Seeking a target, the finder recycles batches exactly while fewer hits
/// than the target were found, and collects what the checker holds as soon
/// as the target is reached.
pub proof fn lemma_target_recycles_until_found(f: RandomPointFinder)
    requires
        f.wf(),
        f.phase() == RandomPhase::Targeting,
    ensures
        f.found() < f.target() ==> step_from(f) == (RandomStep::Recycle, RandomPhase::Targeting),
        f.found() >= f.target() ==> step_from(f) == (RandomStep::Collect, RandomPhase::Draining(1)),
{
}

impl RandomPointFinder {
    pub closed spec fn phase(&self) -> RandomPhase {
        self.phase
    }

    /// Batches the checker holds at once.
    pub closed spec fn capacity(&self) -> usize {
        self.capacity
    }

    /// Rounds of recycling when sampling a fixed number of points.
    pub closed spec fn rounds(&self) -> usize {
        self.rounds
    }

    /// Whether a fixed number of points is sampled (else hits are sought).
    pub closed spec fn sampling(&self) -> bool {
        self.sampling
    }

    /// Hits sought when not sampling.
    pub closed spec fn target(&self) -> usize {
        self.point_target
    }

    /// Hits counted so far.
    pub closed spec fn found(&self) -> usize {
        self.good_points
    }

    /// Batches handed to the checker and not collected back.
    pub open spec fn in_flight(&self) -> int {
        match self.phase() {
            RandomPhase::Loading(sent) => sent as int,
            RandomPhase::Sampling(_) => self.capacity() as int,
            RandomPhase::Targeting => self.capacity() as int,
            RandomPhase::Draining(collected) => self.capacity() - collected,
            RandomPhase::Finished => 0,
        }
    }

    /// The phases stay within their bounds.
    pub open spec fn wf(&self) -> bool {
        &&& self.capacity() >= 1
        &&& match self.phase() {
            RandomPhase::Loading(sent) => sent <= self.capacity(),
            RandomPhase::Sampling(done) => self.sampling() && done <= self.rounds(),
            RandomPhase::Targeting => !self.sampling(),
            RandomPhase::Draining(collected) => collected <= self.capacity(),
            RandomPhase::Finished => true,
        }
    }

    /// A finder for `args` feeding a checker that holds `capacity` batches
    /// at once.  With a sample size it runs `point_sample / batch_size + 1`
    /// rounds; else it runs until `point_target` hits are found.
    pub fn new(args: &Args, capacity: usize) -> (finder: RandomPointFinder)
        requires
            capacity >= 1,
            args.point_sample > 0 || args.point_target > 0,
            args.point_sample > 0 ==> args.batch_size > 0,
            args.point_sample > 0 ==> args.point_sample / args.batch_size + 1 <= usize::MAX,
        ensures
            finder.wf(),
            finder.phase() == RandomPhase::Loading(0),
            finder.capacity() == capacity,
            finder.sampling() == (args.point_sample > 0),
            finder.sampling() ==> finder.rounds() == args.point_sample / args.batch_size + 1,
            finder.target() == args.point_target,
            finder.found() == 0,
    {
        let sampling = args.point_sample > 0;
        let rounds = if sampling { args.point_sample / args.batch_size + 1 } else { 0 };
        RandomPointFinder {
            phase: RandomPhase::Loading(0),
            capacity,
            rounds,
            sampling,
            point_target: args.point_target,
            good_points: 0,
        }
    }

    /// Hits counted so far.
    pub fn good_points(&self) -> (r: usize)
        ensures
            r == self.found(),
    {
        self.good_points
    }

    /// Decides what to do next.  A batch is only collected while one is in
    /// flight, and the render finishes with none left in flight.
    pub fn next_step(&mut self) -> (step: RandomStep)
        requires
            old(self).wf(),
        ensures
            final(self).wf(),
            ({
                let p = settled(
                    old(self).phase(),
                    old(self).capacity(),
                    old(self).rounds(),
                    old(self).sampling(),
                    old(self).target(),
                    old(self).found(),
                );
                step == random_step(p).0 && final(self).phase() == random_step(p).1
            }),
            final(self).capacity() == old(self).capacity(),
            final(self).rounds() == old(self).rounds(),
            final(self).sampling() == old(self).sampling(),
            final(self).target() == old(self).target(),
            final(self).found() == old(self).found(),
            step == RandomStep::SendNew ==> final(self).in_flight() == old(self).in_flight() + 1,
            step == RandomStep::Recycle ==> old(self).in_flight() >= 1 && final(self).in_flight()
                == old(self).in_flight(),
            step == RandomStep::Collect ==> old(self).in_flight() >= 1 && final(self).in_flight()
                == old(self).in_flight() - 1,
            step == RandomStep::Finish ==> old(self).in_flight() == 0,
            0 <= final(self).in_flight() <= final(self).capacity(),
    {
        if let RandomPhase::Loading(sent) = self.phase {
            if sent >= self.capacity {
                self.phase = if self.sampling { RandomPhase::Sampling(0) } else { RandomPhase::Targeting };
            }
        }
        match self.phase {
            RandomPhase::Sampling(done) => {
                if done >= self.rounds {
                    self.phase = RandomPhase::Draining(0);
                }
            },
            RandomPhase::Targeting => {
                if self.good_points >= self.point_target {
                    self.phase = RandomPhase::Draining(0);
                }
            },
            _ => {},
        }
        if let RandomPhase::Draining(collected) = self.phase {
            if collected >= self.capacity {
                self.phase = RandomPhase::Finished;
            }
        }
        match self.phase {
            RandomPhase::Loading(sent) => {
                self.phase = RandomPhase::Loading(sent + 1);
                RandomStep::SendNew
            },
            RandomPhase::Sampling(done) => {
                self.phase = RandomPhase::Sampling(done + 1);
                RandomStep::Recycle
            },
            RandomPhase::Targeting => RandomStep::Recycle,
            RandomPhase::Draining(collected) => {
                self.phase = RandomPhase::Draining(collected + 1);
                RandomStep::Collect
            },
            RandomPhase::Finished => RandomStep::Finish,
        }
    }

    /// Counts the hits of a collected batch on the canvas, and adds their
    /// number to the hits found.
    pub fn handle_completed_batch(&mut self, slate: &mut Slate, batch: &Batch)
        requires
            old(slate).wf(),
            hits(old(slate).pixels(), old(slate).width(), batch.coords@) is Some,
            old(self).found() + batch.coords@.len() <= usize::MAX,
        ensures
            final(slate).wf(),
            final(slate).pixels() == hits(old(slate).pixels(), old(slate).width(), batch.coords@)->Some_0,
            final(slate).width() == old(slate).width(),
            final(slate).height() == old(slate).height(),
            final(self).found() == old(self).found() + batch.coords@.len(),
            final(self).phase() == old(self).phase(),
            final(self).capacity() == old(self).capacity(),
            final(self).rounds() == old(self).rounds(),
            final(self).sampling() == old(self).sampling(),
            final(self).target() == old(self).target(),
    {
        slate.absorb(batch.coords.as_slice());
        self.good_points = self.good_points + batch.coords.len();
    }
}

/// What the scan finder does next.
#[derive(Clone, Copy, PartialEq, Eq, Structural, Debug)]
pub enum ScanStep {
    /// Hand the checker a fresh batch whose points start at this pixel offset.
    SendNew(i32),
    /// Collect a checked batch, count its hits, and hand it back with points
    /// starting at this pixel offset.
    Recycle(i32),
    /// Every pixel was handed out: stop the checker and collect what it
    /// still holds.
    Drain,
}

/// Where the scan finder stands.
#[derive(Clone, Copy, PartialEq, Eq, Structural, Debug)]
pub enum ScanPhase {
    /// Handing the checker its first batches; this many were sent.
    Loading(usize),
    /// Recycling batches until every pixel is handed out.
    Scanning,
    /// Collecting what the checker still holds.
    Draining,
}

/// The pixel offset after handing out a batch of `batch_size` points from
/// `offset`, on a view of `total` pixels: the batch covers the pixels left,
/// up to its size.
pub open spec fn scan_advance(offset: i32, total: i32, batch_size: usize) -> i32 {
    if batch_size < total - offset {
        (offset + batch_size) as i32
    } else {
        total
    }
}

/// The scan finder starts one orbit per pixel of the view, row after row,
/// and counts the hits of their orbits.
pub struct ScanPointFinder {
    phase: ScanPhase,
    capacity: usize,
    batch_size: usize,
    total: i32,
    offset: i32,
}

impl ScanPointFinder {
    pub closed spec fn phase(&self) -> ScanPhase {
        self.phase
    }

    /// Batches the checker holds at once.
    pub closed spec fn capacity(&self) -> usize {
        self.capacity
    }

    /// Points per batch.
    pub closed spec fn batch_size(&self) -> usize {
        self.batch_size
    }

    /// Pixels in the view.
    pub closed spec fn total(&self) -> i32 {
        self.total
    }

    /// The first pixel not yet handed out.
    pub closed spec fn offset(&self) -> i32 {
        self.offset
    }

    pub open spec fn wf(&self) -> bool {
        &&& 0 <= self.offset() <= self.total()
        &&& self.capacity() >= 1
        &&& match self.phase() {
            ScanPhase::Loading(sent) => sent <= self.capacity(),
            ScanPhase::Scanning => true,
            ScanPhase::Draining => self.offset() == self.total(),
        }
    }

    /// A finder for the view of `args`, feeding a checker that holds
    /// `capacity` batches of `args.batch_size` points at once.
    pub fn new(args: &Args, capacity: usize) -> (finder: ScanPointFinder)
        requires
            capacity >= 1,
            0 <= args.view_width * args.view_height <= i32::MAX,
        ensures
            finder.wf(),
            finder.phase() == ScanPhase::Loading(0),
            finder.capacity() == capacity,
            finder.batch_size() == args.batch_size,
            finder.total() == args.view_width * args.view_height,
            finder.offset() == 0,
    {
        ScanPointFinder {
            phase: ScanPhase::Loading(0),
            capacity,
            batch_size: args.batch_size,
            total: args.view_width * args.view_height,
            offset: 0,
        }
    }

    /// Hands out the next batch of pixels: returns the offset of its first
    /// pixel and moves past the pixels it covers.
    fn send_new_batch(&mut self) -> (start: i32)
        requires
            0 <= old(self).offset() <= old(self).total(),
        ensures
            start == old(self).offset(),
            final(self).offset() == scan_advance(old(self).offset(), old(self).total(), old(self).batch_size()),
            0 <= final(self).offset() <= final(self).total(),
            final(self).phase() == old(self).phase(),
            final(self).capacity() == old(self).capacity(),
            final(self).batch_size() == old(self).batch_size(),
            final(self).total() == old(self).total(),
    {
        let left = (self.total - self.offset) as usize;
        let number_of_pixel = if self.batch_size < left { self.batch_size } else { left };
        let start = self.offset;
        self.offset = self.offset + number_of_pixel as i32;
        start
    }

    /// Decides what to do next.  Batches start where the previous one
    /// stopped, so every pixel is handed out once, in order; the checker is
    /// drained only once every pixel was handed out.
    pub fn next_step(&mut self) -> (step: ScanStep)
        requires
            old(self).wf(),
        ensures
            final(self).wf(),
            final(self).capacity() == old(self).capacity(),
            final(self).batch_size() == old(self).batch_size(),
            final(self).total() == old(self).total(),
            match step {
                ScanStep::SendNew(start) => {
                    &&& old(self).phase() matches ScanPhase::Loading(sent)
                    &&& sent < old(self).capacity()
                    &&& (sent == 0 || old(self).offset() < old(self).total())
                    &&& final(self).phase() == ScanPhase::Loading((sent + 1) as usize)
                    &&& start == old(self).offset()
                    &&& final(self).offset() == scan_advance(start, old(self).total(), old(self).batch_size())
                },
                ScanStep::Recycle(start) => {
                    &&& old(self).offset() < old(self).total()
                    &&& (old(self).phase() matches ScanPhase::Loading(sent) ==> sent >= 1)
                    &&& old(self).phase() != ScanPhase::Draining
                    &&& final(self).phase() == ScanPhase::Scanning
                    &&& start == old(self).offset()
                    &&& final(self).offset() == scan_advance(start, old(self).total(), old(self).batch_size())
                },
                ScanStep::Drain => {
                    &&& old(self).offset() == old(self).total()
                    &&& final(self).phase() == ScanPhase::Draining
                    &&& final(self).offset() == old(self).offset()
                },
            },
            old(self).phase() matches ScanPhase::Loading(sent) ==> (
                (sent < old(self).capacity() && (sent == 0 || old(self).offset() < old(self).total()))
                    <==> step is SendNew),
            old(self).phase() == ScanPhase::Scanning ==> (step is Recycle <==> old(self).offset()
                < old(self).total()),
            old(self).phase() == ScanPhase::Draining ==> step is Drain,
    {
        if let ScanPhase::Loading(sent) = self.phase {
            if sent < self.capacity && (sent == 0 || self.offset < self.total) {
                self.phase = ScanPhase::Loading(sent + 1);
                let start = self.send_new_batch();
                return ScanStep::SendNew(start);
            }
            self.phase = ScanPhase::Scanning;
        }
        if self.offset < self.total {
            self.phase = ScanPhase::Scanning;
            let start = self.send_new_batch();
            ScanStep::Recycle(start)
        } else {
            self.phase = ScanPhase::Draining;
            ScanStep::Drain
        }
    }

    /// Counts the hits of a collected batch on the canvas.
    pub fn handle_completed_batch(slate: &mut Slate, batch: &Batch)
        requires
            old(slate).wf(),
            hits(old(slate).pixels(), old(slate).width(), batch.coords@) is Some,
        ensures
            final(slate).wf(),
            final(slate).pixels() == hits(old(slate).pixels(), old(slate).width(), batch.coords@)->Some_0,
            final(slate).width() == old(slate).width(),
            final(slate).height() == old(slate).height(),
    {
        slate.absorb(batch.coords.as_slice());
    }
}

/// The column and row of the pixel at `offset` on a view `x_size` pixels
/// wide, by integer remainder and quotient, which round toward zero: on a
/// view of negative width the row counts down from 0.
pub fn scan_pixel(offset: i32, x_size: i32) -> (r: (i32, i32))
    requires
        0 <= offset,
        x_size != 0,
    ensures
        x_size > 0 ==> r.0 == offset % x_size && r.1 == offset / x_size,
        x_size < 0 ==> r.0 == (offset as int) % (-(x_size as int)) && r.1 == -((offset as int) / (-(x_size as int))),
{
    if x_size > 0 {
        (offset % x_size, offset / x_size)
    } else {
        // Rounding toward zero, on the width's magnitude.
        let w: i64 = -(x_size as i64);
        let column: i64 = (offset as i64) % w;
        let row: i64 = -((offset as i64) / w);
        (column as i32, row as i32)
    }
}

} // verus!
