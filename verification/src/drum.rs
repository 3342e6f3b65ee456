//! Scheduling of the eight lanes in which the vectorized checker iterates
//! orbits side by side: which lanes hold a trace, when a lane's trace is
//! finished, and whether a finished lane is reloaded with a new trace.

use vstd::prelude::*;

verus! {

/// Number of lanes iterated side by side.
pub const LANES: usize = 8;

/// What becomes of a lane at the end of a round.
#[derive(Clone, Copy, PartialEq, Eq, Structural, Debug)]
pub enum LaneAction {
    /// The lane's trace is not finished; it goes on.
    Continue,
    /// The lane's trace is finished: render it and load a new trace.
    Reload,
    /// The lane's trace is finished: render it and leave the lane empty.
    Unload,
}

/// Number of finished lanes among the first `i`.
pub open spec fn finished_before(finished: Seq<bool>, i: int) -> nat
    decreases i,
{
    if i <= 0 {
        0
    } else {
        finished_before(finished, i - 1) + (if finished[i - 1] { 1nat } else { 0nat })
    }
}

/// The action for lane `i`: finished lanes are handed new traces in lane
/// order while fewer than `trace_length` traces have been started.
pub open spec fn lane_action(finished: Seq<bool>, started: nat, trace_length: nat, i: int) -> LaneAction {
    if !finished[i] {
        LaneAction::Continue
    } else if started + finished_before(finished, i) < trace_length {
        LaneAction::Reload
    } else {
        LaneAction::Unload
    }
}

/// Number of traces started once `started` had been and the lanes of
/// `finished` are handled.
pub open spec fn started_after(finished: Seq<bool>, started: nat, trace_length: nat) -> nat {
    if started >= trace_length {
        started
    } else if started + finished_before(finished, LANES as int) < trace_length {
        started + finished_before(finished, LANES as int)
    } else {
        trace_length
    }
}

/// Each round starts no fewer traces than before, and never more than the
/// limit, unless more than that were started already.
pub proof fn lemma_started_bounded(finished: Seq<bool>, started: nat, trace_length: nat)
    ensures
        started <= started_after(finished, started, trace_length),
        started_after(finished, started, trace_length) <= if started >= trace_length {
            started
        } else {
            trace_length
        },
{
}

/// Number of lanes among the first `i` that `lane_action` reloads.
pub open spec fn reloads_before(finished: Seq<bool>, started: nat, trace_length: nat, i: int) -> nat
    decreases i,
{
    if i <= 0 {
        0
    } else {
        reloads_before(finished, started, trace_length, i - 1) + (if lane_action(
            finished,
            started,
            trace_length,
            i - 1,
        ) == LaneAction::Reload {
            1nat
        } else {
            0nat
        })
    }
}

proof fn lemma_reloads_before(finished: Seq<bool>, started: nat, trace_length: nat, i: int)
    requires
        0 <= i <= LANES,
    ensures
        reloads_before(finished, started, trace_length, i) == if started >= trace_length {
            0
        } else if started + finished_before(finished, i) < trace_length {
            finished_before(finished, i)
        } else {
            (trace_length - started) as nat
        },
    decreases i,
{
    if i > 0 {
        lemma_reloads_before(finished, started, trace_length, i - 1);
    }
}

/// One round, lane after lane: a finished lane is reloaded exactly when the
/// traces started so far, counting the reloads of the lanes before it in
/// this round, are fewer than the limit, and emptied otherwise; a lane that
/// is not finished goes on.  The round adds one started trace per reload.
pub proof fn lemma_reloads_are_counted(finished: Seq<bool>, started: nat, trace_length: nat)
    requires
        finished.len() == LANES,
    ensures
        started_after(finished, started, trace_length) == started + reloads_before(
            finished,
            started,
            trace_length,
            LANES as int,
        ),
        forall|i: int|
            0 <= i < LANES ==> (#[trigger] lane_action(finished, started, trace_length, i) == LaneAction::Reload
                <==> finished[i] && started + reloads_before(finished, started, trace_length, i) < trace_length),
        forall|i: int|
            0 <= i < LANES ==> (#[trigger] lane_action(finished, started, trace_length, i) == LaneAction::Unload
                <==> finished[i] && started + reloads_before(finished, started, trace_length, i) >= trace_length),
        forall|i: int|
            0 <= i < LANES ==> (#[trigger] lane_action(finished, started, trace_length, i) == LaneAction::Continue
                <==> !finished[i]),
{
    lemma_reloads_before(finished, started, trace_length, LANES as int);
    assert forall|i: int| 0 <= i < LANES implies (#[trigger] lane_action(finished, started, trace_length, i)
        == LaneAction::Reload <==> finished[i] && started + reloads_before(finished, started, trace_length, i)
        < trace_length) by {
        lemma_reloads_before(finished, started, trace_length, i);
    }
    assert forall|i: int| 0 <= i < LANES implies (#[trigger] lane_action(finished, started, trace_length, i)
        == LaneAction::Unload <==> finished[i] && started + reloads_before(finished, started, trace_length, i)
        >= trace_length) by {
        lemma_reloads_before(finished, started, trace_length, i);
    }
}

/// The round counter of a lane after one more round: it wraps around as
/// vector lanes of 64 bits do.
pub open spec fn counted(count: u64) -> u64 {
    if count == u64::MAX { 0 } else { (count + 1) as u64 }
}

/// Lane bookkeeping of one batch in the vectorized checker.
pub struct Drum {
    loaded: [bool; 8],
    loop_count: [u64; 8],
    loop_max: u64,
    trace_initialized: usize,
    trace_length: usize,
}

impl Drum {
    /// Which lanes hold a trace.
    pub closed spec fn loaded_lanes(&self) -> Seq<bool> {
        self.loaded@
    }

    /// Rounds iterated by each lane since its trace was loaded.
    pub closed spec fn rounds(&self) -> Seq<u64> {
        self.loop_count@
    }

    /// The number of rounds after which a loaded lane is finished.
    pub closed spec fn round_limit(&self) -> u64 {
        self.loop_max
    }

    /// Traces counted as started.
    pub closed spec fn started(&self) -> nat {
        self.trace_initialized as nat
    }

    /// Traces that may be started in all.
    pub closed spec fn trace_limit(&self) -> nat {
        self.trace_length as nat
    }

    /// Bookkeeping for a batch of `batch_size` points whose traces stop after
    /// `range_stop` rounds, reloading while fewer than `trace_length` traces
    /// were started.  The first `min(8, batch_size)` lanes start loaded, and
    /// eight traces count as started whatever the batch size.
    pub fn new(range_stop: usize, batch_size: usize, trace_length: usize) -> (drum: Drum)
        ensures
            drum.loaded_lanes().len() == LANES,
            drum.rounds().len() == LANES,
            forall|i: int| 0 <= i < LANES ==> #[trigger] drum.loaded_lanes()[i] == (i < batch_size),
            forall|i: int| 0 <= i < LANES ==> #[trigger] drum.rounds()[i] == 0,
            drum.round_limit() == range_stop as u64,
            drum.started() == LANES,
            drum.trace_limit() == trace_length,
    {
        let mut loaded = [false; 8];
        let first = if LANES < batch_size { LANES } else { batch_size };
        let mut i: usize = 0;
        while i < first
            invariant
                i <= first,
                first == if LANES < batch_size { LANES } else { batch_size },
                forall|j: int| 0 <= j < LANES ==> #[trigger] loaded@[j] == (j < i),
            decreases first - i,
        {
            loaded[i] = true;
            i += 1;
        }
        Drum {
            loaded,
            loop_count: [0u64; 8],
            loop_max: range_stop as u64,
            trace_initialized: LANES,
            trace_length,
        }
    }

    /// Whether some lane holds a trace.
    pub fn any_loaded(&self) -> (r: bool)
        ensures
            r == exists|i: int| 0 <= i < LANES && self.loaded_lanes()[i],
    {
        let mut i: usize = 0;
        while i < LANES
            invariant
                i <= LANES,
                forall|j: int| 0 <= j < i ==> !self.loaded@[j],
            decreases LANES - i,
        {
            if self.loaded[i] {
                assert(self.loaded_lanes()[i as int]);
                return true;
            }
            i += 1;
        }
        false
    }

    /// Whether lane `i` holds a trace.
    pub fn is_loaded(&self, i: usize) -> (r: bool)
        requires
            i < LANES,
        ensures
            r == self.loaded_lanes()[i as int],
    {
        self.loaded[i]
    }

    /// Ends a round in which every lane iterated once more, given which
    /// lanes' points left the disk of radius 2.  A lane is finished when it
    /// escaped, or when it is loaded and its round count reached the limit.
    /// Finished lanes are reloaded while traces remain to be started and
    /// unloaded after that; a reloaded lane restarts its round count.
    pub fn end_round(&mut self, escaped: [bool; 8]) -> (actions: [LaneAction; 8])
        ensures
            ({
                let counts = Seq::new(LANES as nat, |i: int| counted(old(self).rounds()[i]));
                let finished = Seq::new(
                    LANES as nat,
                    |i: int| (counts[i] >= old(self).round_limit() && old(self).loaded_lanes()[i]) || escaped@[i],
                );
                &&& forall|i: int| 0 <= i < LANES ==> #[trigger] actions@[i] == lane_action(
                    finished,
                    old(self).started(),
                    old(self).trace_limit(),
                    i,
                )
                &&& forall|i: int| 0 <= i < LANES ==> #[trigger] final(self).loaded_lanes()[i] == (
                    old(self).loaded_lanes()[i] && actions@[i] != LaneAction::Unload)
                &&& forall|i: int| 0 <= i < LANES ==> #[trigger] final(self).rounds()[i] == (
                    if actions@[i] == LaneAction::Reload { 0 } else { counts[i] })
                &&& final(self).started() == started_after(finished, old(self).started(), old(self).trace_limit())
            }),
            final(self).loaded_lanes().len() == LANES,
            final(self).rounds().len() == LANES,
            final(self).round_limit() == old(self).round_limit(),
            final(self).trace_limit() == old(self).trace_limit(),
    {
        let ghost counts = Seq::new(LANES as nat, |i: int| counted(old(self).loop_count@[i]));
        let ghost finished = Seq::new(
            LANES as nat,
            |i: int| (counts[i] >= old(self).loop_max && old(self).loaded@[i]) || escaped@[i],
        );
        let ghost started0 = old(self).trace_initialized as nat;
        let ghost limit = old(self).trace_length as nat;
        let mut done = [false; 8];
        let mut i: usize = 0;
        while i < LANES
            invariant
                i <= LANES,
                self.loop_max == old(self).loop_max,
                self.loaded == old(self).loaded,
                self.trace_initialized == old(self).trace_initialized,
                self.trace_length == old(self).trace_length,
                counts == Seq::new(LANES as nat, |i: int| counted(old(self).loop_count@[i])),
                finished == Seq::new(
                    LANES as nat,
                    |i: int| (counts[i] >= old(self).loop_max && old(self).loaded@[i]) || escaped@[i],
                ),
                forall|j: int| 0 <= j < i ==> #[trigger] self.loop_count@[j] == counts[j],
                forall|j: int| i <= j < LANES ==> #[trigger] self.loop_count@[j] == old(self).loop_count@[j],
                forall|j: int| 0 <= j < i ==> #[trigger] done@[j] == finished[j],
            decreases LANES - i,
        {
            let c = self.loop_count[i].wrapping_add(1);
            self.loop_count[i] = c;
            done[i] = (c >= self.loop_max && self.loaded[i]) || escaped[i];
            i += 1;
        }
        let mut actions = [LaneAction::Continue; 8];
        let mut i: usize = 0;
        while i < LANES
            invariant
                i <= LANES,
                self.loop_max == old(self).loop_max,
                self.trace_length == old(self).trace_length,
                counts == Seq::new(LANES as nat, |i: int| counted(old(self).loop_count@[i])),
                finished == Seq::new(
                    LANES as nat,
                    |i: int| (counts[i] >= old(self).loop_max && old(self).loaded@[i]) || escaped@[i],
                ),
                started0 == old(self).trace_initialized,
                limit == old(self).trace_length,
                forall|j: int| 0 <= j < LANES ==> #[trigger] done@[j] == finished[j],
                self.trace_initialized as nat == (if started0 >= limit {
                    started0
                } else if started0 + finished_before(finished, i as int) < limit {
                    started0 + finished_before(finished, i as int)
                } else {
                    limit
                }),
                forall|j: int| 0 <= j < i ==> #[trigger] actions@[j] == lane_action(finished, started0, limit, j),
                forall|j: int| 0 <= j < i ==> #[trigger] self.loaded@[j] == (old(self).loaded@[j]
                    && actions@[j] != LaneAction::Unload),
                forall|j: int| i <= j < LANES ==> #[trigger] self.loaded@[j] == old(self).loaded@[j],
                forall|j: int| 0 <= j < i ==> #[trigger] self.loop_count@[j] == (
                    if actions@[j] == LaneAction::Reload { 0 } else { counts[j] }),
                forall|j: int| i <= j < LANES ==> #[trigger] self.loop_count@[j] == counts[j],
            decreases LANES - i,
        {
            if done[i] {
                if self.trace_initialized < self.trace_length {
                    self.trace_initialized += 1;
                    self.loop_count[i] = 0;
                    actions[i] = LaneAction::Reload;
                } else {
                    self.loaded[i] = false;
                    actions[i] = LaneAction::Unload;
                }
            } else {
                actions[i] = LaneAction::Continue;
            }
            assert(finished_before(finished, i + 1) == finished_before(finished, i as int) + (if finished[i as int] { 1nat } else { 0nat }));
            i += 1;
        }
        actions
    }
}

} // verus!
