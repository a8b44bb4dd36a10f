//! The round-trips of one lag computation, one after the other.
//!
//! A session knows which partitions to ask about and what has been answered
//! so far. It tells the caller which round-trip to make next and takes the
//! outcome back. It never makes a round-trip itself, and no outcome makes it
//! stop early: a partition whose fetch failed is one more answer.

use std::collections::HashMap;
use vstd::prelude::*;

use crate::metadata::TopicInfo;
use crate::offsets::{CommittedFetch, PartitionOffsets, WatermarkFetch};
use crate::snapshot::{ascending, ascending_partitions, snapshot_of, LagSnapshot};

verus! {

broadcast use vstd::std_specs::hash::group_hash_axioms;

/// The round-trip a session asks for next.
#[derive(Clone, Copy, Debug, PartialEq, Eq, Structural)]
pub enum Step {
    /// Fetch the offset the group committed on `partition`.
    FetchCommitted { partition: i32 },
    /// Fetch the watermarks of `partition`.
    FetchWatermarks { partition: i32 },
    /// Every partition has its two answers.
    Finished,
}

/// The outcome of a round-trip, handed back to the session.
#[derive(Clone, Copy, Debug, PartialEq, Eq, Structural)]
pub enum Reply {
    Committed(CommittedFetch),
    Watermarks(WatermarkFetch),
}

/// The state of the offset fetches of one topic.
pub struct FetchSession {
    partitions: Vec<i32>,
    done: usize,
    committed: Option<CommittedFetch>,
    results: HashMap<i32, PartitionOffsets>,
}

/// A session as a mathematical value.
pub ghost struct FetchSessionView {
    /// The partitions to ask about, in the order in which they are asked.
    pub partitions: Seq<i32>,
    /// How many of them have both answers.
    pub done: int,
    /// The committed offset's fetch of the partition in turn, once it is in.
    pub committed: Option<CommittedFetch>,
    /// The answers so far.
    pub results: Map<i32, PartitionOffsets>,
}

impl FetchSessionView {
    /// The invariant of a session: the partitions are in ascending order,
    /// and the answers so far are those of the partitions that are done.
    pub open spec fn well_formed(self) -> bool {
        &&& ascending(self.partitions)
        &&& 0 <= self.done <= self.partitions.len()
        &&& self.done == self.partitions.len() ==> self.committed is None
        &&& self.results.dom() == self.partitions.take(self.done).to_set()
    }

    /// The round-trip to make in this state.
    pub open spec fn next_step(self) -> Step {
        if 0 <= self.done < self.partitions.len() {
            if self.committed is None {
                Step::FetchCommitted { partition: self.partitions[self.done] }
            } else {
                Step::FetchWatermarks { partition: self.partitions[self.done] }
            }
        } else {
            Step::Finished
        }
    }

    /// The state after `reply` has come in. A reply that does not answer
    /// the round-trip that was asked for changes nothing.
    pub open spec fn after(self, reply: Reply) -> FetchSessionView {
        match (self.next_step(), reply) {
            (Step::FetchCommitted { partition }, Reply::Committed(outcome)) => FetchSessionView {
                committed: Some(outcome),
                ..self
            },
            (Step::FetchWatermarks { partition }, Reply::Watermarks(outcome)) => FetchSessionView {
                done: self.done + 1,
                committed: None,
                results: self.results.insert(
                    partition,
                    PartitionOffsets { committed: self.committed->0, watermarks: outcome },
                ),
                ..self
            },
            _ => self,
        }
    }

    /// Whether `reply` answers the round-trip that this state asks for.
    pub open spec fn expects(self, reply: Reply) -> bool {
        match (self.next_step(), reply) {
            (Step::FetchCommitted { partition }, Reply::Committed(_)) => true,
            (Step::FetchWatermarks { partition }, Reply::Watermarks(_)) => true,
            _ => false,
        }
    }

    /// How many round-trips are still to be made.
    pub open spec fn round_trips_left(self) -> int {
        2 * (self.partitions.len() - self.done) - if self.committed is Some {
            1int
        } else {
            0int
        }
    }
}

/// The reply to `step` when the broker answers for each partition what
/// `committed` and `watermarks` say.
pub open spec fn answer(
    step: Step,
    committed: spec_fn(i32) -> CommittedFetch,
    watermarks: spec_fn(i32) -> WatermarkFetch,
) -> Reply {
    match step {
        Step::FetchCommitted { partition } => Reply::Committed(committed(partition)),
        Step::FetchWatermarks { partition } => Reply::Watermarks(watermarks(partition)),
        Step::Finished => Reply::Committed(CommittedFetch::Failed),
    }
}

/// The state of `session` after `round_trips` more round-trips, each made as
/// the session asked and answered as `committed` and `watermarks` say.
pub open spec fn driven(
    session: FetchSessionView,
    committed: spec_fn(i32) -> CommittedFetch,
    watermarks: spec_fn(i32) -> WatermarkFetch,
    round_trips: nat,
) -> FetchSessionView
    decreases round_trips,
{
    if round_trips == 0 {
        session
    } else {
        driven(
            session.after(answer(session.next_step(), committed, watermarks)),
            committed,
            watermarks,
            (round_trips - 1) as nat,
        )
    }
}

/// The partitions that are done once one more is: those that were, and the
/// one in turn.
pub proof fn one_more_is_done(partitions: Seq<i32>, done: int)
    requires
        0 <= done < partitions.len(),
    ensures
        partitions.take(done + 1).to_set() == partitions.take(done).to_set().insert(
            partitions[done],
        ),
{
    let then = partitions.take(done);
    let now = partitions.take(done + 1);
    assert forall|p: i32| now.to_set().contains(p) <==> then.to_set().insert(
        partitions[done],
    ).contains(p) by {
        if now.contains(p) {
            let i = choose|i: int| 0 <= i < now.len() && now[i] == p;
            assert(i < then.len() ==> then[i] == p);
        }
        if then.contains(p) {
            let i = choose|i: int| 0 <= i < then.len() && then[i] == p;
            assert(now[i] == p);
        }
        if p == partitions[done] {
            assert(now[done] == p);
        }
    }
}

impl View for FetchSession {
    type V = FetchSessionView;

    closed spec fn view(&self) -> FetchSessionView {
        FetchSessionView {
            partitions: self.partitions@,
            done: self.done as int,
            committed: self.committed,
            results: self.results@,
        }
    }
}

impl FetchSession {
    /// Every session there is satisfies [`FetchSessionView::well_formed`].
    #[verifier::type_invariant]
    spec fn holds_its_invariant(self) -> bool {
        self@.well_formed()
    }

    /// Opens the session for a topic: its partitions are asked about in
    /// ascending order, each once, and nothing is answered yet.
    pub fn start(topic: &TopicInfo) -> (session: FetchSession)
        ensures
            session@.well_formed(),
            session@.partitions.to_set() == topic@.partition_ids(),
            session@.done == 0,
            session@.committed is None,
            session@.results.dom() == Set::<i32>::empty(),
    {
        let partitions = ascending_partitions(topic);
        let results: HashMap<i32, PartitionOffsets> = HashMap::new();
        assert(results@.dom() =~= partitions@.take(0).to_set());
        FetchSession { partitions, done: 0, committed: None, results }
    }

    /// Tells which round-trip to make next.
    pub fn next_step(&self) -> (step: Step)
        ensures
            step == self@.next_step(),
            self@.well_formed(),
    {
        proof {
            use_type_invariant(self);
        }
        if self.done < self.partitions.len() {
            let partition = self.partitions[self.done];
            match self.committed {
                None => Step::FetchCommitted { partition },
                Some(_) => Step::FetchWatermarks { partition },
            }
        } else {
            Step::Finished
        }
    }

    /// Takes the outcome of a round-trip and moves on, whether the
    /// round-trip succeeded or not.
    pub fn advance(self, reply: Reply) -> (next: FetchSession)
        ensures
            next@ == self@.after(reply),
            next@.well_formed(),
    {
        proof {
            use_type_invariant(&self);
        }
        let ghost before = self@;
        let step = self.next_step();
        let FetchSession { partitions, done, committed, results } = self;
        assert(before.partitions == partitions@ && before.done == done && before.committed
            == committed && before.results == results@);
        match (step, reply) {
            (Step::FetchCommitted { partition: _ }, Reply::Committed(outcome)) => FetchSession {
                partitions,
                done,
                committed: Some(outcome),
                results,
            },
            (Step::FetchWatermarks { partition }, Reply::Watermarks(outcome)) => {
                assert(done < partitions.len());
                let mut results = results;
                let fetched = match committed {
                    Some(fetched) => fetched,
                    None => CommittedFetch::Failed,
                };
                results.insert(partition, PartitionOffsets { committed: fetched, watermarks: outcome });
                proof {
                    one_more_is_done(partitions@, done as int);
                }
                FetchSession { partitions, done: done + 1, committed: None, results }
            },
            _ => FetchSession { partitions, done, committed, results },
        }
    }

    /// The answers so far, by partition.
    pub fn results(&self) -> (results: &HashMap<i32, PartitionOffsets>)
        ensures
            results@ == self@.results,
    {
        &self.results
    }

    /// Closes the session with the snapshot of what it has learned. A
    /// partition that was not asked about yet has no answer, and the snapshot
    /// says so.
    pub fn finish(self) -> (snapshot: LagSnapshot)
        ensures
            snapshot@.describes(self@.partitions.to_set(), self@.results),
            snapshot@.ordered(),
    {
        proof {
            use_type_invariant(&self);
        }
        snapshot_of(&self.partitions, &self.results)
    }
}

} // verus!
