//! What the two round-trips for one partition brought back.

use vstd::prelude::*;

verus! {

/// The outcome of asking for the offset a group committed on one partition.
#[derive(Clone, Copy, Debug, PartialEq, Eq, Structural)]
pub enum CommittedFetch {
    /// The group committed this offset.
    Committed(i64),
    /// The broker answered: the group never committed on this partition.
    NoCommit,
    /// The round-trip failed or timed out.
    Failed,
}

/// The outcome of asking for the watermarks of one partition.
#[derive(Clone, Copy, Debug, PartialEq, Eq, Structural)]
pub enum WatermarkFetch {
    /// The oldest retained offset and the log end offset, which is the offset
    /// the next record will get.
    Fetched { low: i64, high: i64 },
    /// The round-trip failed or timed out.
    Failed,
}

/// Both outcomes for one partition. Either may have failed on its own.
#[derive(Clone, Copy, Debug, PartialEq, Eq, Structural)]
pub struct PartitionOffsets {
    pub committed: CommittedFetch,
    pub watermarks: WatermarkFetch,
}

/// The raw offset that stands for "nothing committed" in a broker's answer.
pub const OFFSET_INVALID: i64 = -1001;

/// What a raw committed offset of `raw` means: a position in the log when it
/// is not negative, no commit otherwise.
pub open spec fn committed_of_raw(raw: Option<i64>) -> CommittedFetch {
    match raw {
        Some(offset) if offset >= 0 => CommittedFetch::Committed(offset),
        _ => CommittedFetch::NoCommit,
    }
}

/// The first entry of `entries` for `partition`, read as a committed offset.
/// An entry is a partition, its raw offset, and whether the broker flagged an
/// error on it. A flagged entry is a failure, and so is an answer that does
/// not mention the partition.
pub open spec fn committed_among(entries: Seq<(i32, Option<i64>, bool)>, partition: i32)
    -> CommittedFetch
    decreases entries.len(),
{
    if entries.len() == 0 {
        CommittedFetch::Failed
    } else if entries[0].0 == partition {
        if entries[0].2 {
            CommittedFetch::Failed
        } else {
            committed_of_raw(entries[0].1)
        }
    } else {
        committed_among(entries.drop_first(), partition)
    }
}

/// Reads a raw committed offset.
///
/// Offsets in a log start at zero. The negative values are the client
/// library's sentinels, none of which is a position a group has processed.
pub fn committed_from_raw(raw: Option<i64>) -> (fetch: CommittedFetch)
    ensures
        fetch == committed_of_raw(raw),
{
    match raw {
        Some(offset) => {
            if offset >= 0 {
                CommittedFetch::Committed(offset)
            } else {
                CommittedFetch::NoCommit
            }
        },
        None => CommittedFetch::NoCommit,
    }
}

/// Picks the committed offset of `partition` out of a broker's answer, given
/// as triples of partition, raw offset and error flag.
pub fn committed_in(entries: &Vec<(i32, Option<i64>, bool)>, partition: i32) -> (fetch:
    CommittedFetch)
    ensures
        fetch == committed_among(entries@, partition),
{
    let n = entries.len();
    let mut i: usize = 0;
    assert(entries@.skip(0) =~= entries@);
    while i < n
        invariant
            n == entries.len(),
            i <= n,
            committed_among(entries@, partition) == committed_among(
                entries@.skip(i as int),
                partition,
            ),
        decreases n - i,
    {
        let entry = entries[i];
        if entry.0 == partition {
            if entry.2 {
                return CommittedFetch::Failed;
            }
            return committed_from_raw(entry.1);
        }
        assert(entries@.skip(i as int).drop_first() =~= entries@.skip(i as int + 1));
        i += 1;
    }
    CommittedFetch::Failed
}

} // verus!
