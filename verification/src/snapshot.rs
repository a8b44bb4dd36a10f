//! The snapshot of a whole topic: one pass over its partitions, in order.

use std::collections::HashMap;
use vstd::prelude::*;

use crate::error::LagError;
use crate::lag::{report_of, report_partition, Diagnostic, DiagnosticKind, LagRecord};
use crate::metadata::{first_named, resolve, TopicInfo};
use crate::offsets::PartitionOffsets;

verus! {

broadcast use vstd::std_specs::hash::group_hash_axioms;

/// The lag of a consumer group on every partition of one topic.
///
/// `records` holds the partitions whose log end is known, `diagnostics` the
/// partitions on which a fetch failed or the offsets look wrong. Both are in
/// ascending order of partition, and a partition occurs at most once in each.
#[derive(Clone, Debug, PartialEq, Eq)]
pub struct LagSnapshot {
    pub records: Vec<LagRecord>,
    pub diagnostics: Vec<Diagnostic>,
}

/// A snapshot as a mathematical value.
pub ghost struct LagSnapshotView {
    pub records: Seq<LagRecord>,
    pub diagnostics: Seq<Diagnostic>,
}

impl View for LagSnapshot {
    type V = LagSnapshotView;

    open spec fn view(&self) -> LagSnapshotView {
        LagSnapshotView { records: self.records@, diagnostics: self.diagnostics@ }
    }
}

/// The outcome handed in for `partition`, if any.
pub open spec fn offsets_of(results: Map<i32, PartitionOffsets>, partition: i32) -> Option<
    PartitionOffsets,
> {
    if results.contains_key(partition) {
        Some(results[partition])
    } else {
        None
    }
}

/// Strictly ascending: each number is greater than the one before.
pub open spec fn ascending(ids: Seq<i32>) -> bool {
    forall|i: int, j: int| 0 <= i < j < ids.len() ==> ids[i] < ids[j]
}

impl LagSnapshotView {
    /// Whether the snapshot holds a record for `partition`.
    pub open spec fn has_record(self, partition: i32) -> bool {
        exists|i: int|
            0 <= i < self.records.len() && (#[trigger] self.records[i]).partition == partition
    }

    /// Whether the snapshot holds a diagnostic for `partition`.
    pub open spec fn has_diagnostic(self, partition: i32) -> bool {
        exists|i: int|
            0 <= i < self.diagnostics.len() && (#[trigger] self.diagnostics[i]).partition
                == partition
    }

    /// Records and diagnostics are each in strictly ascending order of
    /// partition.
    pub open spec fn ordered(self) -> bool {
        &&& forall|i: int, j: int|
            0 <= i < j < self.records.len() ==> (#[trigger] self.records[i]).partition < (
            #[trigger] self.records[j]).partition
        &&& forall|i: int, j: int|
            0 <= i < j < self.diagnostics.len() ==> (#[trigger] self.diagnostics[i]).partition < (
            #[trigger] self.diagnostics[j]).partition
    }

    /// Whether this is the snapshot of the partitions `partitions` under the
    /// fetch outcomes `results`: it is ordered, it says of each of the
    /// partitions exactly what [`report_of`] says, and it speaks of no other
    /// partition.
    pub open spec fn describes(self, partitions: Set<i32>, results: Map<i32, PartitionOffsets>)
        -> bool {
        &&& self.ordered()
        &&& forall|i: int|
            0 <= i < self.records.len() ==> {
                let record = #[trigger] self.records[i];
                &&& partitions.contains(record.partition)
                &&& report_of(record.partition, offsets_of(results, record.partition)).record
                    == Some(record)
            }
        &&& forall|i: int|
            0 <= i < self.diagnostics.len() ==> {
                let diagnostic = #[trigger] self.diagnostics[i];
                &&& partitions.contains(diagnostic.partition)
                &&& report_of(
                    diagnostic.partition,
                    offsets_of(results, diagnostic.partition),
                ).diagnostic == Some(diagnostic.kind)
            }
        &&& forall|partition: i32| #[trigger]
            partitions.contains(partition) ==> {
                let report = report_of(partition, offsets_of(results, partition));
                &&& report.record is Some ==> self.has_record(partition)
                &&& report.diagnostic is Some ==> self.has_diagnostic(partition)
            }
    }

    /// The record of `partition`, if the snapshot holds one.
    pub open spec fn record_of(self, partition: i32) -> Option<LagRecord> {
        first_record(self.records, partition)
    }

    /// The diagnostic of `partition`, if the snapshot holds one.
    pub open spec fn diagnostic_of(self, partition: i32) -> Option<DiagnosticKind> {
        first_diagnostic(self.diagnostics, partition)
    }
}

/// The first of `records` that is about `partition`.
pub open spec fn first_record(records: Seq<LagRecord>, partition: i32) -> Option<LagRecord>
    decreases records.len(),
{
    if records.len() == 0 {
        None
    } else if records[0].partition == partition {
        Some(records[0])
    } else {
        first_record(records.drop_first(), partition)
    }
}

/// The kind of the first of `diagnostics` that is about `partition`.
pub open spec fn first_diagnostic(diagnostics: Seq<Diagnostic>, partition: i32) -> Option<
    DiagnosticKind,
>
    decreases diagnostics.len(),
{
    if diagnostics.len() == 0 {
        None
    } else if diagnostics[0].partition == partition {
        Some(diagnostics[0].kind)
    } else {
        first_diagnostic(diagnostics.drop_first(), partition)
    }
}

impl LagSnapshot {
    /// Looks up the record of `partition`.
    pub fn record_of(&self, partition: i32) -> (found: Option<LagRecord>)
        ensures
            found == self@.record_of(partition),
    {
        let n = self.records.len();
        let mut i: usize = 0;
        assert(self.records@.skip(0) =~= self.records@);
        while i < n
            invariant
                n == self.records.len(),
                i <= n,
                first_record(self.records@, partition) == first_record(
                    self.records@.skip(i as int),
                    partition,
                ),
            decreases n - i,
        {
            if self.records[i].partition == partition {
                return Some(self.records[i]);
            }
            assert(self.records@.skip(i as int).drop_first() =~= self.records@.skip(i as int + 1));
            i += 1;
        }
        None
    }

    /// Looks up the diagnostic of `partition`: what annotates its record, or
    /// why it has none.
    pub fn diagnostic_of(&self, partition: i32) -> (found: Option<DiagnosticKind>)
        ensures
            found == self@.diagnostic_of(partition),
    {
        let n = self.diagnostics.len();
        let mut i: usize = 0;
        assert(self.diagnostics@.skip(0) =~= self.diagnostics@);
        while i < n
            invariant
                n == self.diagnostics.len(),
                i <= n,
                first_diagnostic(self.diagnostics@, partition) == first_diagnostic(
                    self.diagnostics@.skip(i as int),
                    partition,
                ),
            decreases n - i,
        {
            if self.diagnostics[i].partition == partition {
                return Some(self.diagnostics[i].kind);
            }
            assert(self.diagnostics@.skip(i as int).drop_first() =~= self.diagnostics@.skip(
                i as int + 1,
            ));
            i += 1;
        }
        None
    }
}

/// Puts `id` at its place in an ascending list, unless it is there already.
fn insert_ascending(ids: &mut Vec<i32>, id: i32)
    requires
        ascending(old(ids)@),
    ensures
        ascending(final(ids)@),
        forall|p: i32| final(ids)@.contains(p) <==> old(ids)@.contains(p) || p == id,
{
    let n = ids.len();
    let mut at: usize = 0;
    while at < n && ids[at] < id
        invariant
            n == ids.len(),
            at <= n,
            *ids == *old(ids),
            forall|i: int| 0 <= i < at ==> ids[i] < id,
        decreases n - at,
    {
        at += 1;
    }
    if at < n && ids[at] == id {
        assert(ids@.contains(id));
        return ;
    }
    ids.insert(at, id);
    proof {
        let before = old(ids)@;
        let after = ids@;
        assert forall|i: int, j: int| 0 <= i < j < after.len() implies after[i] < after[j] by {
            if i == at && j > at {
                assert(before[at as int] <= before[j - 1]);
            }
        }
        assert forall|p: i32| after.contains(p) <==> before.contains(p) || p == id by {
            if before.contains(p) {
                let i = choose|i: int| 0 <= i < before.len() && before[i] == p;
                assert(after[if i < at { i } else { i + 1 }] == p);
            }
            if p == id {
                assert(after[at as int] == p);
            }
        }
    }
}

/// The partition numbers of a topic in ascending order, each once.
pub fn ascending_partitions(topic: &TopicInfo) -> (ids: Vec<i32>)
    ensures
        ascending(ids@),
        forall|p: i32| ids@.contains(p) <==> topic@.has_partition(p),
{
    let mut ids: Vec<i32> = Vec::new();
    let n = topic.partitions.len();
    let mut k: usize = 0;
    while k < n
        invariant
            n == topic.partitions.len(),
            k <= n,
            ascending(ids@),
            forall|p: i32|
                ids@.contains(p) <==> exists|i: int|
                    0 <= i < k && (#[trigger] topic.partitions[i]).partition == p,
        decreases n - k,
    {
        let id = topic.partitions[k].partition;
        let ghost before = ids@;
        insert_ascending(&mut ids, id);
        proof {
            assert forall|p: i32|
                ids@.contains(p) <==> exists|i: int|
                    0 <= i < k + 1 && (#[trigger] topic.partitions[i]).partition == p by {
                if before.contains(p) {
                    let i = choose|i: int|
                        0 <= i < k && (#[trigger] topic.partitions[i]).partition == p;
                    assert(0 <= i < k + 1 && topic.partitions[i].partition == p);
                }
                if p == id {
                    assert(topic.partitions[k as int].partition == p);
                }
                if exists|i: int|
                    0 <= i < k + 1 && (#[trigger] topic.partitions[i]).partition == p {
                    let i = choose|i: int|
                        0 <= i < k + 1 && (#[trigger] topic.partitions[i]).partition == p;
                    if i < k {
                        assert(before.contains(p));
                    }
                }
            }
        }
        k += 1;
    }
    proof {
        assert forall|p: i32| ids@.contains(p) <==> topic@.has_partition(p) by {
            if ids@.contains(p) {
                let i = choose|i: int|
                    0 <= i < k && (#[trigger] topic.partitions[i]).partition == p;
                assert(topic@.partitions[i].partition == p);
            }
            if topic@.has_partition(p) {
                let i = choose|i: int|
                    0 <= i < topic@.partitions.len() && (#[trigger] topic@.partitions[i]).partition
                        == p;
                assert(topic.partitions[i].partition == p);
            }
        }
    }
    ids
}

/// Reports on the partitions `ids`, which are in ascending order, from the
/// outcomes of their offset fetches.
pub(crate) fn snapshot_of(ids: &Vec<i32>, results: &HashMap<i32, PartitionOffsets>) -> (snapshot:
    LagSnapshot)
    requires
        ascending(ids@),
    ensures
        snapshot@.describes(ids@.to_set(), results@),
        snapshot@.ordered(),
{
    let mut records: Vec<LagRecord> = Vec::new();
    let mut diagnostics: Vec<Diagnostic> = Vec::new();
    let n = ids.len();
    let mut k: usize = 0;
    while k < n
        invariant
            n == ids.len(),
            k <= n,
            ascending(ids@),
            (LagSnapshotView { records: records@, diagnostics: diagnostics@ }).ordered(),
            forall|i: int|
                0 <= i < records.len() ==> {
                    let record = #[trigger] records[i];
                    &&& exists|a: int| 0 <= a < k && ids[a] == record.partition
                    &&& report_of(record.partition, offsets_of(results@, record.partition)).record
                        == Some(record)
                },
            forall|i: int|
                0 <= i < diagnostics.len() ==> {
                    let diagnostic = #[trigger] diagnostics[i];
                    &&& exists|a: int| 0 <= a < k && ids[a] == diagnostic.partition
                    &&& report_of(
                        diagnostic.partition,
                        offsets_of(results@, diagnostic.partition),
                    ).diagnostic == Some(diagnostic.kind)
                },
            forall|a: int|
                0 <= a < k ==> {
                    let report = report_of(#[trigger] ids[a], offsets_of(results@, ids[a]));
                    &&& report.record is Some ==> (LagSnapshotView {
                        records: records@,
                        diagnostics: diagnostics@,
                    }).has_record(ids[a])
                    &&& report.diagnostic is Some ==> (LagSnapshotView {
                        records: records@,
                        diagnostics: diagnostics@,
                    }).has_diagnostic(ids[a])
                },
        decreases n - k,
    {
        let partition = ids[k];
        let report = report_partition(partition, results.get(&partition));
        let ghost old_records = records@;
        let ghost old_diagnostics = diagnostics@;
        if let Some(record) = report.record {
            records.push(record);
            assert(records@[old_records.len() as int].partition == partition);
        }
        if let Some(kind) = report.diagnostic {
            diagnostics.push(Diagnostic { partition, kind });
            assert(diagnostics@[old_diagnostics.len() as int].partition == partition);
        }
        proof {
            let old_view = LagSnapshotView { records: old_records, diagnostics: old_diagnostics };
            let new_view = LagSnapshotView { records: records@, diagnostics: diagnostics@ };
            assert forall|a: int| 0 <= a < k implies {
                let earlier = report_of(#[trigger] ids[a], offsets_of(results@, ids[a]));
                &&& earlier.record is Some ==> new_view.has_record(ids[a])
                &&& earlier.diagnostic is Some ==> new_view.has_diagnostic(ids[a])
            } by {
                let earlier = report_of(ids[a], offsets_of(results@, ids[a]));
                if earlier.record is Some {
                    assert(old_view.has_record(ids[a]));
                    let i = choose|i: int|
                        0 <= i < old_records.len() && (#[trigger] old_records[i]).partition
                            == ids[a];
                    assert(records@[i].partition == ids[a]);
                }
                if earlier.diagnostic is Some {
                    assert(old_view.has_diagnostic(ids[a]));
                    let i = choose|i: int|
                        0 <= i < old_diagnostics.len() && (#[trigger] old_diagnostics[i]).partition
                            == ids[a];
                    assert(diagnostics@[i].partition == ids[a]);
                }
            }
        }
        k += 1;
    }
    let snapshot = LagSnapshot { records, diagnostics };
    proof {
        let listed = ids@.to_set();
        assert forall|i: int| 0 <= i < snapshot@.records.len() implies listed.contains(
            (#[trigger] snapshot@.records[i]).partition,
        ) by {
            assert(ids@.contains(snapshot@.records[i].partition));
        }
        assert forall|i: int| 0 <= i < snapshot@.diagnostics.len() implies listed.contains(
            (#[trigger] snapshot@.diagnostics[i]).partition,
        ) by {
            assert(ids@.contains(snapshot@.diagnostics[i].partition));
        }
        assert forall|partition: i32| #[trigger] listed.contains(partition) implies {
            let report = report_of(partition, offsets_of(results@, partition));
            &&& report.record is Some ==> snapshot@.has_record(partition)
            &&& report.diagnostic is Some ==> snapshot@.has_diagnostic(partition)
        } by {
            assert(ids@.contains(partition));
            let a = choose|a: int| 0 <= a < ids@.len() && ids@[a] == partition;
            assert(ids[a] == partition);
        }
    }
    snapshot
}

/// Combines a topic's partitions with the outcomes of their offset fetches
/// into one snapshot.
///
/// `results` maps a partition to what its two fetches brought back. Every
/// partition of the topic is looked at once, in ascending order of
/// partition, whatever order the broker listed them in and whatever else
/// `results` holds. A partition whose log end is known gets a record; a
/// partition with a failed fetch, no result at all, or offsets that look
/// wrong gets a diagnostic. No partition makes the computation fail.
pub fn aggregate(topic: &TopicInfo, results: &HashMap<i32, PartitionOffsets>) -> (snapshot:
    LagSnapshot)
    ensures
        snapshot@.describes(topic@.partition_ids(), results@),
        snapshot@.ordered(),
{
    let ids = ascending_partitions(topic);
    assert(ids@.to_set() =~= topic@.partition_ids());
    snapshot_of(&ids, results)
}

/// Computes the lag snapshot of the topic named `name`.
///
/// `listed` is what the metadata query brought back (`None` when the broker
/// could not be reached) and `results` the outcomes of the offset fetches by
/// partition. The computation fails as a whole only when no topic is known or
/// the topic is not among those listed; nothing is returned then. A failure
/// on a single partition shows up as a diagnostic in the snapshot.
pub fn compute_lag(
    listed: Option<&Vec<TopicInfo>>,
    name: &str,
    results: &HashMap<i32, PartitionOffsets>,
) -> (outcome: Result<LagSnapshot, LagError>)
    ensures
        match outcome {
            Ok(snapshot) => listed matches Some(topics) && first_named(topics@, name@) matches Some(
                i,
            ) && snapshot@.describes(topics@[i]@.partition_ids(), results@),
            Err(LagError::Connection) => listed is None,
            Err(LagError::TopicNotFound) => listed matches Some(topics) && first_named(
                topics@,
                name@,
            ) is None,
        },
{
    match resolve(listed, name) {
        Ok(topic) => Ok(aggregate(topic, results)),
        Err(e) => Err(e),
    }
}

} // verus!
