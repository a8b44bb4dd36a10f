//! What holds of every snapshot and of every session, stated once and
//! proved.

use vstd::prelude::*;

use crate::lag::{report_of, Diagnostic, DiagnosticKind, LagRecord};
use crate::metadata::TopicInfoView;
use crate::offsets::{CommittedFetch, PartitionOffsets, WatermarkFetch};
use crate::session::{answer, driven, one_more_is_done, FetchSessionView, Reply};
use crate::snapshot::{ascending, first_diagnostic, first_record, offsets_of, LagSnapshotView};

verus! {

/// Where a partition has a committed offset that is not beyond its log end,
/// the snapshot holds a record for it whose lag is exactly the log end minus
/// the committed offset, and holds no diagnostic for it.
///
/// Both offsets are 64-bit, so their difference may need 65 bits; the law
/// speaks of the partitions whose lag fits the record's 64-bit field.
pub proof fn lag_is_exact(
    snapshot: LagSnapshotView,
    partitions: Set<i32>,
    results: Map<i32, PartitionOffsets>,
    partition: i32,
    committed: i64,
    low: i64,
    log_end: i64,
)
    requires
        snapshot.describes(partitions, results),
        partitions.contains(partition),
        results.contains_key(partition),
        results[partition].committed == CommittedFetch::Committed(committed),
        results[partition].watermarks == (WatermarkFetch::Fetched { low, high: log_end }),
        committed <= log_end,
        log_end - committed <= i64::MAX,
    ensures
        snapshot.has_record(partition),
        !snapshot.has_diagnostic(partition),
        forall|i: int|
            0 <= i < snapshot.records.len() && (#[trigger] snapshot.records[i]).partition
                == partition ==> snapshot.records[i] == (LagRecord {
                partition,
                committed_offset: Some(committed),
                log_end_offset: log_end,
                lag: Some((log_end - committed) as i64),
            }),
{
    assert(offsets_of(results, partition) == Some(results[partition]));
}

/// Where the group never committed on a partition, no record of that
/// partition carries a lag: the lag is absent, it is never reported as zero
/// or as any other number. If the log end is known the record is there, with
/// both the committed offset and the lag left out.
pub proof fn lag_is_absent_without_commit(
    snapshot: LagSnapshotView,
    partitions: Set<i32>,
    results: Map<i32, PartitionOffsets>,
    partition: i32,
)
    requires
        snapshot.describes(partitions, results),
        partitions.contains(partition),
        results.contains_key(partition),
        results[partition].committed == CommittedFetch::NoCommit,
    ensures
        forall|i: int|
            0 <= i < snapshot.records.len() && (#[trigger] snapshot.records[i]).partition
                == partition ==> snapshot.records[i].lag is None
                && snapshot.records[i].committed_offset is None,
        results[partition].watermarks matches WatermarkFetch::Fetched { low, high }
            ==> snapshot.has_record(partition) && !snapshot.has_diagnostic(partition),
{
    assert(offsets_of(results, partition) == Some(results[partition]));
}

/// A record carries a lag only together with the committed offset it was
/// computed from, and then the lag is their difference.
pub proof fn lag_comes_from_a_commit(
    snapshot: LagSnapshotView,
    partitions: Set<i32>,
    results: Map<i32, PartitionOffsets>,
    i: int,
)
    requires
        snapshot.describes(partitions, results),
        0 <= i < snapshot.records.len(),
    ensures
        snapshot.records[i].well_formed(),
        snapshot.records[i].lag matches Some(lag) ==> snapshot.records[i].committed_offset
            matches Some(committed) && lag == snapshot.records[i].log_end_offset - committed,
{
    let record = snapshot.records[i];
    assert(report_of(record.partition, offsets_of(results, record.partition)).record == Some(
        record,
    ));
}

/// The snapshot is in strictly ascending order of partition, and it is the
/// same for two listings of the same partitions: the order in which the
/// broker listed them, and how often, has no influence.
pub proof fn order_is_ascending(
    snapshot: LagSnapshotView,
    topic: TopicInfoView,
    relisted: TopicInfoView,
    results: Map<i32, PartitionOffsets>,
)
    requires
        snapshot.describes(topic.partition_ids(), results),
        forall|partition: i32| topic.has_partition(partition) <==> relisted.has_partition(partition),
    ensures
        forall|i: int, j: int|
            0 <= i < j < snapshot.records.len() ==> (#[trigger] snapshot.records[i]).partition < (
            #[trigger] snapshot.records[j]).partition,
        forall|i: int, j: int|
            0 <= i < j < snapshot.diagnostics.len() ==> (
            #[trigger] snapshot.diagnostics[i]).partition < (
            #[trigger] snapshot.diagnostics[j]).partition,
        snapshot.describes(relisted.partition_ids(), results),
{
    assert(topic.partition_ids() =~= relisted.partition_ids());
}

/// What a lookup finds among `records`: one of them that is about
/// `partition`, or that none is.
proof fn first_record_is_a_record(records: Seq<LagRecord>, partition: i32)
    ensures
        match first_record(records, partition) {
            Some(record) => record.partition == partition && records.contains(record),
            None => forall|i: int|
                0 <= i < records.len() ==> (#[trigger] records[i]).partition != partition,
        },
    decreases records.len(),
{
    if records.len() > 0 && records[0].partition != partition {
        let rest = records.drop_first();
        first_record_is_a_record(rest, partition);
        match first_record(rest, partition) {
            Some(record) => {
                let i = choose|i: int| 0 <= i < rest.len() && rest[i] == record;
                assert(records[i + 1] == record);
            },
            None => {
                assert forall|i: int| 0 <= i < records.len() implies (
                #[trigger] records[i]).partition != partition by {
                    if i > 0 {
                        assert(rest[i - 1] == records[i]);
                    }
                }
            },
        }
    }
}

/// What a lookup finds among `diagnostics`: the kind of one of them that is
/// about `partition`, or that none is.
proof fn first_diagnostic_is_a_diagnostic(diagnostics: Seq<Diagnostic>, partition: i32)
    ensures
        match first_diagnostic(diagnostics, partition) {
            Some(kind) => diagnostics.contains(Diagnostic { partition, kind }),
            None => forall|i: int|
                0 <= i < diagnostics.len() ==> (#[trigger] diagnostics[i]).partition != partition,
        },
    decreases diagnostics.len(),
{
    if diagnostics.len() > 0 && diagnostics[0].partition != partition {
        let rest = diagnostics.drop_first();
        first_diagnostic_is_a_diagnostic(rest, partition);
        match first_diagnostic(rest, partition) {
            Some(kind) => {
                let i = choose|i: int|
                    0 <= i < rest.len() && rest[i] == (Diagnostic { partition, kind });
                assert(diagnostics[i + 1] == (Diagnostic { partition, kind }));
            },
            None => {
                assert forall|i: int| 0 <= i < diagnostics.len() implies (
                #[trigger] diagnostics[i]).partition != partition by {
                    if i > 0 {
                        assert(rest[i - 1] == diagnostics[i]);
                    }
                }
            },
        }
    }
}

/// Of each partition that was asked about the snapshot says what
/// [`report_of`] says, and of every other partition it says nothing.
pub proof fn snapshot_matches_reports(
    snapshot: LagSnapshotView,
    partitions: Set<i32>,
    results: Map<i32, PartitionOffsets>,
    partition: i32,
)
    requires
        snapshot.describes(partitions, results),
    ensures
        partitions.contains(partition) ==> snapshot.record_of(partition) == report_of(
            partition,
            offsets_of(results, partition),
        ).record,
        partitions.contains(partition) ==> snapshot.diagnostic_of(partition) == report_of(
            partition,
            offsets_of(results, partition),
        ).diagnostic,
        !partitions.contains(partition) ==> snapshot.record_of(partition) is None
            && snapshot.diagnostic_of(partition) is None,
{
    first_record_is_a_record(snapshot.records, partition);
    first_diagnostic_is_a_diagnostic(snapshot.diagnostics, partition);
}

/// Nothing is dropped in silence: every partition of the topic has a record,
/// a diagnostic, or both.
pub proof fn every_partition_is_reported(
    snapshot: LagSnapshotView,
    partitions: Set<i32>,
    results: Map<i32, PartitionOffsets>,
    partition: i32,
)
    requires
        snapshot.describes(partitions, results),
        partitions.contains(partition),
    ensures
        snapshot.has_record(partition) || snapshot.has_diagnostic(partition),
{
}

/// "No data", "lag unknown" and "zero lag" are three different reports: a
/// failed fetch leaves no record and names the failure, a missing commit
/// leaves a record without lag and without diagnostic, and a lag of zero is
/// a record that says zero.
pub proof fn reports_stay_apart(partition: i32, fetched: PartitionOffsets)
    ensures
        ({
            let report = report_of(partition, Some(fetched));
            let failed = fetched.committed is Failed || fetched.watermarks is Failed;
            &&& failed <==> report.record is None
            &&& failed ==> report.diagnostic is Some && report.diagnostic != Some(
                DiagnosticKind::NegativeLag,
            ) && report.diagnostic != Some(DiagnosticKind::LagOutOfRange)
            &&& !failed && fetched.committed is NoCommit ==> report.record->0.lag is None
                && report.diagnostic is None
            &&& !failed && fetched.committed is Committed && report.diagnostic is None
                ==> report.record->0.lag is Some && report.record->0.lag->0 >= 0
        }),
{
}

/// Two ascending lists with the same members are the same list.
proof fn ascending_lists_agree(a: Seq<i32>, b: Seq<i32>)
    requires
        ascending(a),
        ascending(b),
        forall|p: i32| a.contains(p) <==> b.contains(p),
    ensures
        a == b,
    decreases a.len(),
{
    if a.len() == 0 {
        if b.len() > 0 {
            assert(b.contains(b[0]));
        }
        assert(a =~= b);
    } else {
        let x = a.last();
        assert(a.contains(x));
        assert(b.contains(x));
        let y = b.last();
        assert(b.contains(y));
        assert(a.contains(y));
        let at_b = choose|i: int| 0 <= i < b.len() && b[i] == x;
        let at_a = choose|i: int| 0 <= i < a.len() && a[i] == y;
        assert(x == y) by {
            if at_b < b.len() - 1 {
                assert(b[at_b] < b[b.len() - 1]);
            }
            if at_a < a.len() - 1 {
                assert(a[at_a] < a[a.len() - 1]);
            }
        }
        let a0 = a.drop_last();
        let b0 = b.drop_last();
        assert forall|p: i32| a0.contains(p) <==> b0.contains(p) by {
            if a0.contains(p) {
                let i = choose|i: int| 0 <= i < a0.len() && a0[i] == p;
                assert(a[i] == p && a[i] < a[a.len() - 1]);
                assert(a.contains(p));
                let j = choose|j: int| 0 <= j < b.len() && b[j] == p;
                assert(b0[j] == p);
            }
            if b0.contains(p) {
                let i = choose|i: int| 0 <= i < b0.len() && b0[i] == p;
                assert(b[i] == p && b[i] < b[b.len() - 1]);
                assert(b.contains(p));
                let j = choose|j: int| 0 <= j < a.len() && a[j] == p;
                assert(a0[j] == p);
            }
        }
        ascending_lists_agree(a0, b0);
        assert(a =~= a0.push(x));
        assert(b =~= b0.push(y));
    }
}

/// Two snapshots of the same partitions and outcomes hold the same records.
proof fn records_are_determined(
    first: LagSnapshotView,
    second: LagSnapshotView,
    partitions: Set<i32>,
    results: Map<i32, PartitionOffsets>,
)
    requires
        first.describes(partitions, results),
        second.describes(partitions, results),
    ensures
        first.records == second.records,
{
    let a = first.records.map_values(|record: LagRecord| record.partition);
    let b = second.records.map_values(|record: LagRecord| record.partition);
    assert forall|p: i32| a.contains(p) <==> b.contains(p) by {
        if a.contains(p) {
            let i = choose|i: int| 0 <= i < a.len() && a[i] == p;
            assert(second.has_record(first.records[i].partition));
            let j = choose|j: int|
                0 <= j < second.records.len() && (#[trigger] second.records[j]).partition == p;
            assert(b[j] == p);
        }
        if b.contains(p) {
            let i = choose|i: int| 0 <= i < b.len() && b[i] == p;
            assert(first.has_record(second.records[i].partition));
            let j = choose|j: int|
                0 <= j < first.records.len() && (#[trigger] first.records[j]).partition == p;
            assert(a[j] == p);
        }
    }
    assert(ascending(a)) by {
        assert forall|i: int, j: int| 0 <= i < j < a.len() implies a[i] < a[j] by {
            assert(first.records[i].partition < first.records[j].partition);
        }
    }
    assert(ascending(b)) by {
        assert forall|i: int, j: int| 0 <= i < j < b.len() implies b[i] < b[j] by {
            assert(second.records[i].partition < second.records[j].partition);
        }
    }
    ascending_lists_agree(a, b);
    assert forall|i: int| 0 <= i < first.records.len() implies first.records[i]
        == second.records[i] by {
        assert(a[i] == b[i]);
    }
    assert(first.records =~= second.records);
}

/// Two snapshots of the same partitions and outcomes hold the same
/// diagnostics.
proof fn diagnostics_are_determined(
    first: LagSnapshotView,
    second: LagSnapshotView,
    partitions: Set<i32>,
    results: Map<i32, PartitionOffsets>,
)
    requires
        first.describes(partitions, results),
        second.describes(partitions, results),
    ensures
        first.diagnostics == second.diagnostics,
{
    let a = first.diagnostics.map_values(|diagnostic: Diagnostic| diagnostic.partition);
    let b = second.diagnostics.map_values(|diagnostic: Diagnostic| diagnostic.partition);
    assert forall|p: i32| a.contains(p) <==> b.contains(p) by {
        if a.contains(p) {
            let i = choose|i: int| 0 <= i < a.len() && a[i] == p;
            assert(second.has_diagnostic(first.diagnostics[i].partition));
            let j = choose|j: int|
                0 <= j < second.diagnostics.len() && (#[trigger] second.diagnostics[j]).partition
                    == p;
            assert(b[j] == p);
        }
        if b.contains(p) {
            let i = choose|i: int| 0 <= i < b.len() && b[i] == p;
            assert(first.has_diagnostic(second.diagnostics[i].partition));
            let j = choose|j: int|
                0 <= j < first.diagnostics.len() && (#[trigger] first.diagnostics[j]).partition
                    == p;
            assert(a[j] == p);
        }
    }
    assert(ascending(a)) by {
        assert forall|i: int, j: int| 0 <= i < j < a.len() implies a[i] < a[j] by {
            assert(first.diagnostics[i].partition < first.diagnostics[j].partition);
        }
    }
    assert(ascending(b)) by {
        assert forall|i: int, j: int| 0 <= i < j < b.len() implies b[i] < b[j] by {
            assert(second.diagnostics[i].partition < second.diagnostics[j].partition);
        }
    }
    ascending_lists_agree(a, b);
    assert forall|i: int| 0 <= i < first.diagnostics.len() implies first.diagnostics[i]
        == second.diagnostics[i] by {
        assert(a[i] == b[i]);
    }
    assert(first.diagnostics =~= second.diagnostics);
}

/// The snapshot of a topic under given fetch outcomes is unique. Computing it
/// again from the same topic and the same outcomes gives the same records and
/// the same diagnostics, in the same order.
pub proof fn snapshot_is_determined(
    first: LagSnapshotView,
    second: LagSnapshotView,
    partitions: Set<i32>,
    results: Map<i32, PartitionOffsets>,
)
    requires
        first.describes(partitions, results),
        second.describes(partitions, results),
    ensures
        first.records == second.records,
        first.diagnostics == second.diagnostics,
        first == second,
{
    records_are_determined(first, second, partitions, results);
    diagnostics_are_determined(first, second, partitions, results);
}

/// A reply that answers the round-trip in turn takes the session exactly one
/// round-trip further, whatever the reply says: a failed fetch costs its
/// partition a record, and no other partition anything. Any other reply
/// leaves the session as it is.
pub proof fn every_reply_is_one_round_trip(session: FetchSessionView, reply: Reply)
    requires
        session.well_formed(),
    ensures
        session.after(reply).well_formed(),
        session.after(reply).partitions == session.partitions,
        session.expects(reply) ==> session.after(reply).round_trips_left()
            == session.round_trips_left() - 1,
        !session.expects(reply) ==> session.after(reply) == session,
        session.round_trips_left() >= 0,
        session.round_trips_left() == 0 <==> session.next_step() is Finished,
{
    if session.expects(reply) && reply is Watermarks {
        one_more_is_done(session.partitions, session.done);
    }
}

/// Whether every answer the session holds is the broker's answer.
spec fn holds_the_answers(
    session: FetchSessionView,
    committed: spec_fn(i32) -> CommittedFetch,
    watermarks: spec_fn(i32) -> WatermarkFetch,
) -> bool {
    &&& session.well_formed()
    &&& session.committed matches Some(outcome) ==> outcome == committed(
        session.partitions[session.done],
    )
    &&& forall|p: i32| #[trigger]
        session.results.contains_key(p) ==> session.results[p] == (PartitionOffsets {
            committed: committed(p),
            watermarks: watermarks(p),
        })
}

proof fn driving_keeps_the_answers(
    session: FetchSessionView,
    committed: spec_fn(i32) -> CommittedFetch,
    watermarks: spec_fn(i32) -> WatermarkFetch,
    round_trips: nat,
)
    requires
        holds_the_answers(session, committed, watermarks),
        round_trips >= session.round_trips_left(),
    ensures
        holds_the_answers(driven(session, committed, watermarks, round_trips), committed, watermarks),
        driven(session, committed, watermarks, round_trips).next_step() is Finished,
        driven(session, committed, watermarks, round_trips).partitions == session.partitions,
    decreases round_trips,
{
    let reply = answer(session.next_step(), committed, watermarks);
    every_reply_is_one_round_trip(session, reply);
    if round_trips > 0 {
        let next = session.after(reply);
        assert(holds_the_answers(next, committed, watermarks));
        driving_keeps_the_answers(next, committed, watermarks, (round_trips - 1) as nat);
    }
}

/// A session that is driven to its end holds, for every partition of the
/// topic, both of the broker's answers, failed ones like any other. Two
/// round-trips for each partition are enough, and further ones change
/// nothing.
pub proof fn a_driven_session_holds_every_answer(
    session: FetchSessionView,
    committed: spec_fn(i32) -> CommittedFetch,
    watermarks: spec_fn(i32) -> WatermarkFetch,
    round_trips: nat,
)
    requires
        session.well_formed(),
        session.done == 0,
        session.committed is None,
        round_trips >= 2 * session.partitions.len(),
    ensures
        ({
            let end = driven(session, committed, watermarks, round_trips);
            &&& end.next_step() is Finished
            &&& end.partitions == session.partitions
            &&& end.results.dom() == session.partitions.to_set()
            &&& forall|p: i32| #[trigger]
                end.results.contains_key(p) ==> end.results[p] == (PartitionOffsets {
                    committed: committed(p),
                    watermarks: watermarks(p),
                })
        }),
{
    assert(session.partitions.take(0).to_set() =~= Set::<i32>::empty());
    driving_keeps_the_answers(session, committed, watermarks, round_trips);
    let end = driven(session, committed, watermarks, round_trips);
    assert(end.partitions.take(end.done) =~= end.partitions);
}

} // verus!
