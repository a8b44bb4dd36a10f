use kafka_lag::lag::{Diagnostic, DiagnosticKind, LagRecord};
use kafka_lag::metadata::{PartitionInfo, TopicInfo};
use kafka_lag::offsets::{CommittedFetch, PartitionOffsets, WatermarkFetch};
use kafka_lag::session::{FetchSession, Reply, Step};
use kafka_lag::snapshot::aggregate;

fn topic(partitions: &[i32]) -> TopicInfo {
    TopicInfo {
        name: "orders".to_string(),
        partitions: partitions
            .iter()
            .map(|&partition| PartitionInfo { partition, leader: 0 })
            .collect(),
    }
}

fn high(log_end: i64) -> Reply {
    Reply::Watermarks(WatermarkFetch::Fetched { low: 0, high: log_end })
}

fn drive(
    mut session: FetchSession,
    committed: impl Fn(i32) -> CommittedFetch,
    watermarks: impl Fn(i32) -> WatermarkFetch,
) -> (FetchSession, Vec<Step>) {
    let mut steps = Vec::new();
    loop {
        let step = session.next_step();
        steps.push(step);
        let reply = match step {
            Step::FetchCommitted { partition } => Reply::Committed(committed(partition)),
            Step::FetchWatermarks { partition } => Reply::Watermarks(watermarks(partition)),
            Step::Finished => return (session, steps),
        };
        session = session.advance(reply);
    }
}

#[test]
fn a_session_asks_twice_for_each_partition_in_ascending_order() {
    let session = FetchSession::start(&topic(&[2, 0, 1]));
    let (_, steps) = drive(
        session,
        |_| CommittedFetch::NoCommit,
        |_| WatermarkFetch::Fetched { low: 0, high: 1 },
    );
    assert_eq!(
        steps,
        vec![
            Step::FetchCommitted { partition: 0 },
            Step::FetchWatermarks { partition: 0 },
            Step::FetchCommitted { partition: 1 },
            Step::FetchWatermarks { partition: 1 },
            Step::FetchCommitted { partition: 2 },
            Step::FetchWatermarks { partition: 2 },
            Step::Finished,
        ]
    );
}

#[test]
fn a_session_on_no_partitions_is_finished_at_once() {
    let session = FetchSession::start(&topic(&[]));
    assert_eq!(session.next_step(), Step::Finished);
    let snapshot = session.finish();
    assert!(snapshot.records.is_empty());
    assert!(snapshot.diagnostics.is_empty());
}

#[test]
fn a_partition_listed_twice_is_asked_once() {
    let session = FetchSession::start(&topic(&[4, 4, 4]));
    let (_, steps) = drive(session, |_| CommittedFetch::Failed, |_| WatermarkFetch::Failed);
    assert_eq!(
        steps,
        vec![
            Step::FetchCommitted { partition: 4 },
            Step::FetchWatermarks { partition: 4 },
            Step::Finished,
        ]
    );
}

#[test]
fn failed_fetches_do_not_stop_the_session() {
    let session = FetchSession::start(&topic(&[1, 2, 3]));
    let (session, steps) = drive(
        session,
        |partition| match partition {
            1 => CommittedFetch::Committed(10),
            2 => CommittedFetch::Committed(5),
            _ => CommittedFetch::Committed(7),
        },
        |partition| match partition {
            2 => WatermarkFetch::Failed,
            1 => WatermarkFetch::Fetched { low: 0, high: 30 },
            _ => WatermarkFetch::Fetched { low: 0, high: 7 },
        },
    );
    assert_eq!(steps.len(), 7);

    assert_eq!(session.results().len(), 3);
    assert_eq!(
        session.results().get(&2),
        Some(&PartitionOffsets {
            committed: CommittedFetch::Committed(5),
            watermarks: WatermarkFetch::Failed,
        })
    );

    let snapshot = session.finish();
    assert_eq!(
        snapshot.records,
        vec![
            LagRecord { partition: 1, committed_offset: Some(10), log_end_offset: 30, lag: Some(20) },
            LagRecord { partition: 3, committed_offset: Some(7), log_end_offset: 7, lag: Some(0) },
        ]
    );
    assert_eq!(
        snapshot.diagnostics,
        vec![Diagnostic { partition: 2, kind: DiagnosticKind::WatermarkFetchFailed }]
    );
    assert_eq!(snapshot.record_of(2), None);
    assert_eq!(snapshot.diagnostic_of(2), Some(DiagnosticKind::WatermarkFetchFailed));
    assert_eq!(snapshot.record_of(3).and_then(|r| r.lag), Some(0));
    assert_eq!(snapshot.diagnostic_of(3), None);
}

#[test]
fn a_session_ends_where_aggregate_ends() {
    let topic = topic(&[5, 3, 9]);
    let committed = |partition: i32| match partition {
        3 => CommittedFetch::NoCommit,
        5 => CommittedFetch::Committed(50),
        _ => CommittedFetch::Failed,
    };
    let watermarks = |partition: i32| WatermarkFetch::Fetched {
        low: 0,
        high: 10 * i64::from(partition),
    };
    let (session, _) = drive(FetchSession::start(&topic), committed, watermarks);

    let by_hand = aggregate(&topic, session.results());
    assert_eq!(session.results().len(), 3);
    let snapshot = session.finish();

    assert_eq!(snapshot, by_hand);
    assert_eq!(
        snapshot.records,
        vec![
            LagRecord { partition: 3, committed_offset: None, log_end_offset: 30, lag: None },
            LagRecord { partition: 5, committed_offset: Some(50), log_end_offset: 50, lag: Some(0) },
        ]
    );
    assert_eq!(
        snapshot.diagnostics,
        vec![Diagnostic { partition: 9, kind: DiagnosticKind::OffsetFetchFailed }]
    );
}

#[test]
fn a_reply_out_of_turn_changes_nothing() {
    let session = FetchSession::start(&topic(&[0]));
    assert_eq!(session.next_step(), Step::FetchCommitted { partition: 0 });

    let session = session.advance(high(9));
    assert_eq!(session.next_step(), Step::FetchCommitted { partition: 0 });
    assert!(session.results().is_empty());

    let session = session.advance(Reply::Committed(CommittedFetch::Committed(4)));
    assert_eq!(session.next_step(), Step::FetchWatermarks { partition: 0 });

    let session = session.advance(Reply::Committed(CommittedFetch::Committed(8)));
    assert_eq!(session.next_step(), Step::FetchWatermarks { partition: 0 });

    let session = session.advance(high(9));
    assert_eq!(session.next_step(), Step::Finished);

    let session = session.advance(high(100));
    let session = session.advance(Reply::Committed(CommittedFetch::Failed));
    assert_eq!(session.next_step(), Step::Finished);
    assert_eq!(
        session.finish().records,
        vec![LagRecord { partition: 0, committed_offset: Some(4), log_end_offset: 9, lag: Some(5) }]
    );
}

#[test]
fn a_session_closed_early_reports_what_is_missing() {
    let session = FetchSession::start(&topic(&[0, 1]));
    let session = session.advance(Reply::Committed(CommittedFetch::Committed(1)));
    let session = session.advance(high(3));
    let session = session.advance(Reply::Committed(CommittedFetch::Committed(2)));

    let snapshot = session.finish();

    assert_eq!(
        snapshot.records,
        vec![LagRecord { partition: 0, committed_offset: Some(1), log_end_offset: 3, lag: Some(2) }]
    );
    assert_eq!(
        snapshot.diagnostics,
        vec![Diagnostic { partition: 1, kind: DiagnosticKind::NoOffsetResult }]
    );
}

#[test]
fn lookups_in_a_snapshot() {
    let (session, _) = drive(
        FetchSession::start(&topic(&[0, 1, 2])),
        |partition| match partition {
            0 => CommittedFetch::Committed(100),
            1 => CommittedFetch::NoCommit,
            _ => CommittedFetch::Committed(50),
        },
        |partition| WatermarkFetch::Fetched { low: 0, high: [150, 80, 40][partition as usize] },
    );
    let snapshot = session.finish();

    assert_eq!(snapshot.record_of(0).map(|r| r.lag), Some(Some(50)));
    assert_eq!(snapshot.record_of(1).map(|r| r.lag), Some(None));
    assert_eq!(snapshot.record_of(2).map(|r| r.lag), Some(Some(-10)));
    assert_eq!(snapshot.record_of(3), None);
    assert_eq!(snapshot.diagnostic_of(0), None);
    assert_eq!(snapshot.diagnostic_of(1), None);
    assert_eq!(snapshot.diagnostic_of(2), Some(DiagnosticKind::NegativeLag));
    assert_eq!(snapshot.diagnostic_of(3), None);
}
