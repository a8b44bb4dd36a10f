//! Lag of a single partition.

use vstd::prelude::*;

use crate::offsets::{CommittedFetch, PartitionOffsets, WatermarkFetch};

verus! {

/// How far a group is behind on one partition.
///
/// `lag` is `log_end_offset - committed_offset`. It is absent when the group
/// never committed: the lag is then unknown, which is not the same as zero. A
/// negative lag is reported as it is.
#[derive(Clone, Copy, Debug, PartialEq, Eq, Structural)]
pub struct LagRecord {
    pub partition: i32,
    pub committed_offset: Option<i64>,
    pub log_end_offset: i64,
    pub lag: Option<i64>,
}

/// What went wrong, or looks wrong, on one partition.
#[derive(Clone, Copy, Debug, PartialEq, Eq, Structural)]
pub enum DiagnosticKind {
    /// Nothing at all is known about the partition's offsets: no result was
    /// handed in for it, or both round-trips failed.
    NoOffsetResult,
    /// The committed offset could not be fetched.
    OffsetFetchFailed,
    /// The watermarks could not be fetched.
    WatermarkFetchFailed,
    /// The committed offset lies beyond the log end that was read: the two
    /// reads were taken at different moments, or the log end went backwards.
    NegativeLag,
    /// The difference of the two offsets does not fit in 64 bits.
    LagOutOfRange,
}

/// A diagnostic and the partition it is about.
#[derive(Clone, Copy, Debug, PartialEq, Eq, Structural)]
pub struct Diagnostic {
    pub partition: i32,
    pub kind: DiagnosticKind,
}

/// Everything a snapshot says about one partition: a record when both
/// offsets' fetches succeeded, and a diagnostic when something is amiss.
#[derive(Clone, Copy, Debug, PartialEq, Eq, Structural)]
pub struct PartitionReport {
    pub record: Option<LagRecord>,
    pub diagnostic: Option<DiagnosticKind>,
}

/// `log_end_offset - committed_offset` where that fits in an `i64`.
pub open spec fn lag_between(committed_offset: i64, log_end_offset: i64) -> Option<i64> {
    let lag = log_end_offset - committed_offset;
    if i64::MIN <= lag <= i64::MAX {
        Some(lag as i64)
    } else {
        None
    }
}

/// The record of a partition whose two fetches both succeeded.
pub open spec fn measured(partition: i32, committed_offset: Option<i64>, log_end_offset: i64)
    -> LagRecord {
    LagRecord {
        partition,
        committed_offset,
        log_end_offset,
        lag: match committed_offset {
            Some(offset) => lag_between(offset, log_end_offset),
            None => None,
        },
    }
}

/// The anomaly, if any, in a partition's pair of offsets.
pub open spec fn anomaly_of(committed_offset: Option<i64>, log_end_offset: i64) -> Option<
    DiagnosticKind,
> {
    match committed_offset {
        Some(offset) => match lag_between(offset, log_end_offset) {
            Some(lag) => if lag < 0 {
                Some(DiagnosticKind::NegativeLag)
            } else {
                None
            },
            None => Some(DiagnosticKind::LagOutOfRange),
        },
        None => None,
    }
}

/// What a snapshot says about `partition`, given the outcome of its fetches
/// (`None` when no outcome was handed in for it).
pub open spec fn report_of(partition: i32, offsets: Option<PartitionOffsets>) -> PartitionReport {
    match offsets {
        None => PartitionReport {
            record: None,
            diagnostic: Some(DiagnosticKind::NoOffsetResult),
        },
        Some(fetched) => match fetched.watermarks {
            WatermarkFetch::Failed => PartitionReport {
                record: None,
                diagnostic: Some(
                    if fetched.committed == CommittedFetch::Failed {
                        DiagnosticKind::NoOffsetResult
                    } else {
                        DiagnosticKind::WatermarkFetchFailed
                    },
                ),
            },
            WatermarkFetch::Fetched { low, high } => match fetched.committed {
                CommittedFetch::Failed => PartitionReport {
                    record: None,
                    diagnostic: Some(DiagnosticKind::OffsetFetchFailed),
                },
                CommittedFetch::NoCommit => PartitionReport {
                    record: Some(measured(partition, None, high)),
                    diagnostic: None,
                },
                CommittedFetch::Committed(offset) => PartitionReport {
                    record: Some(measured(partition, Some(offset), high)),
                    diagnostic: anomaly_of(Some(offset), high),
                },
            },
        },
    }
}

impl LagRecord {
    /// The invariant of a record: the lag is the difference of the two
    /// offsets whenever there are two offsets, and absent otherwise.
    pub open spec fn well_formed(self) -> bool {
        self == measured(self.partition, self.committed_offset, self.log_end_offset)
    }

    /// Computes the record of a partition from its two offsets.
    pub fn measure(partition: i32, committed_offset: Option<i64>, log_end_offset: i64) -> (record:
        LagRecord)
        ensures
            record == measured(partition, committed_offset, log_end_offset),
            record.well_formed(),
    {
        let lag = match committed_offset {
            Some(offset) => log_end_offset.checked_sub(offset),
            None => None,
        };
        LagRecord { partition, committed_offset, log_end_offset, lag }
    }

    /// Tells whether the record's offsets are out of the ordinary, and how.
    pub fn anomaly(&self) -> (kind: Option<DiagnosticKind>)
        ensures
            kind == anomaly_of(self.committed_offset, self.log_end_offset),
    {
        match self.committed_offset {
            None => None,
            Some(offset) => match self.log_end_offset.checked_sub(offset) {
                None => Some(DiagnosticKind::LagOutOfRange),
                Some(lag) => if lag < 0 {
                    Some(DiagnosticKind::NegativeLag)
                } else {
                    None
                },
            },
        }
    }
}

/// Works out what to report about one partition.
///
/// A failed fetch never stops the computation: the partition gets a
/// diagnostic in place of a record. A record is made whenever the log end is
/// known, with the lag left out when the group has no committed offset.
pub fn report_partition(partition: i32, offsets: Option<&PartitionOffsets>) -> (report:
    PartitionReport)
    ensures
        report == report_of(
            partition,
            match offsets {
                Some(fetched) => Some(*fetched),
                None => None,
            },
        ),
{
    match offsets {
        None => PartitionReport { record: None, diagnostic: Some(DiagnosticKind::NoOffsetResult) },
        Some(fetched) => match fetched.watermarks {
            WatermarkFetch::Failed => {
                let kind = match fetched.committed {
                    CommittedFetch::Failed => DiagnosticKind::NoOffsetResult,
                    _ => DiagnosticKind::WatermarkFetchFailed,
                };
                PartitionReport { record: None, diagnostic: Some(kind) }
            },
            WatermarkFetch::Fetched { low: _, high } => match fetched.committed {
                CommittedFetch::Failed => PartitionReport {
                    record: None,
                    diagnostic: Some(DiagnosticKind::OffsetFetchFailed),
                },
                CommittedFetch::NoCommit => PartitionReport {
                    record: Some(LagRecord::measure(partition, None, high)),
                    diagnostic: None,
                },
                CommittedFetch::Committed(offset) => {
                    let record = LagRecord::measure(partition, Some(offset), high);
                    PartitionReport { record: Some(record), diagnostic: record.anomaly() }
                },
            },
        },
    }
}

} // verus!
