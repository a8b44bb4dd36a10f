//! Consumer-group lag for one Kafka topic.
//!
//! The crate turns what a broker said about a topic (its partitions, the
//! offsets a consumer group committed, the end of each partition's log) into
//! one ordered snapshot of per-partition lag. Talking to the broker is the
//! caller's business: the crate says which round-trip to make next, builds
//! what is sent, reads what comes back, and computes.
//!
//! - [`metadata`]: topics and partitions, and finding the topic asked for.
//! - [`client`]: the settings of the broker sessions.
//! - [`request`]: the committed-offset request and its answer.
//! - [`offsets`]: the outcomes of the two fetches of a partition.
//! - [`session`]: the order of the round-trips.
//! - [`lag`]: the lag of one partition.
//! - [`snapshot`]: the snapshot of a whole topic.
//! - [`laws`]: what holds of every snapshot and every session.
//!
//! Every function is verified against its contract. The contracts of the few
//! calls into the client library, in [`client`] and [`request`], are taken on
//! trust; each says so.

pub mod client;
pub mod error;
pub mod lag;
pub mod laws;
pub mod metadata;
pub mod offsets;
pub mod request;
pub mod session;
pub mod snapshot;

pub use crate::error::LagError;
pub use crate::lag::{Diagnostic, DiagnosticKind, LagRecord, PartitionReport};
pub use crate::metadata::{PartitionInfo, TopicInfo};
pub use crate::offsets::{CommittedFetch, PartitionOffsets, WatermarkFetch};
pub use crate::session::{FetchSession, Reply, Step};
pub use crate::snapshot::LagSnapshot;
