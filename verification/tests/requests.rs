use kafka_lag::client::{
    admin_config, metadata_config, offsets_config, METADATA_GROUP, ROUND_TRIP_TIMEOUT_SECS,
};
use kafka_lag::offsets::{CommittedFetch, OFFSET_INVALID};
use kafka_lag::request::{committed_request, is_sendable, read_committed};
use rdkafka::topic_partition_list::{Offset, TopicPartitionList};

#[test]
fn admin_config_names_the_broker() {
    let config = admin_config("localhost:9092");
    assert_eq!(config.get("bootstrap.servers"), Some("localhost:9092"));
    assert_eq!(config.get("group.id"), None);
    assert_eq!(config.config_map().len(), 1);
}

#[test]
fn metadata_config_uses_the_reserved_group() {
    let config = metadata_config("broker-1:9092,broker-2:9092");
    assert_eq!(config.get("bootstrap.servers"), Some("broker-1:9092,broker-2:9092"));
    assert_eq!(config.get("group.id"), Some("metadata_temp_group"));
    assert_eq!(config.get("group.id"), Some(METADATA_GROUP));
    assert_eq!(config.get("enable.partition.eof"), Some("false"));
    assert_eq!(config.get("session.timeout.ms"), None);
    assert_eq!(config.config_map().len(), 3);
}

#[test]
fn offsets_config_uses_the_callers_group() {
    let config = offsets_config("localhost:9092", "billing");
    assert_eq!(config.get("bootstrap.servers"), Some("localhost:9092"));
    assert_eq!(config.get("group.id"), Some("billing"));
    assert_eq!(config.get("enable.partition.eof"), Some("false"));
    assert_eq!(config.get("session.timeout.ms"), Some("6000"));
    assert_eq!(config.config_map().len(), 4);
}

#[test]
fn round_trips_are_bounded_by_five_seconds() {
    assert_eq!(ROUND_TRIP_TIMEOUT_SECS, 5);
}

#[test]
fn committed_request_holds_the_one_partition() {
    let request = committed_request("orders", 3).unwrap();
    assert_eq!(request.count(), 1);
    let elements = request.elements();
    assert_eq!(elements[0].topic(), "orders");
    assert_eq!(elements[0].partition(), 3);
    assert_eq!(elements[0].offset(), Offset::Invalid);
    assert!(elements[0].error().is_ok());
}

#[test]
fn the_invalid_offset_is_the_client_librarys() {
    assert_eq!(Offset::Invalid.to_raw(), Some(OFFSET_INVALID));
    assert_eq!(Offset::from_raw(OFFSET_INVALID), Offset::Invalid);
}

#[test]
fn committed_request_refuses_a_name_with_nul() {
    assert!(committed_request("ord\0ers", 0).is_none());
    assert!(committed_request("\0", 0).is_none());
    assert!(committed_request("", 0).is_some());
}

#[test]
fn sendable_names() {
    assert!(is_sendable("orders"));
    assert!(is_sendable(""));
    assert!(is_sendable("bestellungen-größe"));
    assert!(!is_sendable("orders\0"));
    assert!(!is_sendable("größe\0n"));
}

#[test]
fn an_unanswered_request_reads_as_no_commit() {
    let request = committed_request("orders", 3).unwrap();
    assert_eq!(read_committed(&request, "orders", 3), CommittedFetch::NoCommit);
    assert_eq!(read_committed(&request, "orders", 4), CommittedFetch::Failed);
    assert_eq!(read_committed(&request, "billing", 3), CommittedFetch::Failed);
}

#[test]
fn read_committed_finds_the_partitions_offset() {
    let mut reply = TopicPartitionList::new();
    reply.add_partition_offset("payments", 0, Offset::Offset(5)).unwrap();
    reply.add_partition_offset("orders", 0, Offset::Offset(100)).unwrap();
    reply.add_partition_offset("orders", 1, Offset::Invalid).unwrap();
    reply.add_partition_offset("orders", 2, Offset::Offset(0)).unwrap();

    assert_eq!(read_committed(&reply, "orders", 0), CommittedFetch::Committed(100));
    assert_eq!(read_committed(&reply, "orders", 1), CommittedFetch::NoCommit);
    assert_eq!(read_committed(&reply, "orders", 2), CommittedFetch::Committed(0));
    assert_eq!(read_committed(&reply, "payments", 0), CommittedFetch::Committed(5));
    assert_eq!(read_committed(&reply, "payments", 1), CommittedFetch::Failed);
}

#[test]
fn read_committed_takes_sentinels_for_no_commit() {
    let mut reply = TopicPartitionList::new();
    reply.add_partition_offset("orders", 0, Offset::Beginning).unwrap();
    reply.add_partition_offset("orders", 1, Offset::End).unwrap();
    reply.add_partition_offset("orders", 2, Offset::Stored).unwrap();
    reply.add_partition_offset("orders", 3, Offset::OffsetTail(10)).unwrap();

    for partition in 0..4 {
        assert_eq!(read_committed(&reply, "orders", partition), CommittedFetch::NoCommit);
    }
}

#[test]
fn read_committed_of_an_empty_reply() {
    let reply = TopicPartitionList::new();
    assert_eq!(read_committed(&reply, "orders", 0), CommittedFetch::Failed);
}
