//! The committed-offset round-trip, on the client library's own list type.
//!
//! The client asks for committed offsets with a list of topic partitions and
//! gets the same list back with the offsets filled in. This module makes the
//! list for one partition and reads the answer; sending it is left to the
//! caller.

use rdkafka::topic_partition_list::TopicPartitionList;
use vstd::prelude::*;

use crate::offsets::{committed_among, committed_in, CommittedFetch, OFFSET_INVALID};

verus! {

/// `rdkafka::topic_partition_list::TopicPartitionList`, carried as an opaque
/// value.
#[verifier::external_type_specification]
#[verifier::external_body]
pub struct ExTopicPartitionList(TopicPartitionList);

/// The elements of a list in order: topic, partition, raw offset (as the
/// element's own accessors convert it) and whether an error is flagged on
/// the element.
pub uninterp spec fn list_entries(list: TopicPartitionList) -> Seq<
    (Seq<char>, i32, Option<i64>, bool),
>;

/// The entries that belong to `topic`, without the topic, in the order of the
/// list.
pub open spec fn entries_of_topic(
    entries: Seq<(Seq<char>, i32, Option<i64>, bool)>,
    topic: Seq<char>,
) -> Seq<(i32, Option<i64>, bool)> {
    entries.filter(|entry: (Seq<char>, i32, Option<i64>, bool)| entry.0 == topic).map_values(
        |entry: (Seq<char>, i32, Option<i64>, bool)| (entry.1, entry.2, entry.3),
    )
}

/// `TopicPartitionList::new`. Trusted: the new list has no element.
#[verifier::external_body]
fn new_list() -> (list: TopicPartitionList)
    ensures
        list_entries(list).len() == 0,
{
    TopicPartitionList::new()
}

/// `TopicPartitionList::add_partition`. Trusted: one element is appended for
/// `topic` and `partition`, its offset the invalid one and no error flagged
/// on it, and the elements before it stay. The call aborts on a topic that
/// holds a NUL character, and the list counts its elements in 32 bits: both
/// are kept out.
#[verifier::external_body]
fn add_partition(list: &mut TopicPartitionList, topic: &str, partition: i32)
    requires
        !topic@.contains('\0'),
        list_entries(*old(list)).len() < i32::MAX,
    ensures
        list_entries(*final(list)) == list_entries(*old(list)).push(
            (topic@, partition, Some(OFFSET_INVALID), false),
        ),
{
    list.add_partition(topic, partition);
}

/// `TopicPartitionList::elements_for_topic`, each element handed out as its
/// `partition()`, its `offset().to_raw()` and whether its `error()` is one.
/// Trusted: these are the elements whose topic is `topic`, in the order of
/// the list. The call reads every element's topic as text; a list gets its
/// topics from `&str` values only, and the answer to a request for committed
/// offsets is the request's own list with the offsets filled in.
#[verifier::external_body]
fn offsets_of_topic(list: &TopicPartitionList, topic: &str) -> (entries: Vec<
    (i32, Option<i64>, bool),
>)
    ensures
        entries@ == entries_of_topic(list_entries(*list), topic@),
{
    let elements = list.elements_for_topic(topic);
    elements.iter().map(|e| (e.partition(), e.offset().to_raw(), e.error().is_err())).collect()
}

/// Whether `topic` can name a topic in a request: it holds no NUL character.
pub fn is_sendable(topic: &str) -> (ok: bool)
    ensures
        ok == !topic@.contains('\0'),
{
    for c in it: topic.chars()
        invariant
            it.seq() == topic@,
            forall|j: int| 0 <= j < it.index() ==> topic@[j] != '\0',
    {
        if c == '\0' {
            return false;
        }
    }
    true
}

/// Makes the list that asks for the committed offset of one partition.
///
/// There is no such list for a topic name that holds a NUL character: no
/// topic has such a name, and the client library cannot take it.
pub fn committed_request(topic: &str, partition: i32) -> (request: Option<TopicPartitionList>)
    ensures
        match request {
            Some(list) => !topic@.contains('\0') && list_entries(list) == seq![
                (topic@, partition, Some(OFFSET_INVALID), false),
            ],
            None => topic@.contains('\0'),
        },
{
    if !is_sendable(topic) {
        return None;
    }
    let mut list = new_list();
    add_partition(&mut list, topic, partition);
    Some(list)
}

/// Reads the committed offset of one partition out of the broker's answer.
///
/// The answer's first element for the topic and the partition counts. An
/// offset that is not negative is the group's commit; the invalid offset, or
/// any other negative one, says that the group never committed. An element
/// with an error flagged on it is a failed fetch, and so is an answer that
/// does not mention the partition.
pub fn read_committed(reply: &TopicPartitionList, topic: &str, partition: i32) -> (fetch:
    CommittedFetch)
    ensures
        fetch == committed_among(entries_of_topic(list_entries(*reply), topic@), partition),
{
    let entries = offsets_of_topic(reply, topic);
    committed_in(&entries, partition)
}

} // verus!
