//! Topics and partitions as the broker describes them.

use vstd::prelude::*;

use crate::error::LagError;

verus! {

/// One partition of a topic.
#[derive(Clone, Copy, Debug, PartialEq, Eq, Structural)]
pub struct PartitionInfo {
    /// The partition's number within its topic.
    pub partition: i32,
    /// The broker that leads the partition, `-1` while none is elected.
    pub leader: i32,
}

/// A topic and its partitions, in the order the broker listed them.
#[derive(Clone, Debug, PartialEq, Eq)]
pub struct TopicInfo {
    pub name: String,
    /// The partitions as listed. Their order says nothing; it is kept so
    /// that a listing looks the same from one query to the next.
    pub partitions: Vec<PartitionInfo>,
}

/// A topic as a mathematical value.
pub ghost struct TopicInfoView {
    pub name: Seq<char>,
    pub partitions: Seq<PartitionInfo>,
}

impl View for TopicInfo {
    type V = TopicInfoView;

    open spec fn view(&self) -> TopicInfoView {
        TopicInfoView { name: self.name@, partitions: self.partitions@ }
    }
}

impl TopicInfoView {
    /// Whether the topic lists a partition numbered `partition`.
    pub open spec fn has_partition(self, partition: i32) -> bool {
        exists|i: int|
            0 <= i < self.partitions.len() && (#[trigger] self.partitions[i]).partition
                == partition
    }

    /// The numbers of the topic's partitions.
    pub open spec fn partition_ids(self) -> Set<i32> {
        Set::new(|partition: i32| self.has_partition(partition))
    }

    /// The invariant of a broker's answer: partition numbers are not negative
    /// and none occurs twice.
    pub open spec fn well_formed(self) -> bool {
        &&& forall|i: int|
            0 <= i < self.partitions.len() ==> (#[trigger] self.partitions[i]).partition >= 0
        &&& forall|i: int, j: int|
            0 <= i < j < self.partitions.len() ==> (#[trigger] self.partitions[i]).partition != (
            #[trigger] self.partitions[j]).partition
    }
}

/// The position of the first topic named `name`, if there is one.
pub open spec fn first_named(topics: Seq<TopicInfo>, name: Seq<char>) -> Option<int> {
    if exists|i: int| 0 <= i < topics.len() && (#[trigger] topics[i]).name@ == name {
        Some(
            choose|i: int|
                0 <= i < topics.len() && (#[trigger] topics[i]).name@ == name && forall|j: int|
                    0 <= j < i ==> (#[trigger] topics[j]).name@ != name,
        )
    } else {
        None
    }
}

impl TopicInfo {
    /// Checks the invariant of a broker's answer on this topic.
    pub fn is_well_formed(&self) -> (ok: bool)
        ensures
            ok == self@.well_formed(),
    {
        let n = self.partitions.len();
        let mut i: usize = 0;
        while i < n
            invariant
                n == self.partitions.len(),
                i <= n,
                forall|a: int| 0 <= a < i ==> (#[trigger] self.partitions[a]).partition >= 0,
                forall|a: int, b: int|
                    0 <= a < b < i ==> (#[trigger] self.partitions[a]).partition != (
                    #[trigger] self.partitions[b]).partition,
            decreases n - i,
        {
            if self.partitions[i].partition < 0 {
                assert(self@.partitions[i as int].partition < 0);
                return false;
            }
            let mut k: usize = 0;
            while k < i
                invariant
                    n == self.partitions.len(),
                    k <= i < n,
                    forall|a: int|
                        0 <= a < k ==> (#[trigger] self.partitions[a]).partition
                            != self.partitions[i as int].partition,
                decreases i - k,
            {
                if self.partitions[k].partition == self.partitions[i].partition {
                    assert(self@.partitions[k as int].partition
                        == self@.partitions[i as int].partition);
                    return false;
                }
                k += 1;
            }
            i += 1;
        }
        true
    }
}

/// Finds the topic named `name` among the topics a broker listed.
///
/// The first topic of that name is returned; a broker that lists none makes
/// the whole computation fail with [`LagError::TopicNotFound`].
pub fn find_topic<'a>(topics: &'a Vec<TopicInfo>, name: &str) -> (found: Result<
    &'a TopicInfo,
    LagError,
>)
    ensures
        match found {
            Ok(topic) => first_named(topics@, name@) matches Some(i) && *topic == topics@[i],
            Err(e) => e == LagError::TopicNotFound && first_named(topics@, name@) is None,
        },
{
    let wanted = name.to_owned();
    let n = topics.len();
    let mut i: usize = 0;
    while i < n
        invariant
            n == topics.len(),
            i <= n,
            wanted@ == name@,
            forall|j: int| 0 <= j < i ==> (#[trigger] topics[j]).name@ != name@,
        decreases n - i,
    {
        if topics[i].name == wanted {
            return Ok(&topics[i]);
        }
        i += 1;
    }
    Err(LagError::TopicNotFound)
}

/// Settles which topic a lag computation is about.
///
/// `listed` is what the metadata query brought back: `None` when the broker
/// could not be reached, otherwise every topic it knows. The result is the
/// requested topic, or the reason why the computation cannot go on.
pub fn resolve<'a>(listed: Option<&'a Vec<TopicInfo>>, name: &str) -> (found: Result<
    &'a TopicInfo,
    LagError,
>)
    ensures
        match found {
            Ok(topic) => listed matches Some(topics) && first_named(topics@, name@) matches Some(
                i,
            ) && *topic == topics@[i],
            Err(LagError::Connection) => listed is None,
            Err(LagError::TopicNotFound) => listed matches Some(topics) && first_named(
                topics@,
                name@,
            ) is None,
        },
{
    match listed {
        None => Err(LagError::Connection),
        Some(topics) => find_topic(topics, name),
    }
}

} // verus!
