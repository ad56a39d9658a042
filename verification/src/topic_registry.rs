//! A directory of topics and their partitions.
//!
//! A topic is a name together with a fixed set of partitions, numbered
//! `0 .. partition_count`. The [`TopicRegistry`] supports creating, deleting
//! and looking up topics, and assigns a partition to a key by hashing:
//! `partition = hash(key) % partition_count`.

use vstd::prelude::*;
use vstd::string::StrSliceExecFns;
use core::ops::Deref;

verus! {

/// Unique identifier for a topic.
#[derive(Debug, Eq, Hash)]
pub struct TopicId(String);

impl View for TopicId {
    type V = Seq<char>;

    closed spec fn view(&self) -> Seq<char> {
        self.0@
    }
}

impl PartialEq for TopicId {
    fn eq(&self, other: &TopicId) -> (r: bool) {
        self.0 == other.0
    }
}

impl vstd::std_specs::cmp::PartialEqSpecImpl for TopicId {
    open spec fn obeys_eq_spec() -> bool {
        true
    }

    open spec fn eq_spec(&self, other: &TopicId) -> bool {
        self@ == other@
    }
}

impl Clone for TopicId {
    fn clone(&self) -> (r: TopicId)
        ensures
            r == *self,
    {
        TopicId(self.0.clone())
    }
}

impl TopicId {
    pub fn new(name: String) -> (id: TopicId)
        ensures
            id@ == name@,
    {
        TopicId(name)
    }

    pub fn as_str(&self) -> (name: &str)
        ensures
            name@ == self@,
    {
        self.0.deref()
    }
}

/// Unique identifier for a partition within a topic.
#[derive(Debug, Clone, Copy, PartialEq, Eq, Hash, Structural)]
pub struct PartitionId(u32);

impl View for PartitionId {
    type V = u32;

    closed spec fn view(&self) -> u32 {
        self.0
    }
}

impl PartitionId {
    pub fn new(id: u32) -> (p: PartitionId)
        ensures
            p@ == id,
    {
        PartitionId(id)
    }

    pub fn as_u32(&self) -> (id: u32)
        ensures
            id == self@,
    {
        self.0
    }
}

/// A topic: its identifier and its partitions, numbered `0 .. partition_count`.
#[derive(Debug)]
pub struct Topic {
    id: TopicId,
    partition_count: u32,
    partitions: Vec<PartitionId>,
}

impl Topic {
    pub closed spec fn id_spec(self) -> Seq<char> {
        self.id@
    }

    pub closed spec fn count_spec(self) -> u32 {
        self.partition_count
    }

    pub closed spec fn partitions_spec(self) -> Seq<PartitionId> {
        self.partitions@
    }

    /// The partition list is exactly `0 .. partition_count`, in order.
    pub open spec fn wf(self) -> bool {
        &&& self.partitions_spec().len() == self.count_spec()
        &&& forall|i: int|
            0 <= i < self.partitions_spec().len() ==> (#[trigger] self.partitions_spec()[i])@ == i
    }

    pub fn new(id: TopicId, partition_count: u32) -> (topic: Topic)
        ensures
            topic.wf(),
            topic.id_spec() == id@,
            topic.count_spec() == partition_count,
    {
        let mut partitions: Vec<PartitionId> = Vec::new();
        let mut i: u32 = 0;
        while i < partition_count
            invariant
                i <= partition_count,
                partitions@.len() == i,
                forall|j: int| 0 <= j < i ==> (#[trigger] partitions@[j])@ == j,
            decreases partition_count - i,
        {
            partitions.push(PartitionId::new(i));
            i = i + 1;
        }
        Topic { id, partition_count, partitions }
    }

    pub fn id(&self) -> (id: &TopicId)
        ensures
            id@ == self.id_spec(),
    {
        &self.id
    }

    pub fn partition_count(&self) -> (count: u32)
        ensures
            count == self.count_spec(),
    {
        self.partition_count
    }

    pub fn partitions(&self) -> (partitions: &[PartitionId])
        ensures
            partitions@ == self.partitions_spec(),
    {
        self.partitions.as_slice()
    }
}

impl Clone for Topic {
    fn clone(&self) -> (topic: Topic)
        ensures
            topic.id_spec() == self.id_spec(),
            topic.count_spec() == self.count_spec(),
            topic.partitions_spec() == self.partitions_spec(),
    {
        let mut partitions: Vec<PartitionId> = Vec::new();
        let mut i: usize = 0;
        while i < self.partitions.len()
            invariant
                i <= self.partitions@.len(),
                partitions@ == self.partitions@.subrange(0, i as int),
            decreases self.partitions@.len() - i,
        {
            let p = self.partitions[i];
            partitions.push(p);
            proof {
                assert(partitions@ =~= self.partitions@.subrange(0, i + 1));
            }
            i = i + 1;
        }
        proof {
            assert(partitions@ =~= self.partitions@);
        }
        Topic { id: self.id.clone(), partition_count: self.partition_count, partitions }
    }
}

/// Errors returned by registry operations.
#[derive(Debug, PartialEq)]
pub enum TopicRegistryError {
    /// A topic with this identifier is already registered.
    TopicAlreadyExists(TopicId),
    /// No topic with this identifier is registered.
    TopicNotFound(TopicId),
    /// Kept for interface parity with a lock-guarded registry; this registry
    /// never returns it.
    LockPoisoned,
}

impl Clone for TopicRegistryError {
    fn clone(&self) -> (other: TopicRegistryError)
        ensures
            other == *self,
    {
        match self {
            TopicRegistryError::TopicAlreadyExists(id) => TopicRegistryError::TopicAlreadyExists(
                id.clone(),
            ),
            TopicRegistryError::TopicNotFound(id) => TopicRegistryError::TopicNotFound(id.clone()),
            TopicRegistryError::LockPoisoned => TopicRegistryError::LockPoisoned,
        }
    }
}

/// Hash of a key, used to spread keys over a topic's partitions: the
/// accumulator is rotated and the next character folded in, starting from 0.
pub open spec fn hash_chars(s: Seq<char>) -> u64
    decreases s.len(),
{
    if s.len() == 0 {
        0
    } else {
        hash_step(hash_chars(s.drop_last()), s.last())
    }
}

/// One mixing step of [`hash_chars`].
pub open spec fn hash_step(h: u64, c: char) -> u64 {
    ((h << 5) | (h >> 59)) ^ ((c as u32) as u64)
}

/// Computes [`hash_chars`] over the characters of `key`.
fn hash_key(key: &str) -> (h: u64)
    ensures
        h == hash_chars(key@),
{
    let len = key.unicode_len();
    let mut h: u64 = 0;
    let mut i: usize = 0;
    while i < len
        invariant
            i <= len,
            len == key@.len(),
            h == hash_chars(key@.subrange(0, i as int)),
        decreases len - i,
    {
        let c = key.get_char(i);
        h = ((h << 5) | (h >> 59)) ^ ((c as u32) as u64);
        proof {
            let prefix = key@.subrange(0, i + 1);
            assert(prefix.drop_last() =~= key@.subrange(0, i as int));
            assert(prefix.last() == key@[i as int]);
        }
        i = i + 1;
    }
    proof {
        assert(key@.subrange(0, len as int) =~= key@);
    }
    h
}

/// A registry of topics, at most one per identifier.
#[derive(Debug)]
pub struct TopicRegistry {
    topics: Vec<Topic>,
}

impl TopicRegistry {
    /// The registered topics, in creation order.
    pub closed spec fn topics_spec(self) -> Seq<Topic> {
        self.topics@
    }

    pub open spec fn spec_contains(self, id: Seq<char>) -> bool {
        exists|i: int|
            0 <= i < self.topics_spec().len() && (#[trigger] self.topics_spec()[i]).id_spec() == id
    }

    /// Index of the topic with identifier `id`; meaningful only when
    /// `spec_contains(id)` holds.
    pub closed spec fn index_of(self, id: Seq<char>) -> int {
        choose|i: int|
            0 <= i < self.topics_spec().len() && (#[trigger] self.topics_spec()[i]).id_spec() == id
    }

    /// The topic with identifier `id`; meaningful only when
    /// `spec_contains(id)` holds.
    pub open spec fn spec_topic(self, id: Seq<char>) -> Topic {
        self.topics_spec()[self.index_of(id)]
    }

    pub open spec fn spec_partition_count(self, id: Seq<char>) -> u32 {
        self.spec_topic(id).count_spec()
    }

    /// Identifiers are unique and every topic is well formed.
    pub open spec fn wf(self) -> bool {
        &&& forall|i: int, j: int|
            #![trigger self.topics_spec()[i], self.topics_spec()[j]]
            0 <= i < j < self.topics_spec().len() ==> self.topics_spec()[i].id_spec()
                != self.topics_spec()[j].id_spec()
        &&& forall|i: int|
            0 <= i < self.topics_spec().len() ==> (#[trigger] self.topics_spec()[i]).wf()
    }

    /// Creates an empty registry.
    pub fn new() -> (registry: TopicRegistry)
        ensures
            registry.wf(),
            registry.topics_spec().len() == 0,
    {
        TopicRegistry { topics: Vec::new() }
    }

    /// Finds the position of the topic with identifier `topic_id`.
    fn find(&self, topic_id: &TopicId) -> (r: Option<usize>)
        requires
            self.wf(),
        ensures
            match r {
                Some(i) => {
                    &&& self.spec_contains(topic_id@)
                    &&& i < self.topics_spec().len()
                    &&& i == self.index_of(topic_id@)
                    &&& self.topics_spec()[i as int].id_spec() == topic_id@
                },
                None => !self.spec_contains(topic_id@),
            },
    {
        let mut i: usize = 0;
        while i < self.topics.len()
            invariant
                self.wf(),
                i <= self.topics_spec().len(),
                forall|j: int|
                    0 <= j < i ==> (#[trigger] self.topics_spec()[j]).id_spec() != topic_id@,
            decreases self.topics_spec().len() - i,
        {
            if self.topics[i].id.0 == topic_id.0 {
                proof {
                    assert(self.spec_contains(topic_id@));
                    let w = self.index_of(topic_id@);
                    assert(0 <= w < self.topics_spec().len() && self.topics_spec()[w].id_spec()
                        == topic_id@);
                    assert(w == i);
                }
                return Some(i);
            }
            i = i + 1;
        }
        None
    }

    /// The index a contained identifier resolves to is a real position
    /// holding that identifier.
    proof fn lemma_index_of_witness(self, id: Seq<char>)
        requires
            self.spec_contains(id),
        ensures
            0 <= self.index_of(id) < self.topics_spec().len(),
            self.topics_spec()[self.index_of(id)].id_spec() == id,
    {
    }

    /// With unique identifiers, a position is recovered from its topic's
    /// identifier.
    proof fn lemma_index_of_unique(self, i: int)
        requires
            self.wf(),
            0 <= i < self.topics_spec().len(),
        ensures
            self.spec_contains(self.topics_spec()[i].id_spec()),
            self.index_of(self.topics_spec()[i].id_spec()) == i,
    {
        assert(self.spec_contains(self.topics_spec()[i].id_spec()));
        self.lemma_index_of_witness(self.topics_spec()[i].id_spec());
    }

    /// Registers a topic with `partition_count` partitions under `topic_id`,
    /// unless that identifier is already taken; then the registry is left
    /// unchanged and `TopicAlreadyExists` is returned.
    pub fn create_topic(&mut self, topic_id: TopicId, partition_count: u32) -> (result: Result<
        (),
        TopicRegistryError,
    >)
        requires
            old(self).wf(),
        ensures
            final(self).wf(),
            result is Ok <==> !old(self).spec_contains(topic_id@),
            match result {
                Ok(()) => {
                    &&& final(self).topics_spec().len() == old(self).topics_spec().len() + 1
                    &&& final(self).spec_contains(topic_id@)
                    &&& final(self).spec_partition_count(topic_id@) == partition_count
                    &&& forall|other: Seq<char>|
                        other != topic_id@ ==> final(self).spec_contains(other) == old(self).spec_contains(other)
                    &&& forall|other: Seq<char>|
                        other != topic_id@ && old(self).spec_contains(other) ==> final(self).spec_topic(other) == old(self).spec_topic(other)
                },
                Err(e) => {
                    &&& e == TopicRegistryError::TopicAlreadyExists(topic_id)
                    &&& *final(self) == *old(self)
                },
            },
    {
        match self.find(&topic_id) {
            Some(_) => Err(TopicRegistryError::TopicAlreadyExists(topic_id)),
            None => {
                let ghost id = topic_id@;
                let topic = Topic::new(topic_id, partition_count);
                self.topics.push(topic);
                proof {
                    let new_len = self.topics_spec().len() as int;
                    assert forall|a: int, b: int|
                        #![trigger self.topics_spec()[a], self.topics_spec()[b]]
                        0 <= a < b < new_len implies self.topics_spec()[a].id_spec()
                        != self.topics_spec()[b].id_spec() by {
                        assert(self.topics_spec()[a] == old(self).topics_spec()[a]);
                        if b < new_len - 1 {
                            assert(self.topics_spec()[b] == old(self).topics_spec()[b]);
                            assert(old(self).topics_spec()[a].id_spec() != old(self).topics_spec()[b].id_spec());
                        } else {
                            assert(self.topics_spec()[b].id_spec() == id);
                            assert(old(self).topics_spec()[a].id_spec() != id);
                        }
                    }
                    assert forall|a: int| 0 <= a < new_len implies (#[trigger] self.topics_spec()[a]).wf() by {
                        if a < new_len - 1 {
                            assert(self.topics_spec()[a] == old(self).topics_spec()[a]);
                            assert(old(self).topics_spec()[a].wf());
                        }
                    }
                    self.lemma_index_of_unique(new_len - 1);
                    assert forall|other: Seq<char>|
                        other != id && old(self).spec_contains(other) implies #[trigger] final(self).spec_contains(other) by {
                        let w = old(self).index_of(other);
                        old(self).lemma_index_of_witness(other);
                        assert(self.topics_spec()[w].id_spec() == other);
                    }
                    assert forall|other: Seq<char>|
                        other != id && final(self).spec_contains(other) implies old(self).spec_contains(other) by {
                        let w = self.index_of(other);
                        self.lemma_index_of_witness(other);
                        assert(old(self).topics_spec()[w].id_spec() == other);
                    }
                    assert forall|other: Seq<char>|
                        other != id && old(self).spec_contains(other) implies #[trigger] final(self).spec_topic(other) == old(self).spec_topic(other) by {
                        let w_old = old(self).index_of(other);
                        old(self).lemma_index_of_witness(other);
                        assert(self.topics_spec()[w_old].id_spec() == other);
                        self.lemma_index_of_unique(w_old);
                    }
                }
                Ok(())
            },
        }
    }

    /// Removes the topic registered under `topic_id`, unless there is none;
    /// then the registry is left unchanged and `TopicNotFound` is returned.
    pub fn delete_topic(&mut self, topic_id: &TopicId) -> (result: Result<
        (),
        TopicRegistryError,
    >)
        requires
            old(self).wf(),
        ensures
            final(self).wf(),
            result is Ok <==> old(self).spec_contains(topic_id@),
            match result {
                Ok(()) => {
                    &&& final(self).topics_spec().len() == old(self).topics_spec().len() - 1
                    &&& !final(self).spec_contains(topic_id@)
                    &&& final(self).topics_spec() == old(self).topics_spec().remove(
                        old(self).index_of(topic_id@),
                    )
                    &&& forall|other: Seq<char>|
                        other != topic_id@ ==> final(self).spec_contains(other) == old(self).spec_contains(other)
                    &&& forall|other: Seq<char>|
                        other != topic_id@ && old(self).spec_contains(other) ==> final(self).spec_topic(other) == old(self).spec_topic(other)
                },
                Err(e) => {
                    &&& e == TopicRegistryError::TopicNotFound(*topic_id)
                    &&& *final(self) == *old(self)
                },
            },
    {
        match self.find(topic_id) {
            Some(i) => {
                let ghost id = topic_id@;
                let ghost removed = i as int;
                self.topics.remove(i);
                proof {
                    let new_len = self.topics_spec().len() as int;
                    assert forall|a: int|
                        0 <= a < new_len implies (#[trigger] self.topics_spec()[a]) == if a
                            < removed {
                            old(self).topics_spec()[a]
                        } else {
                            old(self).topics_spec()[a + 1]
                        } by {}
                    assert forall|a: int, b: int|
                        #![trigger self.topics_spec()[a], self.topics_spec()[b]]
                        0 <= a < b < new_len implies self.topics_spec()[a].id_spec()
                        != self.topics_spec()[b].id_spec() by {}
                    assert forall|a: int|
                        0 <= a < new_len implies (#[trigger] self.topics_spec()[a]).id_spec()
                            != id by {}
                    assert(!final(self).spec_contains(id));
                    assert forall|other: Seq<char>|
                        other != id && old(self).spec_contains(other) implies #[trigger] final(self).spec_contains(other) by {
                        let w = old(self).index_of(other);
                        old(self).lemma_index_of_witness(other);
                        if w < removed {
                            assert(self.topics_spec()[w].id_spec() == other);
                        } else {
                            assert(self.topics_spec()[w - 1].id_spec() == other);
                        }
                    }
                    assert forall|other: Seq<char>|
                        other != id && final(self).spec_contains(other) implies old(self).spec_contains(other) by {
                        let w = self.index_of(other);
                        self.lemma_index_of_witness(other);
                        if w < removed {
                            assert(old(self).topics_spec()[w].id_spec() == other);
                        } else {
                            assert(old(self).topics_spec()[w + 1].id_spec() == other);
                        }
                    }
                    assert forall|other: Seq<char>|
                        other != id && old(self).spec_contains(other) implies #[trigger] final(self).spec_topic(other) == old(self).spec_topic(other) by {
                        let w = old(self).index_of(other);
                        old(self).lemma_index_of_witness(other);
                        if w < removed {
                            assert(self.topics_spec()[w] == old(self).topics_spec()[w]);
                            self.lemma_index_of_unique(w);
                        } else {
                            assert(self.topics_spec()[w - 1] == old(self).topics_spec()[w]);
                            self.lemma_index_of_unique(w - 1);
                        }
                    }
                }
                Ok(())
            },
            None => Err(TopicRegistryError::TopicNotFound(topic_id.clone())),
        }
    }

    /// Looks up the topic registered under `topic_id`, returning a copy of
    /// it, or `None` when there is none. The result is always `Ok`: the
    /// registry has no failure mode of its own.
    pub fn get_topic(&self, topic_id: &TopicId) -> (result: Result<
        Option<Topic>,
        TopicRegistryError,
    >)
        requires
            self.wf(),
        ensures
            match result {
                Ok(Some(topic)) => {
                    &&& self.spec_contains(topic_id@)
                    &&& topic.wf()
                    &&& topic.id_spec() == topic_id@
                    &&& topic.count_spec() == self.spec_partition_count(topic_id@)
                    &&& topic.partitions_spec() == self.spec_topic(topic_id@).partitions_spec()
                },
                Ok(None) => !self.spec_contains(topic_id@),
                Err(_) => false,
            },
    {
        match self.find(topic_id) {
            Some(i) => Ok(Some(self.topics[i].clone())),
            None => Ok(None),
        }
    }

    /// Lists copies of all topics, in creation order. The result is always
    /// `Ok`: the registry has no failure mode of its own.
    pub fn list_topics(&self) -> (result: Result<Vec<Topic>, TopicRegistryError>)
        requires
            self.wf(),
        ensures
            match result {
                Ok(topics) => {
                    &&& topics@.len() == self.topics_spec().len()
                    &&& forall|i: int|
                        0 <= i < topics@.len() ==> {
                            &&& (#[trigger] topics@[i]).wf()
                            &&& topics@[i].id_spec() == self.topics_spec()[i].id_spec()
                            &&& topics@[i].count_spec() == self.topics_spec()[i].count_spec()
                        }
                },
                Err(_) => false,
            },
    {
        let mut topics: Vec<Topic> = Vec::new();
        let mut i: usize = 0;
        while i < self.topics.len()
            invariant
                self.wf(),
                i <= self.topics_spec().len(),
                topics@.len() == i,
                forall|j: int|
                    0 <= j < i ==> {
                        &&& (#[trigger] topics@[j]).wf()
                        &&& topics@[j].id_spec() == self.topics_spec()[j].id_spec()
                        &&& topics@[j].count_spec() == self.topics_spec()[j].count_spec()
                    },
            decreases self.topics_spec().len() - i,
        {
            topics.push(self.topics[i].clone());
            i = i + 1;
        }
        Ok(topics)
    }

    /// Returns how many partitions the topic registered under `topic_id`
    /// has, or `TopicNotFound` when there is none.
    pub fn get_partition_count(&self, topic_id: &TopicId) -> (result: Result<
        u32,
        TopicRegistryError,
    >)
        requires
            self.wf(),
        ensures
            result is Ok <==> self.spec_contains(topic_id@),
            match result {
                Ok(count) => count == self.spec_partition_count(topic_id@),
                Err(e) => e == TopicRegistryError::TopicNotFound(*topic_id),
            },
    {
        match self.find(topic_id) {
            Some(i) => Ok(self.topics[i].partition_count()),
            None => Err(TopicRegistryError::TopicNotFound(topic_id.clone())),
        }
    }

    /// Assigns a partition of the topic registered under `topic_id` to
    /// `key`, by hashing the key modulo the partition count, or returns
    /// `TopicNotFound` when there is no such topic. Equal keys always map to
    /// the same partition.
    pub fn assign_partition(&self, topic_id: &TopicId, key: &str) -> (result: Result<
        PartitionId,
        TopicRegistryError,
    >)
        requires
            self.wf(),
            self.spec_contains(topic_id@) ==> self.spec_partition_count(topic_id@) > 0,
        ensures
            result is Ok <==> self.spec_contains(topic_id@),
            match result {
                Ok(partition) => {
                    &&& partition@ == hash_chars(key@) % (self.spec_partition_count(topic_id@)
                        as u64)
                    &&& partition@ < self.spec_partition_count(topic_id@)
                },
                Err(e) => e == TopicRegistryError::TopicNotFound(*topic_id),
            },
    {
        match self.find(topic_id) {
            Some(i) => {
                let count = self.topics[i].partition_count();
                let hash = hash_key(key);
                let partition_index = (hash % (count as u64)) as u32;
                Ok(PartitionId::new(partition_index))
            },
            None => Err(TopicRegistryError::TopicNotFound(topic_id.clone())),
        }
    }
}

} // verus!
