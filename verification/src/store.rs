//! The topic store: a fixed set of named topics, each with a FIFO queue of
//! payloads.

use crate::queue::{queue_add, queue_items, queue_new, queue_remove, queue_size};
use crate::text::texts_of;
use queues::Queue;
use vstd::hash_map::StringHashMap;
use vstd::prelude::*;

verus! {

/// What a store holds: for each topic name, the payloads of its queue, oldest
/// first.
pub type Topics = Map<Seq<char>, Seq<Seq<char>>>;

/// The topics that `names` provision, in order: each non-empty name, where
/// it first occurs.
pub open spec fn provision_order(names: Seq<Seq<char>>) -> Seq<Seq<char>>
    decreases names.len(),
{
    if names.len() == 0 {
        Seq::empty()
    } else {
        let earlier = provision_order(names.drop_last());
        let name = names.last();
        if name.len() == 0 || earlier.contains(name) {
            earlier
        } else {
            earlier.push(name)
        }
    }
}

/// A store fresh from `names`: one empty queue for each non-empty name.
pub open spec fn provisioned(names: Seq<Seq<char>>) -> Topics {
    Map::new(
        |name: Seq<char>| name.len() > 0 && names.contains(name),
        |name: Seq<char>| Seq::<Seq<char>>::empty(),
    )
}

/// The store after a publish: `value` at the back of the queue of `topic`;
/// nothing changes where the topic is unknown.
pub open spec fn after_publish(topics: Topics, topic: Seq<char>, value: Seq<char>) -> Topics {
    if topics.contains_key(topic) {
        topics.insert(topic, topics[topic].push(value))
    } else {
        topics
    }
}

/// The store after a consume: the queue of `topic` without its oldest value;
/// nothing changes where the topic is unknown or its queue is empty.
pub open spec fn after_consume(topics: Topics, topic: Seq<char>) -> Topics {
    if topics.contains_key(topic) && topics[topic].len() > 0 {
        topics.insert(topic, topics[topic].drop_first())
    } else {
        topics
    }
}

/// What a consume finds.
#[derive(Debug, Clone, PartialEq, Eq)]
pub enum Consumed {
    /// The store has no such topic.
    UnknownTopic,
    /// The topic is known and its queue holds nothing.
    Empty,
    /// The oldest value of the topic's queue, now removed from it.
    Value(String),
}

/// What a consume finds, over plain text.
pub enum ConsumedModel {
    UnknownTopic,
    Empty,
    Value(Seq<char>),
}

impl View for Consumed {
    type V = ConsumedModel;

    open spec fn view(&self) -> ConsumedModel {
        match *self {
            Consumed::UnknownTopic => ConsumedModel::UnknownTopic,
            Consumed::Empty => ConsumedModel::Empty,
            Consumed::Value(value) => ConsumedModel::Value(value@),
        }
    }
}

/// What a consume on `topic` finds in `topics`.
pub open spec fn found_by_consume(topics: Topics, topic: Seq<char>) -> ConsumedModel {
    if !topics.contains_key(topic) {
        ConsumedModel::UnknownTopic
    } else if topics[topic].len() == 0 {
        ConsumedModel::Empty
    } else {
        ConsumedModel::Value(topics[topic].first())
    }
}

/// A topic's name and the number of payloads that wait in its queue.
#[derive(Debug, Clone, PartialEq, Eq)]
pub struct TopicSize {
    pub topic: String,
    pub size: usize,
}

/// The topics of a broker and their queues.
pub struct TopicStore {
    slots: StringHashMap<usize>,
    names: Vec<String>,
    queues: Vec<Queue<String>>,
}

impl View for TopicStore {
    type V = Topics;

    closed spec fn view(&self) -> Topics {
        Map::new(
            |name: Seq<char>| self.slots@.contains_key(name),
            |name: Seq<char>| queue_items(self.queues@[self.slots@[name] as int]),
        )
    }
}

impl TopicStore {
    #[verifier::type_invariant]
    spec fn well_formed(&self) -> bool {
        &&& self.names.len() == self.queues.len()
        &&& forall|i: int|
            0 <= i < self.names.len() ==> self.slots@.contains_key((#[trigger] self.names@[i])@)
                && self.slots@[self.names@[i]@] == i
        &&& forall|name: Seq<char>| #[trigger]
            self.slots@.contains_key(name) ==> self.slots@[name] < self.names.len()
                && self.names@[self.slots@[name] as int]@ == name
    }

    /// The names of the topics, in the order in which they were provisioned.
    pub closed spec fn topics(&self) -> Seq<Seq<char>> {
        texts_of(self.names@)
    }

    /// A store with one empty queue for each non-empty name of `names`; a
    /// name that occurs again is the same topic.
    pub fn new(names: Vec<String>) -> (store: TopicStore)
        ensures
            store@ == provisioned(texts_of(names@)),
            store.topics() == provision_order(texts_of(names@)),
    {
        let mut slots: StringHashMap<usize> = StringHashMap::new();
        let mut kept: Vec<String> = Vec::new();
        let mut queues: Vec<Queue<String>> = Vec::new();
        let ghost texts = texts_of(names@);
        let mut i: usize = 0;
        while i < names.len()
            invariant
                i <= names.len(),
                texts == texts_of(names@),
                kept.len() == queues.len(),
                texts_of(kept@) == provision_order(texts.take(i as int)),
                forall|j: int|
                    0 <= j < kept.len() ==> slots@.contains_key((#[trigger] kept@[j])@)
                        && slots@[kept@[j]@] == j,
                forall|name: Seq<char>| #[trigger]
                    slots@.contains_key(name) ==> slots@[name] < kept.len() && kept@[slots@[name] as int]@
                        == name,
                forall|j: int| 0 <= j < queues.len() ==> queue_items(#[trigger] queues@[j]).len() == 0,
            decreases names.len() - i,
        {
            let name = &names[i];
            proof {
                assert(texts.take(i + 1).drop_last() =~= texts.take(i as int));
                assert(texts.take(i + 1).last() == name@);
                lemma_provision_order(texts.take(i as int));
                assert forall|k: Seq<char>| slots@.contains_key(k) <==> texts_of(
                    kept@,
                ).contains(k) by {
                    if slots@.contains_key(k) {
                        assert(texts_of(kept@)[slots@[k] as int] == k);
                    }
                }
            }
            if !name.as_str().is_empty() && !slots.contains_key(name.as_str()) {
                let ghost before = kept@;
                slots.insert(name.clone(), kept.len());
                kept.push(name.clone());
                queues.push(queue_new());
                proof {
                    assert(texts_of(kept@) =~= texts_of(before).push(name@));
                }
            }
            i += 1;
        }
        proof {
            assert(texts.take(i as int) =~= texts);
            lemma_provision_order(texts);
            let store_view = Map::new(
                |name: Seq<char>| slots@.contains_key(name),
                |name: Seq<char>| queue_items(queues@[slots@[name] as int]),
            );
            assert forall|k: Seq<char>| slots@.contains_key(k) <==> texts_of(kept@).contains(
                k,
            ) by {
                if slots@.contains_key(k) {
                    assert(texts_of(kept@)[slots@[k] as int] == k);
                }
            }
            assert forall|k: Seq<char>| store_view.contains_key(k) implies #[trigger] store_view[k]
                == Seq::<Seq<char>>::empty() by {
                assert(queue_items(queues@[slots@[k] as int]) =~= Seq::<Seq<char>>::empty());
            }
            assert forall|k: Seq<char>|
                store_view.contains_key(k) <==> provisioned(texts).contains_key(k) by {
                assert(provision_order(texts).contains(k) <==> k.len() > 0 && texts.contains(k));
            }
            assert(store_view =~= provisioned(texts));
        }
        TopicStore { slots, names: kept, queues }
    }

    /// Whether `topic` names a topic of the store.
    pub fn contains(&self, topic: &str) -> (known: bool)
        ensures
            known == self@.contains_key(topic@),
    {
        self.slots.contains_key(topic)
    }

    /// The number of topics.
    pub fn len(&self) -> (n: usize)
        ensures
            n == self.topics().len(),
    {
        self.names.len()
    }

    /// The number of payloads that wait in the queue of `topic`, if the
    /// store has that topic.
    pub fn size(&self, topic: &str) -> (size: Option<usize>)
        ensures
            match size {
                Some(n) => self@.contains_key(topic@) && n == self@[topic@].len(),
                None => !self@.contains_key(topic@),
            },
    {
        proof {
            use_type_invariant(self);
        }
        match self.slots.get(topic) {
            Some(slot) => Some(queue_size(&self.queues[*slot])),
            None => None,
        }
    }

    /// Appends `value` to the queue of `topic` and says whether the store
    /// has that topic. Where it has not, nothing changes.
    pub fn publish(&mut self, topic: &str, value: String) -> (known: bool)
        ensures
            known == old(self)@.contains_key(topic@),
            final(self)@ == after_publish(old(self)@, topic@, value@),
            final(self).topics() == old(self).topics(),
    {
        proof {
            use_type_invariant(&*self);
        }
        let slot = match self.slots.get(topic) {
            Some(slot) => *slot,
            None => {
                return false;
            },
        };
        queue_add(&mut self.queues[slot], value);
        proof {
            assert(self@ =~= after_publish(old(self)@, topic@, value@));
        }
        true
    }

    /// Takes the oldest value off the queue of `topic`. Where the store has
    /// no such topic, or its queue is empty, nothing changes.
    pub fn consume(&mut self, topic: &str) -> (found: Consumed)
        ensures
            found@ == found_by_consume(old(self)@, topic@),
            final(self)@ == after_consume(old(self)@, topic@),
            final(self).topics() == old(self).topics(),
    {
        proof {
            use_type_invariant(&*self);
        }
        let slot = match self.slots.get(topic) {
            Some(slot) => *slot,
            None => {
                return Consumed::UnknownTopic;
            },
        };
        let found = match queue_remove(&mut self.queues[slot]) {
            Some(value) => Consumed::Value(value),
            None => Consumed::Empty,
        };
        proof {
            assert(self@ =~= after_consume(old(self)@, topic@));
        }
        found
    }

    /// Each topic with the number of payloads that wait in its queue, in the
    /// order in which the topics were provisioned.
    pub fn sizes(&self) -> (sizes: Vec<TopicSize>)
        ensures
            sizes.len() == self.topics().len(),
            forall|i: int|
                0 <= i < sizes.len() ==> (#[trigger] sizes[i]).topic@ == self.topics()[i]
                    && self@.contains_key(self.topics()[i]) && sizes[i].size
                    == self@[self.topics()[i]].len(),
            forall|name: Seq<char>| self@.contains_key(name) ==> self.topics().contains(name),
            self.topics().no_duplicates(),
    {
        proof {
            use_type_invariant(self);
        }
        let mut sizes: Vec<TopicSize> = Vec::new();
        let mut i: usize = 0;
        while i < self.names.len()
            invariant
                i <= self.names.len(),
                self.names.len() == self.queues.len(),
                sizes.len() == i,
                forall|j: int|
                    0 <= j < self.names.len() ==> self.slots@.contains_key(
                        (#[trigger] self.names@[j])@,
                    ) && self.slots@[self.names@[j]@] == j,
                forall|j: int|
                    0 <= j < i ==> (#[trigger] sizes[j]).topic@ == self.topics()[j]
                        && self@.contains_key(self.topics()[j]) && sizes[j].size
                        == self@[self.topics()[j]].len(),
            decreases self.names.len() - i,
        {
            let size = queue_size(&self.queues[i]);
            sizes.push(TopicSize { topic: self.names[i].clone(), size });
            i += 1;
        }
        proof {
            assert forall|name: Seq<char>| self@.contains_key(name) implies self.topics().contains(
                name,
            ) by {
                assert(self.topics()[self.slots@[name] as int] == name);
            }
            assert forall|a: int, b: int|
                0 <= a < self.topics().len() && 0 <= b < self.topics().len() && a
                    != b implies self.topics()[a] != self.topics()[b] by {
                assert(self.slots@[self.names@[a]@] == a);
                assert(self.slots@[self.names@[b]@] == b);
            }
        }
        sizes
    }
}

/// The provisioned topics are the non-empty names, each once.
pub proof fn lemma_provision_order(names: Seq<Seq<char>>)
    ensures
        provision_order(names).no_duplicates(),
        forall|name: Seq<char>| #[trigger]
            provision_order(names).contains(name) <==> name.len() > 0 && names.contains(name),
    decreases names.len(),
{
    if names.len() > 0 {
        let front = names.drop_last();
        let earlier = provision_order(front);
        let last = names.last();
        lemma_provision_order(front);
        assert forall|name: Seq<char>| #[trigger]
            provision_order(names).contains(name) <==> name.len() > 0 && names.contains(
                name,
            ) by {
            if names.contains(name) {
                let i = choose|i: int| 0 <= i < names.len() && names[i] == name;
                if i < names.len() - 1 {
                    assert(front[i] == name);
                }
            }
            if front.contains(name) {
                let i = choose|i: int| 0 <= i < front.len() && front[i] == name;
                assert(names[i] == name);
            }
            assert(names[names.len() - 1] == last);
            if provision_order(names).contains(name) {
                let i = choose|i: int|
                    0 <= i < provision_order(names).len() && provision_order(names)[i] == name;
                if i < earlier.len() {
                    assert(earlier[i] == name);
                }
            }
            if earlier.contains(name) {
                let i = choose|i: int| 0 <= i < earlier.len() && earlier[i] == name;
                assert(provision_order(names)[i] == name);
            }
            if !(last.len() == 0 || earlier.contains(last)) {
                assert(provision_order(names)[earlier.len() as int] == last);
            }
        }
    } else {
        assert forall|name: Seq<char>| #[trigger]
            provision_order(names).contains(name) <==> name.len() > 0 && names.contains(
                name,
            ) by {
            if names.contains(name) {
                let i = choose|i: int| 0 <= i < names.len() && names[i] == name;
            }
            if provision_order(names).contains(name) {
                let i = choose|i: int|
                    0 <= i < provision_order(names).len() && provision_order(names)[i] == name;
            }
        }
    }
}

} // verus!
