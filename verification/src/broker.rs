//! The broker: the one owner of the topic store. It applies commands in the
//! order in which they arrive and answers each consume on a known topic.

use crate::command::{empty_word, Command, CommandModel, Reply, ReplyModel, command_models, reply_models};
use crate::store::{
    after_consume, after_publish, provision_order, provisioned, Consumed, TopicSize, TopicStore, Topics,
};
use crate::text::texts_of;
use vstd::prelude::*;

verus! {

/// The store after one command.
pub open spec fn after_command(topics: Topics, command: CommandModel) -> Topics {
    match command {
        CommandModel::Publish { topic, value } => after_publish(topics, topic, value),
        CommandModel::Consume { topic } => after_consume(topics, topic),
    }
}

/// The reply to one command: a consume on a known topic is answered with the
/// oldest value of its queue, or with `empty` where the queue holds nothing;
/// a publish, and a consume on an unknown topic, are not answered.
pub open spec fn reply_to(topics: Topics, command: CommandModel) -> Option<ReplyModel> {
    match command {
        CommandModel::Publish { .. } => None,
        CommandModel::Consume { topic } => if !topics.contains_key(topic) {
            None
        } else if topics[topic].len() == 0 {
            Some(ReplyModel { topic, value: empty_word() })
        } else {
            Some(ReplyModel { topic, value: topics[topic].first() })
        },
    }
}

/// The store after `commands`, applied in order.
pub open spec fn after_commands(topics: Topics, commands: Seq<CommandModel>) -> Topics
    decreases commands.len(),
{
    if commands.len() == 0 {
        topics
    } else {
        after_command(after_commands(topics, commands.drop_last()), commands.last())
    }
}

/// The replies to `commands`, applied in order: one for each command that is
/// answered, in the order of the commands.
pub open spec fn replies_to(topics: Topics, commands: Seq<CommandModel>) -> Seq<ReplyModel>
    decreases commands.len(),
{
    if commands.len() == 0 {
        Seq::empty()
    } else {
        let earlier = replies_to(topics, commands.drop_last());
        match reply_to(after_commands(topics, commands.drop_last()), commands.last()) {
            Some(reply) => earlier.push(reply),
            None => earlier,
        }
    }
}

/// What one tick of the broker yields: the size of each topic as the tick
/// began, and the replies to the commands that it drained.
#[derive(Debug, Clone, PartialEq, Eq)]
pub struct Tick {
    pub sizes: Vec<TopicSize>,
    pub replies: Vec<Reply>,
}

/// The broker and its topic store.
pub struct Broker {
    store: TopicStore,
}

impl View for Broker {
    type V = Topics;

    closed spec fn view(&self) -> Topics {
        self.store@
    }
}

impl Broker {
    /// The names of the topics, in the order in which they were provisioned.
    pub closed spec fn topics(&self) -> Seq<Seq<char>> {
        self.store.topics()
    }

    /// A broker over one empty queue for each non-empty name of `names`.
    pub fn new(names: Vec<String>) -> (broker: Broker)
        ensures
            broker@ == provisioned(texts_of(names@)),
            broker.topics() == provision_order(texts_of(names@)),
    {
        Broker { store: TopicStore::new(names) }
    }

    /// Applies one command to the store and hands back its reply, if it is
    /// answered.
    pub fn apply(&mut self, command: Command) -> (reply: Option<Reply>)
        ensures
            final(self)@ == after_command(old(self)@, command@),
            final(self).topics() == old(self).topics(),
            match reply {
                Some(r) => reply_to(old(self)@, command@) == Some(r@),
                None => reply_to(old(self)@, command@) is None,
            },
    {
        match command {
            Command::Publish { topic, value } => {
                self.store.publish(topic.as_str(), value);
                None
            },
            Command::Consume { topic } => {
                match self.store.consume(topic.as_str()) {
                    Consumed::UnknownTopic => None,
                    Consumed::Empty => {
                        let value = String::from_str("empty");
                        proof {
                            reveal_strlit("empty");
                            assert(value@ =~= empty_word());
                        }
                        Some(Reply { topic, value })
                    },
                    Consumed::Value(value) => Some(Reply { topic, value }),
                }
            },
        }
    }

    /// Applies `pending` in order and hands back the replies, in the order of
    /// the commands that they answer.
    pub fn drain(&mut self, pending: Vec<Command>) -> (replies: Vec<Reply>)
        ensures
            final(self)@ == after_commands(old(self)@, command_models(pending@)),
            final(self).topics() == old(self).topics(),
            reply_models(replies@) == replies_to(old(self)@, command_models(pending@)),
    {
        let ghost all = command_models(pending@);
        let mut replies: Vec<Reply> = Vec::new();
        for command in rest: pending.into_iter()
            invariant
                rest.seq() == pending@,
                all == command_models(pending@),
                self@ == after_commands(old(self)@, all.take(rest.index())),
                self.topics() == old(self).topics(),
                reply_models(replies@) == replies_to(old(self)@, all.take(rest.index())),
        {
            let ghost before = reply_models(replies@);
            proof {
                let next = all.take(rest.index() + 1);
                assert(next.drop_last() =~= all.take(rest.index()));
                assert(next.last() == command@);
            }
            match self.apply(command) {
                Some(reply) => {
                    replies.push(reply);
                    proof {
                        assert(reply_models(replies@) =~= before.push(reply@));
                    }
                },
                None => {},
            }
        }
        proof {
            assert(all.take(all.len() as int) =~= all);
        }
        replies
    }

    /// Each topic with the number of payloads that wait in its queue.
    pub fn sizes(&self) -> (sizes: Vec<TopicSize>)
        ensures
            sizes.len() == self.topics().len(),
            forall|i: int|
                0 <= i < sizes.len() ==> (#[trigger] sizes[i]).topic@ == self.topics()[i]
                    && self@.contains_key(self.topics()[i]) && sizes[i].size
                    == self@[self.topics()[i]].len(),
            forall|name: Seq<char>| self@.contains_key(name) ==> self.topics().contains(name),
            self.topics().no_duplicates(),
    {
        self.store.sizes()
    }

    /// One tick: takes the size of each topic, then applies every pending
    /// command in order.
    pub fn tick(&mut self, pending: Vec<Command>) -> (tick: Tick)
        ensures
            final(self)@ == after_commands(old(self)@, command_models(pending@)),
            final(self).topics() == old(self).topics(),
            reply_models(tick.replies@) == replies_to(old(self)@, command_models(pending@)),
            tick.sizes.len() == old(self).topics().len(),
            forall|i: int|
                0 <= i < tick.sizes.len() ==> (#[trigger] tick.sizes[i]).topic@ == old(
                    self,
                ).topics()[i] && old(self)@.contains_key(old(self).topics()[i])
                    && tick.sizes[i].size == old(self)@[old(self).topics()[i]].len(),
    {
        let sizes = self.sizes();
        let replies = self.drain(pending);
        Tick { sizes, replies }
    }
}

} // verus!
