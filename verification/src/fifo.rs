//! What holds of the broker over whole runs of commands: topics are fixed,
//! queues are first in, first out, and an empty queue answers `empty` for as
//! long as nothing is published to it.

use crate::broker::{after_command, after_commands, replies_to, reply_to};
use crate::command::{empty_word, CommandModel, ReplyModel};
use crate::store::Topics;
use vstd::prelude::*;

verus! {

/// One publish to `topic` for each of `values`, in order.
pub open spec fn publishes(topic: Seq<char>, values: Seq<Seq<char>>) -> Seq<CommandModel> {
    Seq::new(values.len(), |i: int| CommandModel::Publish { topic, value: values[i] })
}

/// `n` consumes on `topic`.
pub open spec fn consumes(topic: Seq<char>, n: nat) -> Seq<CommandModel> {
    Seq::new(n, |i: int| CommandModel::Consume { topic })
}

/// One reply on `topic` for each of `values`, in order.
pub open spec fn replies_with(topic: Seq<char>, values: Seq<Seq<char>>) -> Seq<ReplyModel> {
    Seq::new(values.len(), |i: int| ReplyModel { topic, value: values[i] })
}

/// `n` replies on `topic` that say `empty`.
pub open spec fn empty_replies(topic: Seq<char>, n: nat) -> Seq<ReplyModel> {
    Seq::new(n, |i: int| ReplyModel { topic, value: empty_word() })
}

/// Applying `first` and then `second` is applying the two in a row: the
/// store ends the same, and the replies are those to `first` followed by those
/// to `second`.
pub proof fn lemma_commands_in_a_row(
    topics: Topics,
    first: Seq<CommandModel>,
    second: Seq<CommandModel>,
)
    ensures
        after_commands(topics, first + second) == after_commands(
            after_commands(topics, first),
            second,
        ),
        replies_to(topics, first + second) == replies_to(topics, first) + replies_to(
            after_commands(topics, first),
            second,
        ),
    decreases second.len(),
{
    if second.len() == 0 {
        assert(first + second =~= first);
        assert(replies_to(topics, first) + Seq::<ReplyModel>::empty() =~= replies_to(
            topics,
            first,
        ));
    } else {
        let front = second.drop_last();
        lemma_commands_in_a_row(topics, first, front);
        assert((first + second).drop_last() =~= first + front);
        assert((first + second).last() == second.last());
        let middle = after_commands(topics, first);
        match reply_to(after_commands(middle, front), second.last()) {
            Some(reply) => {
                assert(replies_to(topics, first + second) =~= replies_to(topics, first)
                    + replies_to(middle, second));
            },
            None => {},
        }
    }
}

/// No command adds or removes a topic.
pub proof fn lemma_topics_are_fixed(topics: Topics, commands: Seq<CommandModel>)
    ensures
        after_commands(topics, commands).dom() == topics.dom(),
    decreases commands.len(),
{
    if commands.len() > 0 {
        lemma_topics_are_fixed(topics, commands.drop_last());
        let before = after_commands(topics, commands.drop_last());
        assert(after_command(before, commands.last()).dom() =~= before.dom());
    }
}

/// The topics of the commands that are answered: those of the consumes on
/// topics that the store has, in the order of the commands.
pub open spec fn answered(topics: Topics, commands: Seq<CommandModel>) -> Seq<Seq<char>>
    decreases commands.len(),
{
    if commands.len() == 0 {
        Seq::empty()
    } else {
        let earlier = answered(topics, commands.drop_last());
        match commands.last() {
            CommandModel::Consume { topic } => if topics.contains_key(topic) {
                earlier.push(topic)
            } else {
                earlier
            },
            CommandModel::Publish { .. } => earlier,
        }
    }
}

/// Every consume on a known topic is answered, once and on its topic, among
/// the replies to the commands that it came with; nothing else is answered.
pub proof fn lemma_known_consumes_are_answered(topics: Topics, commands: Seq<CommandModel>)
    ensures
        replies_to(topics, commands).len() == answered(topics, commands).len(),
        forall|i: int|
            0 <= i < answered(topics, commands).len() ==> (#[trigger] replies_to(
                topics,
                commands,
            )[i]).topic == answered(topics, commands)[i],
    decreases commands.len(),
{
    if commands.len() > 0 {
        let front = commands.drop_last();
        lemma_known_consumes_are_answered(topics, front);
        lemma_topics_are_fixed(topics, front);
        let before = after_commands(topics, front);
        assert forall|name: Seq<char>| before.contains_key(name) <==> topics.contains_key(
            name,
        ) by {
            assert(before.dom().contains(name) <==> topics.dom().contains(name));
        }
    }
}

/// A consume on an unknown topic changes nothing and is not answered.
pub proof fn lemma_consume_unknown(topics: Topics, topic: Seq<char>)
    requires
        !topics.contains_key(topic),
    ensures
        after_command(topics, CommandModel::Consume { topic }) == topics,
        reply_to(topics, CommandModel::Consume { topic }) is None,
{
}

/// A publish to an unknown topic changes nothing and is not answered.
pub proof fn lemma_publish_unknown(topics: Topics, topic: Seq<char>, value: Seq<char>)
    requires
        !topics.contains_key(topic),
    ensures
        after_command(topics, CommandModel::Publish { topic, value }) == topics,
        reply_to(topics, CommandModel::Publish { topic, value }) is None,
{
}

/// Publishes to an unknown topic, however many, change nothing and are not
/// answered.
pub proof fn lemma_publishes_unknown(topics: Topics, topic: Seq<char>, values: Seq<Seq<char>>)
    requires
        !topics.contains_key(topic),
    ensures
        after_commands(topics, publishes(topic, values)) == topics,
        replies_to(topics, publishes(topic, values)) == Seq::<ReplyModel>::empty(),
    decreases values.len(),
{
    if values.len() > 0 {
        lemma_publishes_unknown(topics, topic, values.drop_last());
        assert(publishes(topic, values).drop_last() =~= publishes(topic, values.drop_last()));
    }
}

/// A publish to a known topic leaves every other queue as it was.
pub proof fn lemma_publish_touches_one_queue(
    topics: Topics,
    topic: Seq<char>,
    value: Seq<char>,
    other: Seq<char>,
)
    requires
        other != topic,
        topics.contains_key(other),
    ensures
        after_command(topics, CommandModel::Publish { topic, value }).contains_key(other),
        after_command(topics, CommandModel::Publish { topic, value })[other] == topics[other],
{
}

/// Publishes to a known topic put the values at the back of its queue, in
/// order, and are not answered.
pub proof fn lemma_publishes_known(topics: Topics, topic: Seq<char>, values: Seq<Seq<char>>)
    requires
        topics.contains_key(topic),
    ensures
        after_commands(topics, publishes(topic, values)) == topics.insert(
            topic,
            topics[topic] + values,
        ),
        replies_to(topics, publishes(topic, values)) == Seq::<ReplyModel>::empty(),
    decreases values.len(),
{
    if values.len() == 0 {
        assert(topics[topic] + values =~= topics[topic]);
        assert(topics.insert(topic, topics[topic]) =~= topics);
    } else {
        let front = values.drop_last();
        lemma_publishes_known(topics, topic, front);
        assert(publishes(topic, values).drop_last() =~= publishes(topic, front));
        assert((topics[topic] + front).push(values.last()) =~= topics[topic] + values);
        assert(after_commands(topics, publishes(topic, values)) =~= topics.insert(
            topic,
            topics[topic] + values,
        ));
    }
}

/// A consume on an empty queue of a known topic is answered with `empty` and
/// changes nothing.
pub proof fn lemma_consume_empty(topics: Topics, topic: Seq<char>)
    requires
        topics.contains_key(topic),
        topics[topic].len() == 0,
    ensures
        reply_to(topics, CommandModel::Consume { topic }) == Some(
            ReplyModel { topic, value: empty_word() },
        ),
        after_command(topics, CommandModel::Consume { topic }) == topics,
{
}

/// Consumes on an empty queue of a known topic, however many, are each
/// answered with `empty` and change nothing.
pub proof fn lemma_consumes_empty(topics: Topics, topic: Seq<char>, n: nat)
    requires
        topics.contains_key(topic),
        topics[topic].len() == 0,
    ensures
        after_commands(topics, consumes(topic, n)) == topics,
        replies_to(topics, consumes(topic, n)) == empty_replies(topic, n),
    decreases n,
{
    if n == 0 {
        assert(replies_to(topics, consumes(topic, n)) =~= empty_replies(topic, n));
    } else {
        lemma_consumes_empty(topics, topic, (n - 1) as nat);
        assert(consumes(topic, n).drop_last() =~= consumes(topic, (n - 1) as nat));
        assert(replies_to(topics, consumes(topic, n)) =~= empty_replies(topic, n));
    }
}

/// Consumes on a known topic, no more of them than its queue holds, are
/// answered with the oldest values of the queue in order, and leave the rest.
pub proof fn lemma_consumes_known(topics: Topics, topic: Seq<char>, n: nat)
    requires
        topics.contains_key(topic),
        n <= topics[topic].len(),
    ensures
        after_commands(topics, consumes(topic, n)) == topics.insert(
            topic,
            topics[topic].skip(n as int),
        ),
        replies_to(topics, consumes(topic, n)) == replies_with(topic, topics[topic].take(n as int)),
    decreases n,
{
    if n == 0 {
        assert(topics[topic].skip(0) =~= topics[topic]);
        assert(topics.insert(topic, topics[topic]) =~= topics);
        assert(replies_to(topics, consumes(topic, n)) =~= replies_with(
            topic,
            topics[topic].take(0),
        ));
    } else {
        let m = (n - 1) as nat;
        lemma_consumes_known(topics, topic, m);
        assert(consumes(topic, n).drop_last() =~= consumes(topic, m));
        let before = after_commands(topics, consumes(topic, m));
        assert(before[topic] == topics[topic].skip(m as int));
        assert(before[topic].first() == topics[topic][m as int]);
        assert(topics[topic].skip(m as int).drop_first() =~= topics[topic].skip(n as int));
        assert(after_commands(topics, consumes(topic, n)) =~= topics.insert(
            topic,
            topics[topic].skip(n as int),
        ));
        assert(replies_to(topics, consumes(topic, n)) =~= replies_with(
            topic,
            topics[topic].take(n as int),
        ));
    }
}

/// The values that `commands` publish to `topic`, in order.
pub open spec fn published_to(topic: Seq<char>, commands: Seq<CommandModel>) -> Seq<Seq<char>>
    decreases commands.len(),
{
    if commands.len() == 0 {
        Seq::empty()
    } else {
        let earlier = published_to(topic, commands.drop_last());
        match commands.last() {
            CommandModel::Publish { topic: to, value } => if to == topic {
                earlier.push(value)
            } else {
                earlier
            },
            CommandModel::Consume { .. } => earlier,
        }
    }
}

/// The values that the consumes of `commands` take off the queue of `topic`,
/// in order: one for each consume on `topic` that finds its queue not empty.
pub open spec fn taken_from(topics: Topics, topic: Seq<char>, commands: Seq<CommandModel>) -> Seq<
    Seq<char>,
>
    decreases commands.len(),
{
    if commands.len() == 0 {
        Seq::empty()
    } else {
        let earlier = taken_from(topics, topic, commands.drop_last());
        let before = after_commands(topics, commands.drop_last());
        match commands.last() {
            CommandModel::Consume { topic: from } => if from == topic && before.contains_key(topic)
                && before[topic].len() > 0 {
                earlier.push(before[topic].first())
            } else {
                earlier
            },
            CommandModel::Publish { .. } => earlier,
        }
    }
}

/// At any moment the queue of a known topic is what it held at first,
/// followed by what was published to it since, without what was taken off it
/// since; and what was taken off it are the oldest of those values, oldest
/// first. This holds however publishes and consumes, on this topic and on
/// others, follow one another.
pub proof fn lemma_queue_is_published_less_taken(
    topics: Topics,
    topic: Seq<char>,
    commands: Seq<CommandModel>,
)
    requires
        topics.contains_key(topic),
    ensures
        after_commands(topics, commands).contains_key(topic),
        taken_from(topics, topic, commands).len() <= (topics[topic] + published_to(
            topic,
            commands,
        )).len(),
        taken_from(topics, topic, commands) == (topics[topic] + published_to(
            topic,
            commands,
        )).take(taken_from(topics, topic, commands).len() as int),
        after_commands(topics, commands)[topic] == (topics[topic] + published_to(
            topic,
            commands,
        )).skip(taken_from(topics, topic, commands).len() as int),
    decreases commands.len(),
{
    let all = topics[topic] + published_to(topic, commands);
    let taken = taken_from(topics, topic, commands);
    if commands.len() == 0 {
        assert(all =~= topics[topic]);
        assert(taken =~= all.take(0));
        assert(all.skip(0) =~= topics[topic]);
    } else {
        let front = commands.drop_last();
        lemma_queue_is_published_less_taken(topics, topic, front);
        let before = after_commands(topics, front);
        let all_before = topics[topic] + published_to(topic, front);
        let taken_before = taken_from(topics, topic, front);
        let k = taken_before.len() as int;
        match commands.last() {
            CommandModel::Publish { topic: to, value } => {
                if to == topic {
                    assert(all =~= all_before.push(value));
                    assert(taken =~= all.take(k));
                    assert(all_before.skip(k).push(value) =~= all.skip(k));
                } else {
                    assert(all =~= all_before);
                }
            },
            CommandModel::Consume { topic: from } => {
                assert(all =~= all_before);
                if from == topic && before[topic].len() > 0 {
                    assert(before[topic].first() == all[k]);
                    assert(taken =~= all.take(k + 1));
                    assert(all.skip(k).drop_first() =~= all.skip(k + 1));
                }
            },
        }
    }
}

/// First in, first out: publishes to a known topic followed by as many
/// consumes on it are answered with the oldest values of the queue, those that
/// waited before the publishes first; where nothing waited, the answers are
/// the published values in the order of the publishes, and the store ends as
/// it began.
pub proof fn lemma_first_in_first_out(topics: Topics, topic: Seq<char>, values: Seq<Seq<char>>)
    requires
        topics.contains_key(topic),
    ensures
        replies_to(topics, publishes(topic, values) + consumes(topic, values.len()))
            == replies_with(topic, (topics[topic] + values).take(values.len() as int)),
        after_commands(topics, publishes(topic, values) + consumes(topic, values.len()))
            == topics.insert(topic, (topics[topic] + values).skip(values.len() as int)),
        topics[topic].len() == 0 ==> {
            &&& replies_to(topics, publishes(topic, values) + consumes(topic, values.len()))
                == replies_with(topic, values)
            &&& after_commands(topics, publishes(topic, values) + consumes(topic, values.len()))
                == topics
        },
{
    let published = after_commands(topics, publishes(topic, values));
    lemma_publishes_known(topics, topic, values);
    lemma_commands_in_a_row(topics, publishes(topic, values), consumes(topic, values.len()));
    lemma_consumes_known(published, topic, values.len());
    assert(published[topic] == topics[topic] + values);
    assert(Seq::<ReplyModel>::empty() + replies_to(published, consumes(topic, values.len()))
        =~= replies_to(published, consumes(topic, values.len())));
    assert(published.insert(topic, published[topic].skip(values.len() as int)) =~= topics.insert(
        topic,
        (topics[topic] + values).skip(values.len() as int),
    ));
    if topics[topic].len() == 0 {
        assert((topics[topic] + values).take(values.len() as int) =~= values);
        assert((topics[topic] + values).skip(values.len() as int) =~= topics[topic]);
        assert(topics.insert(topic, topics[topic]) =~= topics);
    }
}

/// Once a queue is drained it stays drained: after publishes to a known
/// topic with an empty queue and as many consumes, any number of further
/// consumes are each answered with `empty` and change nothing.
pub proof fn lemma_drained_stays_empty(
    topics: Topics,
    topic: Seq<char>,
    values: Seq<Seq<char>>,
    n: nat,
)
    requires
        topics.contains_key(topic),
        topics[topic].len() == 0,
    ensures
        replies_to(
            topics,
            publishes(topic, values) + consumes(topic, values.len()) + consumes(topic, n),
        ) == replies_with(topic, values) + empty_replies(topic, n),
        after_commands(
            topics,
            publishes(topic, values) + consumes(topic, values.len()) + consumes(topic, n),
        ) == topics,
{
    let round = publishes(topic, values) + consumes(topic, values.len());
    lemma_first_in_first_out(topics, topic, values);
    lemma_commands_in_a_row(topics, round, consumes(topic, n));
    lemma_consumes_empty(topics, topic, n);
}

} // verus!
