//! The handler of one connection, as a state machine. The handler itself
//! does no I/O: it is told what happened and says what to do next.
//!
//! Replies are not addressed to a handler: the broker sends each to all of
//! them, and a handler that waits takes the first reply on its topic. Two
//! handlers that wait on one topic at the same time therefore both take the
//! reply to the consume that the broker resolved first.

use crate::broker::{after_commands, replies_to};
use crate::command::{read_word, Command, CommandModel, Reply, ReplyModel};
use crate::fifo::{consumes, lemma_first_in_first_out, publishes, replies_with};
use crate::store::Topics;
use crate::text::{has_space, lemma_encoded_text_is_not_empty, lemma_trim_without_space, trim};
use crate::wire::{
    decode, lemma_publish_line_reads_back, lemma_read_line_reads_back, line_of, parse,
    read_line_of, reply_line, WireError,
};
use vstd::prelude::*;
use vstd::utf8::encode_utf8;

verus! {

/// Why a connection ends.
#[derive(Debug, Clone, Copy, PartialEq, Eq, Structural)]
pub enum Closing {
    /// The peer closed the stream: a read of no bytes.
    PeerClosed,
    /// The peer sent a chunk that is no message.
    Malformed(WireError),
    /// Reading, writing or handing a command to the broker failed.
    Failed,
}

/// Where a handler stands.
#[derive(Debug, Clone, PartialEq, Eq)]
pub enum Phase {
    /// It waits for the next chunk from the peer.
    Reading,
    /// It hands `command` to the broker.
    Dispatching { command: Command },
    /// It waits for the broker's reply on `topic`.
    AwaitingResult { topic: String },
    /// It has ended.
    Closed,
}

/// What happened since the handler last said what to do.
#[derive(Debug, Clone, PartialEq, Eq)]
pub enum Event {
    /// A read returned these bytes; none means that the peer closed the
    /// stream.
    Chunk(Vec<u8>),
    /// The command went to the broker.
    Sent,
    /// The broker sent out a reply, to this handler and to all others.
    Reply(Reply),
    /// Reading, writing or handing a command to the broker failed.
    Failed,
}

/// What the handler's driver does next.
#[derive(Debug, Clone, PartialEq, Eq)]
pub enum Action {
    /// Read the next chunk; bring back `Chunk` or `Failed`.
    Read,
    /// Hand the command to the broker; bring back `Sent` or `Failed`.
    Send(Command),
    /// Wait for the next reply that the broker sends out; bring back `Reply`
    /// or `Failed`.
    Await,
    /// Write the line to the peer and flush, then read the next chunk; bring
    /// back `Chunk` or `Failed`.
    Write(String),
    /// Drop the connection, for this reason.
    Close(Closing),
    /// Nothing: the connection has ended before.
    Stop,
}

/// A phase over plain text.
pub enum PhaseModel {
    Reading,
    Dispatching { command: CommandModel },
    AwaitingResult { topic: Seq<char> },
    Closed,
}

/// An event over plain text.
pub enum EventModel {
    Chunk(Seq<u8>),
    Sent,
    Reply(ReplyModel),
    Failed,
}

/// An action over plain text.
pub enum ActionModel {
    Read,
    Send(CommandModel),
    Await,
    Write(Seq<char>),
    Close(Closing),
    Stop,
}

impl View for Phase {
    type V = PhaseModel;

    open spec fn view(&self) -> PhaseModel {
        match *self {
            Phase::Reading => PhaseModel::Reading,
            Phase::Dispatching { command } => PhaseModel::Dispatching { command: command@ },
            Phase::AwaitingResult { topic } => PhaseModel::AwaitingResult { topic: topic@ },
            Phase::Closed => PhaseModel::Closed,
        }
    }
}

impl View for Event {
    type V = EventModel;

    open spec fn view(&self) -> EventModel {
        match *self {
            Event::Chunk(bytes) => EventModel::Chunk(bytes@),
            Event::Sent => EventModel::Sent,
            Event::Reply(reply) => EventModel::Reply(reply@),
            Event::Failed => EventModel::Failed,
        }
    }
}

impl View for Action {
    type V = ActionModel;

    open spec fn view(&self) -> ActionModel {
        match *self {
            Action::Read => ActionModel::Read,
            Action::Send(command) => ActionModel::Send(command@),
            Action::Await => ActionModel::Await,
            Action::Write(line) => ActionModel::Write(line@),
            Action::Close(closing) => ActionModel::Close(closing),
            Action::Stop => ActionModel::Stop,
        }
    }
}

/// What a handler that reads does with a chunk: no bytes end the connection,
/// a message is handed to the broker, anything else ends the connection.
pub open spec fn on_chunk(bytes: Seq<u8>) -> (PhaseModel, ActionModel) {
    if bytes.len() == 0 {
        (PhaseModel::Closed, ActionModel::Close(Closing::PeerClosed))
    } else {
        match decode(bytes) {
            Ok(command) => (PhaseModel::Dispatching { command }, ActionModel::Send(command)),
            Err(error) => (PhaseModel::Closed, ActionModel::Close(Closing::Malformed(error))),
        }
    }
}

/// What a handler does once `command` went to the broker: after a consume it
/// waits for the reply on that topic, after a publish it reads on.
pub open spec fn on_sent(command: CommandModel) -> (PhaseModel, ActionModel) {
    match command {
        CommandModel::Consume { topic } => (
            PhaseModel::AwaitingResult { topic },
            ActionModel::Await,
        ),
        CommandModel::Publish { .. } => (PhaseModel::Reading, ActionModel::Read),
    }
}

/// What a handler that waits on `topic` does with a reply: one on that topic
/// is written to the peer as `<topic> <value>`, any other is discarded and the
/// wait goes on.
pub open spec fn on_reply(topic: Seq<char>, reply: ReplyModel) -> (PhaseModel, ActionModel) {
    if reply.topic == topic {
        (PhaseModel::Reading, ActionModel::Write(line_of(reply.topic, reply.value)))
    } else {
        (PhaseModel::AwaitingResult { topic }, ActionModel::Await)
    }
}

/// What a handler waits for in `phase`: the action that it repeats when
/// something else happens.
pub open spec fn awaited(phase: PhaseModel) -> ActionModel {
    match phase {
        PhaseModel::Reading => ActionModel::Read,
        PhaseModel::Dispatching { command } => ActionModel::Send(command),
        PhaseModel::AwaitingResult { .. } => ActionModel::Await,
        PhaseModel::Closed => ActionModel::Stop,
    }
}

/// The handler's transition: where it stands after `event`, and what its
/// driver does next. A closed handler stays closed; a failure closes any
/// other; an event that the phase does not wait for changes nothing.
pub open spec fn next(phase: PhaseModel, event: EventModel) -> (PhaseModel, ActionModel) {
    match (phase, event) {
        (PhaseModel::Closed, _) => (PhaseModel::Closed, ActionModel::Stop),
        (_, EventModel::Failed) => (PhaseModel::Closed, ActionModel::Close(Closing::Failed)),
        (PhaseModel::Reading, EventModel::Chunk(bytes)) => on_chunk(bytes),
        (PhaseModel::Dispatching { command }, EventModel::Sent) => on_sent(command),
        (PhaseModel::AwaitingResult { topic }, EventModel::Reply(reply)) => on_reply(topic, reply),
        _ => (phase, awaited(phase)),
    }
}

/// A closed handler stays closed, whatever happens.
pub proof fn lemma_closed_is_final(event: EventModel)
    ensures
        next(PhaseModel::Closed, event) == (PhaseModel::Closed, ActionModel::Stop),
{
}

/// A failure closes a handler that is not closed yet.
pub proof fn lemma_failure_closes(phase: PhaseModel)
    requires
        phase != PhaseModel::Closed,
    ensures
        next(phase, EventModel::Failed) == (
            PhaseModel::Closed,
            ActionModel::Close(Closing::Failed),
        ),
{
}

/// A handler writes to its peer only the reply that it waits for: the line
/// `<topic> <value>` of a reply on the topic that it asked to consume from.
pub proof fn lemma_only_the_awaited_reply_is_written(phase: PhaseModel, event: EventModel)
    requires
        next(phase, event).1 is Write,
    ensures
        phase is AwaitingResult,
        event is Reply,
        event->Reply_0.topic == phase->topic,
        next(phase, event).1 == ActionModel::Write(
            line_of(phase->topic, event->Reply_0.value),
        ),
        next(phase, event).0 == PhaseModel::Reading,
{
}

/// A handler hands a command to the broker only when a chunk spells one:
/// a chunk that is no message closes the connection and sends nothing.
pub proof fn lemma_no_message_sends_nothing(bytes: Seq<u8>)
    requires
        decode(bytes) is Err,
    ensures
        next(PhaseModel::Reading, EventModel::Chunk(bytes)).0 == PhaseModel::Closed,
        next(PhaseModel::Reading, EventModel::Chunk(bytes)).1 is Close,
{
}

/// What one client publishes, another reads back, to the letter. Where the
/// store has `topic` with nothing in its queue, the topic holds no whitespace
/// and is not the word `read`, and `value` neither starts nor ends with
/// whitespace: the bytes of `<topic> <value>` make a handler send the publish
/// of `value` to `topic`; the bytes of `read <topic>` make a handler send the
/// consume on `topic`; the broker answers the two with the one reply that
/// holds `value`, and is left as it was; and the handler that waits on `topic`
/// writes `<topic> <value>` back.
pub proof fn lemma_published_line_is_read_back(
    topics: Topics,
    topic: Seq<char>,
    value: Seq<char>,
)
    requires
        topics.contains_key(topic),
        topics[topic].len() == 0,
        !has_space(topic),
        topic != read_word(),
        trim(value) == value,
    ensures
        next(PhaseModel::Reading, EventModel::Chunk(encode_utf8(line_of(topic, value)))) == (
            PhaseModel::Dispatching { command: CommandModel::Publish { topic, value } },
            ActionModel::Send(CommandModel::Publish { topic, value }),
        ),
        next(PhaseModel::Reading, EventModel::Chunk(encode_utf8(read_line_of(topic)))) == (
            PhaseModel::Dispatching { command: CommandModel::Consume { topic } },
            ActionModel::Send(CommandModel::Consume { topic }),
        ),
        replies_to(
            topics,
            seq![CommandModel::Publish { topic, value }, CommandModel::Consume { topic }],
        ) == seq![ReplyModel { topic, value }],
        after_commands(
            topics,
            seq![CommandModel::Publish { topic, value }, CommandModel::Consume { topic }],
        ) == topics,
        next(
            PhaseModel::AwaitingResult { topic },
            EventModel::Reply(ReplyModel { topic, value }),
        ) == (PhaseModel::Reading, ActionModel::Write(line_of(topic, value))),
{
    lemma_publish_line_reads_back(topic, value);
    lemma_trim_without_space(topic);
    lemma_read_line_reads_back(topic);
    lemma_encoded_text_is_not_empty(line_of(topic, value));
    lemma_encoded_text_is_not_empty(read_line_of(topic));
    let both = seq![CommandModel::Publish { topic, value }, CommandModel::Consume { topic }];
    lemma_first_in_first_out(topics, topic, seq![value]);
    assert(publishes(topic, seq![value]) + consumes(topic, 1) =~= both);
    assert(replies_with(topic, seq![value]) =~= seq![ReplyModel { topic, value }]);
}

/// Where a handler starts: it reads.
pub fn start() -> (begin: (Phase, Action))
    ensures
        begin.0@ == PhaseModel::Reading,
        begin.1@ == ActionModel::Read,
{
    (Phase::Reading, Action::Read)
}

/// The action that `phase` waits on.
fn repeat(phase: &Phase) -> (action: Action)
    ensures
        action@ == awaited(phase@),
{
    match phase {
        Phase::Reading => Action::Read,
        Phase::Dispatching { command } => Action::Send(command.duplicate()),
        Phase::AwaitingResult { .. } => Action::Await,
        Phase::Closed => Action::Stop,
    }
}

/// One transition of the handler.
pub fn step(phase: Phase, event: Event) -> (after: (Phase, Action))
    ensures
        (after.0@, after.1@) == next(phase@, event@),
{
    match (phase, event) {
        (Phase::Closed, _) => (Phase::Closed, Action::Stop),
        (_, Event::Failed) => (Phase::Closed, Action::Close(Closing::Failed)),
        (Phase::Reading, Event::Chunk(bytes)) => {
            if bytes.len() == 0 {
                (Phase::Closed, Action::Close(Closing::PeerClosed))
            } else {
                match parse(bytes.as_slice()) {
                    Ok(command) => {
                        let copy = command.duplicate();
                        (Phase::Dispatching { command }, Action::Send(copy))
                    },
                    Err(error) => (Phase::Closed, Action::Close(Closing::Malformed(error))),
                }
            }
        },
        (Phase::Dispatching { command }, Event::Sent) => {
            match command {
                Command::Consume { topic } => (Phase::AwaitingResult { topic }, Action::Await),
                Command::Publish { .. } => (Phase::Reading, Action::Read),
            }
        },
        (Phase::AwaitingResult { topic }, Event::Reply(reply)) => {
            if reply.topic == topic {
                (Phase::Reading, Action::Write(reply_line(&reply)))
            } else {
                (Phase::AwaitingResult { topic }, Action::Await)
            }
        },
        (phase, _) => {
            let action = repeat(&phase);
            (phase, action)
        },
    }
}

} // verus!
