//! What connections ask of the broker, and what the broker answers.

use vstd::prelude::*;

verus! {

/// An instruction for the broker.
#[derive(Debug, Clone, PartialEq, Eq)]
pub enum Command {
    /// Append `value` to the queue of `topic`.
    Publish { topic: String, value: String },
    /// Take the oldest value off the queue of `topic`.
    Consume { topic: String },
}

/// A command over plain text.
pub enum CommandModel {
    Publish { topic: Seq<char>, value: Seq<char> },
    Consume { topic: Seq<char> },
}

impl View for Command {
    type V = CommandModel;

    open spec fn view(&self) -> CommandModel {
        match *self {
            Command::Publish { topic, value } => CommandModel::Publish {
                topic: topic@,
                value: value@,
            },
            Command::Consume { topic } => CommandModel::Consume { topic: topic@ },
        }
    }
}

impl Command {
    /// A second copy of the command.
    pub fn duplicate(&self) -> (copy: Command)
        ensures
            copy@ == self@,
    {
        match self {
            Command::Publish { topic, value } => Command::Publish {
                topic: topic.clone(),
                value: value.clone(),
            },
            Command::Consume { topic } => Command::Consume { topic: topic.clone() },
        }
    }
}

/// The outcome of a consume that the broker resolved: the topic, and the
/// value taken off its queue or the word that stands for an empty queue.
#[derive(Debug, Clone, PartialEq, Eq)]
pub struct Reply {
    pub topic: String,
    pub value: String,
}

/// A reply over plain text.
pub struct ReplyModel {
    pub topic: Seq<char>,
    pub value: Seq<char>,
}

impl View for Reply {
    type V = ReplyModel;

    open spec fn view(&self) -> ReplyModel {
        ReplyModel { topic: self.topic@, value: self.value@ }
    }
}

/// The word that answers a consume on an empty queue: `empty`.
pub open spec fn empty_word() -> Seq<char> {
    seq!['e', 'm', 'p', 't', 'y']
}

/// The word that asks for a consume: `read`.
pub open spec fn read_word() -> Seq<char> {
    seq!['r', 'e', 'a', 'd']
}

/// The views of `replies`, in order.
pub open spec fn reply_models(replies: Seq<Reply>) -> Seq<ReplyModel> {
    Seq::new(replies.len(), |i: int| replies[i]@)
}

/// The views of `commands`, in order.
pub open spec fn command_models(commands: Seq<Command>) -> Seq<CommandModel> {
    Seq::new(commands.len(), |i: int| commands[i]@)
}

} // verus!
