//! The wire protocol: one chunk of bytes is one message. A chunk is UTF-8
//! text, cut at its first whitespace character into a token and the rest.
//! The token `read` asks for a consume on the topic that the rest names; any
//! other token names the topic to which the rest is published.

use crate::command::{read_word, Command, CommandModel, Reply};
use crate::text::{
    chars_of, has_space, is_space, leading_run, lemma_has_space, lemma_leading_run_bound,
    lemma_leading_run_is, lemma_trailing_run_bound, skip_run, trim, trim_bounds, utf8_text,
};
use vstd::prelude::*;
use vstd::utf8::{decode_utf8, encode_utf8, valid_utf8};

verus! {

/// Why a chunk is no message.
#[derive(Debug, Clone, Copy, PartialEq, Eq, Structural)]
pub enum WireError {
    /// The chunk is not UTF-8 text.
    InvalidUtf8,
    /// The text holds no whitespace to end the token.
    MissingSeparator,
}

/// The token of `text`: what stands before its first whitespace character.
/// It holds no whitespace, so there is nothing to trim from it.
pub open spec fn token_of(text: Seq<char>) -> Seq<char> {
    text.take(leading_run(text, false) as int)
}

/// The rest of `text`: what stands from its first whitespace character on,
/// trimmed.
pub open spec fn rest_of(text: Seq<char>) -> Seq<char> {
    trim(text.skip(leading_run(text, false) as int))
}

/// The command that `text` spells, if it holds whitespace.
pub open spec fn command_of(text: Seq<char>) -> Option<CommandModel> {
    if !has_space(text) {
        None
    } else if token_of(text) == read_word() {
        Some(CommandModel::Consume { topic: rest_of(text) })
    } else {
        Some(CommandModel::Publish { topic: token_of(text), value: rest_of(text) })
    }
}

/// The command that a chunk of bytes spells, or why it spells none.
pub open spec fn decode(bytes: Seq<u8>) -> Result<CommandModel, WireError> {
    if !valid_utf8(bytes) {
        Err(WireError::InvalidUtf8)
    } else {
        match command_of(decode_utf8(bytes)) {
            Some(command) => Ok(command),
            None => Err(WireError::MissingSeparator),
        }
    }
}

/// The line `<topic> <value>`.
pub open spec fn line_of(topic: Seq<char>, value: Seq<char>) -> Seq<char> {
    topic + seq![' '] + value
}

/// The line `read <topic>`.
pub open spec fn read_line_of(topic: Seq<char>) -> Seq<char> {
    read_word() + seq![' '] + topic
}

/// Whether the first `len` characters of `chars` spell `read`.
fn spells_read(chars: &Vec<char>, len: usize) -> (yes: bool)
    requires
        len <= chars.len(),
    ensures
        yes == (chars@.take(len as int) == read_word()),
{
    let yes = len == 4 && chars[0] == 'r' && chars[1] == 'e' && chars[2] == 'a' && chars[3] == 'd';
    proof {
        let token = chars@.take(len as int);
        assert(token.len() == len);
        assert(read_word().len() == 4);
        assert(read_word()[0] == 'r' && read_word()[1] == 'e' && read_word()[2] == 'a'
            && read_word()[3] == 'd');
        if yes {
            assert(token =~= read_word());
        } else if len == 4 {
            assert(token[0] == chars@[0] && token[1] == chars@[1] && token[2] == chars@[2]
                && token[3] == chars@[3]);
        }
    }
    yes
}

/// Reads one message off `text`.
pub fn parse_text(text: &str) -> (command: Option<Command>)
    ensures
        match command {
            Some(c) => command_of(text@) == Some(c@),
            None => command_of(text@) is None,
        },
{
    let chars = chars_of(text);
    let len = chars.len();
    let split = skip_run(&chars, 0, len, false);
    proof {
        assert(chars@.subrange(0, len as int) =~= text@);
        lemma_has_space(text@);
    }
    if split == len {
        return None;
    }
    let (start, end) = trim_bounds(&chars, split, len);
    let rest = text.substring_char(start, end).to_owned();
    proof {
        assert(chars@.subrange(split as int, len as int) =~= text@.skip(split as int));
        assert(rest@ == rest_of(text@));
    }
    if spells_read(&chars, split) {
        Some(Command::Consume { topic: rest })
    } else {
        let token = text.substring_char(0, split).to_owned();
        proof {
            assert(text@.subrange(0, split as int) =~= token_of(text@));
        }
        Some(Command::Publish { topic: token, value: rest })
    }
}

/// Reads one message off a chunk of bytes.
pub fn parse(bytes: &[u8]) -> (command: Result<Command, WireError>)
    ensures
        match command {
            Ok(c) => decode(bytes@) == Ok::<CommandModel, WireError>(c@),
            Err(e) => decode(bytes@) == Err::<CommandModel, WireError>(e),
        },
{
    match utf8_text(bytes) {
        None => Err(WireError::InvalidUtf8),
        Some(text) => {
            proof {
                vstd::utf8::encode_utf8_decode_utf8(text@);
            }
            match parse_text(text) {
                Some(command) => Ok(command),
                None => Err(WireError::MissingSeparator),
            }
        },
    }
}

/// The line that answers a consume: `<topic> <value>`.
pub fn reply_line(reply: &Reply) -> (line: String)
    ensures
        line@ == line_of(reply.topic@, reply.value@),
{
    publish_line(reply.topic.as_str(), reply.value.as_str())
}

/// The line that publishes `value` to `topic`: `<topic> <value>`.
pub fn publish_line(topic: &str, value: &str) -> (line: String)
    ensures
        line@ == line_of(topic@, value@),
{
    let mut line = String::from_str(topic);
    line.append(" ");
    line.append(value);
    proof {
        reveal_strlit(" ");
        assert(" "@ =~= seq![' ']);
    }
    line
}

/// The line that asks for a consume on `topic`: `read <topic>`.
pub fn read_line(topic: &str) -> (line: String)
    ensures
        line@ == read_line_of(topic@),
{
    let mut line = String::from_str("read ");
    line.append(topic);
    proof {
        reveal_strlit("read ");
        assert("read "@ =~= read_word() + seq![' ']);
    }
    line
}

/// A line `<topic> <value>` cuts back into its topic and its value, where
/// the topic holds no whitespace and the value neither starts nor ends with
/// whitespace.
pub proof fn lemma_line_cuts_back(topic: Seq<char>, value: Seq<char>)
    requires
        !has_space(topic),
        trim(value) == value,
    ensures
        has_space(line_of(topic, value)),
        token_of(line_of(topic, value)) == topic,
        rest_of(line_of(topic, value)) == value,
{
    let line = line_of(topic, value);
    let n = topic.len();
    assert(line[n as int] == ' ');
    assert forall|j: int| 0 <= j < n implies !is_space(#[trigger] line[j]) by {
        assert(line[j] == topic[j]);
    }
    lemma_leading_run_is(line, false, n);
    assert(line.take(n as int) =~= topic);
    let tail = line.skip(n as int);
    assert(tail =~= seq![' '] + value);
    assert(tail.drop_first() =~= value);
    lemma_leading_run_bound(value, true);
    lemma_trailing_run_bound(value.skip(leading_run(value, true) as int), true);
    assert(leading_run(value, true) == 0);
    assert(value.skip(0) =~= value);
    assert(tail.skip(1) =~= value);
}

/// What a client publishes, the broker reads as that publish: the bytes of
/// the line `<topic> <value>` spell the command that publishes `value` to
/// `topic`, where the topic holds no whitespace and is not the word `read`, and
/// the value neither starts nor ends with whitespace.
pub proof fn lemma_publish_line_reads_back(topic: Seq<char>, value: Seq<char>)
    requires
        !has_space(topic),
        topic != read_word(),
        trim(value) == value,
    ensures
        command_of(line_of(topic, value)) == Some(CommandModel::Publish { topic, value }),
        decode(encode_utf8(line_of(topic, value))) == Ok::<CommandModel, WireError>(
            CommandModel::Publish { topic, value },
        ),
{
    lemma_line_cuts_back(topic, value);
    vstd::utf8::encode_utf8_valid_utf8(line_of(topic, value));
    vstd::utf8::encode_utf8_decode_utf8(line_of(topic, value));
}

/// What a client asks, the broker reads as that consume: the bytes of the
/// line `read <topic>` spell the command that consumes from `topic`, where the
/// topic neither starts nor ends with whitespace.
pub proof fn lemma_read_line_reads_back(topic: Seq<char>)
    requires
        trim(topic) == topic,
    ensures
        command_of(read_line_of(topic)) == Some(CommandModel::Consume { topic }),
        decode(encode_utf8(read_line_of(topic))) == Ok::<CommandModel, WireError>(
            CommandModel::Consume { topic },
        ),
{
    assert forall|i: int| 0 <= i < read_word().len() implies !is_space(
        #[trigger] read_word()[i],
    ) by {}
    lemma_line_cuts_back(read_word(), topic);
    vstd::utf8::encode_utf8_valid_utf8(read_line_of(topic));
    vstd::utf8::encode_utf8_decode_utf8(read_line_of(topic));
}

} // verus!
