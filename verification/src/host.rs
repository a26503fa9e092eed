//! The client side of the broker, as the host offers it to its modules: what
//! to send in order to publish or to read, and what a response holds.

use crate::text::utf8_text;
use crate::wire::{line_of, publish_line, read_line, read_line_of};
use vstd::prelude::*;
use vstd::utf8::{decode_utf8, valid_utf8};

verus! {

/// What a read of the broker's response brought.
#[derive(Debug, Clone, PartialEq, Eq)]
pub enum Response {
    /// No bytes yet: read again.
    Pending,
    /// The response, as text.
    Text(String),
    /// Bytes that are not UTF-8 text.
    Invalid,
}

/// A response over plain text.
pub enum ResponseModel {
    Pending,
    Text(Seq<char>),
    Invalid,
}

impl View for Response {
    type V = ResponseModel;

    open spec fn view(&self) -> ResponseModel {
        match *self {
            Response::Pending => ResponseModel::Pending,
            Response::Text(text) => ResponseModel::Text(text@),
            Response::Invalid => ResponseModel::Invalid,
        }
    }
}

/// What `bytes` hold as a response: any bytes at all are the whole response.
pub open spec fn response_of(bytes: Seq<u8>) -> ResponseModel {
    if bytes.len() == 0 {
        ResponseModel::Pending
    } else if valid_utf8(bytes) {
        ResponseModel::Text(decode_utf8(bytes))
    } else {
        ResponseModel::Invalid
    }
}

/// The log line `Module: <module>, Message: <message>`.
pub open spec fn log_line_of(module: Seq<char>, message: Seq<char>) -> Seq<char> {
    seq!['M', 'o', 'd', 'u', 'l', 'e', ':', ' '] + module + seq![
        ',',
        ' ',
        'M',
        'e',
        's',
        's',
        'a',
        'g',
        'e',
        ':',
        ' ',
    ] + message
}

/// What the host does for its modules: logging, and publishing to and
/// reading from the broker.
#[derive(Debug, Clone, Copy, PartialEq, Eq, Default)]
pub struct Hostobservability;

impl Hostobservability {
    /// The line to log for `message` of the module `modulename`.
    pub fn loginfo(&self, modulename: &str, message: &str) -> (line: String)
        ensures
            line@ == log_line_of(modulename@, message@),
    {
        let mut line = String::from_str("Module: ");
        line.append(modulename);
        line.append(", Message: ");
        line.append(message);
        proof {
            reveal_strlit("Module: ");
            reveal_strlit(", Message: ");
            assert(line@ =~= log_line_of(modulename@, message@));
        }
        line
    }

    /// The line to send to the broker in order to publish `message` to
    /// `topic`.
    pub fn publish(&self, topic: &str, message: &str) -> (line: String)
        ensures
            line@ == line_of(topic@, message@),
    {
        publish_line(topic, message)
    }

    /// The line to send to the broker in order to read from `topic`.
    pub fn read(&self, topic: &str) -> (line: String)
        ensures
            line@ == read_line_of(topic@),
    {
        read_line(topic)
    }

    /// What a read of the broker's response brought.
    pub fn response(&self, bytes: &[u8]) -> (response: Response)
        ensures
            response@ == response_of(bytes@),
    {
        if bytes.len() == 0 {
            return Response::Pending;
        }
        match utf8_text(bytes) {
            Some(text) => {
                proof {
                    vstd::utf8::encode_utf8_decode_utf8(text@);
                }
                Response::Text(text.to_owned())
            },
            None => Response::Invalid,
        }
    }
}

} // verus!
