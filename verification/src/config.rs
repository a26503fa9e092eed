//! The broker's configuration: the size of the read buffer, the interval of
//! the broker's tick, and the names of the topics. It is read off a TOML
//! document that holds each of the three as a string.

use crate::document::{
    document_strings, entry_of, entry_text, parse_document, string_entry,
};
use crate::number::{number_up_to, parse_number};
use crate::text::{split_words, texts_of, words};
use vstd::prelude::*;

verus! {

/// Why a document is no configuration.
#[derive(Debug, Clone, Copy, PartialEq, Eq, Structural)]
pub enum ConfigError {
    /// The text is no TOML document.
    Unparsable,
    /// The document holds no string under `data_read_buffer_size`.
    MissingBufferSize,
    /// The buffer size is no decimal number from 1 to 4294967295.
    InvalidBufferSize,
    /// The document holds no string under
    /// `receiver_loop_interval_in_milliseconds`.
    MissingInterval,
    /// The interval is no decimal number from 1 to 18446744073709551615.
    InvalidInterval,
    /// The document holds no string under `topics`.
    MissingTopics,
}

/// A configuration over plain values.
pub struct ConfigurationModel {
    pub data_read_buffer_size: nat,
    pub receiver_loop_interval_in_milliseconds: nat,
    pub topics: Seq<Seq<char>>,
}

/// The configuration that the three entries spell, or what is wrong with the
/// first of them that is wrong. The two numbers are decimal and positive; the
/// topics are the words of their entry.
pub open spec fn configuration_of(
    buffer_size: Option<Seq<char>>,
    interval: Option<Seq<char>>,
    topics: Option<Seq<char>>,
) -> Result<ConfigurationModel, ConfigError> {
    if buffer_size is None {
        Err(ConfigError::MissingBufferSize)
    } else if number_up_to(buffer_size->0, u32::MAX as nat) is None || number_up_to(
        buffer_size->0,
        u32::MAX as nat,
    )->0 == 0 {
        Err(ConfigError::InvalidBufferSize)
    } else if interval is None {
        Err(ConfigError::MissingInterval)
    } else if number_up_to(interval->0, u64::MAX as nat) is None || number_up_to(
        interval->0,
        u64::MAX as nat,
    )->0 == 0 {
        Err(ConfigError::InvalidInterval)
    } else if topics is None {
        Err(ConfigError::MissingTopics)
    } else {
        Ok(
            ConfigurationModel {
                data_read_buffer_size: number_up_to(buffer_size->0, u32::MAX as nat)->0,
                receiver_loop_interval_in_milliseconds: number_up_to(
                    interval->0,
                    u64::MAX as nat,
                )->0,
                topics: words(topics->0),
            },
        )
    }
}

/// The configuration that a document's strings spell.
pub open spec fn configuration_in(entries: Map<Seq<char>, Seq<char>>) -> Result<
    ConfigurationModel,
    ConfigError,
> {
    configuration_of(
        entry_of(entries, "data_read_buffer_size"@),
        entry_of(entries, "receiver_loop_interval_in_milliseconds"@),
        entry_of(entries, "topics"@),
    )
}

/// The broker's configuration.
#[derive(Debug, PartialEq, Eq)]
pub struct Configuration {
    data_read_buffer_size: u32,
    receiver_loop_interval_in_milliseconds: u64,
    topics: Vec<String>,
}

impl View for Configuration {
    type V = ConfigurationModel;

    closed spec fn view(&self) -> ConfigurationModel {
        ConfigurationModel {
            data_read_buffer_size: self.data_read_buffer_size as nat,
            receiver_loop_interval_in_milliseconds: self.receiver_loop_interval_in_milliseconds as nat,
            topics: texts_of(self.topics@),
        }
    }
}

impl Configuration {
    #[verifier::type_invariant]
    spec fn well_formed(&self) -> bool {
        self.data_read_buffer_size > 0 && self.receiver_loop_interval_in_milliseconds > 0
    }

    /// The configuration that the TOML document `configfilecontents` holds.
    pub fn new(configfilecontents: String) -> (configuration: Result<Configuration, ConfigError>)
        ensures
            match document_strings(configfilecontents@) {
                None => configuration == Err::<Configuration, ConfigError>(
                    ConfigError::Unparsable,
                ),
                Some(entries) => match configuration {
                    Ok(c) => configuration_in(entries) == Ok::<ConfigurationModel, ConfigError>(c@),
                    Err(e) => configuration_in(entries) == Err::<ConfigurationModel, ConfigError>(
                        e,
                    ),
                },
            },
    {
        match parse_document(configfilecontents.as_str()) {
            Err(_) => Err(ConfigError::Unparsable),
            Ok(document) => {
                let buffer_size = string_entry(&document, "data_read_buffer_size");
                let interval = string_entry(&document, "receiver_loop_interval_in_milliseconds");
                let topics = string_entry(&document, "topics");
                Configuration::from_entries(buffer_size, interval, topics)
            },
        }
    }

    /// The configuration that the three entries spell.
    pub fn from_entries(
        buffer_size: Option<String>,
        interval: Option<String>,
        topics: Option<String>,
    ) -> (configuration: Result<Configuration, ConfigError>)
        ensures
            match configuration {
                Ok(c) => configuration_of(
                    entry_text(buffer_size),
                    entry_text(interval),
                    entry_text(topics),
                ) == Ok::<ConfigurationModel, ConfigError>(c@),
                Err(e) => configuration_of(
                    entry_text(buffer_size),
                    entry_text(interval),
                    entry_text(topics),
                ) == Err::<ConfigurationModel, ConfigError>(e),
            },
    {
        let buffer_text = match buffer_size {
            Some(text) => text,
            None => {
                return Err(ConfigError::MissingBufferSize);
            },
        };
        let size: u32 = match parse_number(buffer_text.as_str(), u32::MAX as u64) {
            Some(n) => if n == 0 {
                return Err(ConfigError::InvalidBufferSize);
            } else {
                n as u32
            },
            None => {
                return Err(ConfigError::InvalidBufferSize);
            },
        };
        let interval_text = match interval {
            Some(text) => text,
            None => {
                return Err(ConfigError::MissingInterval);
            },
        };
        let ticks: u64 = match parse_number(interval_text.as_str(), u64::MAX) {
            Some(n) => if n == 0 {
                return Err(ConfigError::InvalidInterval);
            } else {
                n
            },
            None => {
                return Err(ConfigError::InvalidInterval);
            },
        };
        let topics_text = match topics {
            Some(text) => text,
            None => {
                return Err(ConfigError::MissingTopics);
            },
        };
        let names = split_words(topics_text.as_str());
        Ok(
            Configuration {
                data_read_buffer_size: size,
                receiver_loop_interval_in_milliseconds: ticks,
                topics: names,
            },
        )
    }

    /// The size of the buffer into which a connection reads, in bytes.
    pub fn data_read_buffer_size(&self) -> (size: u32)
        ensures
            size == self@.data_read_buffer_size,
            size > 0,
    {
        proof {
            use_type_invariant(self);
        }
        self.data_read_buffer_size
    }

    /// The time between two ticks of the broker, in milliseconds.
    pub fn receiver_loop_interval_in_milliseconds(&self) -> (interval: u64)
        ensures
            interval == self@.receiver_loop_interval_in_milliseconds,
            interval > 0,
    {
        proof {
            use_type_invariant(self);
        }
        self.receiver_loop_interval_in_milliseconds
    }

    /// The names of the topics to provision.
    pub fn topics(&self) -> (names: Vec<String>)
        ensures
            texts_of(names@) == self@.topics,
    {
        let mut names: Vec<String> = Vec::new();
        let mut i: usize = 0;
        while i < self.topics.len()
            invariant
                i <= self.topics.len(),
                names.len() == i,
                forall|j: int| 0 <= j < i ==> (#[trigger] names@[j])@ == self.topics@[j]@,
            decreases self.topics.len() - i,
        {
            names.push(self.topics[i].clone());
            i += 1;
        }
        proof {
            assert(texts_of(names@) =~= texts_of(self.topics@));
        }
        names
    }
}

} // verus!
