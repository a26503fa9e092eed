//! The gateway that carries messages from the broker to an HTTP endpoint: its
//! configuration, and whether a delivery went well.

use crate::document::{document_strings, entry_of, entry_text, parse_document, string_entry};
use crate::number::{number_up_to, parse_number};
use vstd::prelude::*;

verus! {

/// Why a document is no configuration of the gateway.
#[derive(Debug, Clone, Copy, PartialEq, Eq, Structural)]
pub enum ConfigError {
    /// The text is no TOML document.
    Unparsable,
    /// The document holds no string under `http_post_url`.
    MissingUrl,
    /// The document holds no string under
    /// `http_post_interval_in_milliseconds`.
    MissingInterval,
    /// The interval is no decimal number up to 18446744073709551615.
    InvalidInterval,
    /// The document holds no string under `http_post_response_code`.
    MissingResponseCode,
    /// The response code is no decimal number up to 65535.
    InvalidResponseCode,
    /// The document holds no string under `topic`.
    MissingTopic,
}

/// A configuration of the gateway over plain values.
pub struct ConfigurationModel {
    pub http_post_url: Seq<char>,
    pub http_post_interval_in_milliseconds: nat,
    pub http_post_response_code: nat,
    pub topic: Seq<char>,
}

/// The configuration that the four entries spell, or what is wrong with the
/// first of them that is wrong.
pub open spec fn configuration_of(
    url: Option<Seq<char>>,
    interval: Option<Seq<char>>,
    response_code: Option<Seq<char>>,
    topic: Option<Seq<char>>,
) -> Result<ConfigurationModel, ConfigError> {
    if url is None {
        Err(ConfigError::MissingUrl)
    } else if interval is None {
        Err(ConfigError::MissingInterval)
    } else if number_up_to(interval->0, u64::MAX as nat) is None {
        Err(ConfigError::InvalidInterval)
    } else if response_code is None {
        Err(ConfigError::MissingResponseCode)
    } else if number_up_to(response_code->0, u16::MAX as nat) is None {
        Err(ConfigError::InvalidResponseCode)
    } else if topic is None {
        Err(ConfigError::MissingTopic)
    } else {
        Ok(
            ConfigurationModel {
                http_post_url: url->0,
                http_post_interval_in_milliseconds: number_up_to(interval->0, u64::MAX as nat)->0,
                http_post_response_code: number_up_to(response_code->0, u16::MAX as nat)->0,
                topic: topic->0,
            },
        )
    }
}

/// The configuration that a document's strings spell.
pub open spec fn configuration_in(entries: Map<Seq<char>, Seq<char>>) -> Result<
    ConfigurationModel,
    ConfigError,
> {
    configuration_of(
        entry_of(entries, "http_post_url"@),
        entry_of(entries, "http_post_interval_in_milliseconds"@),
        entry_of(entries, "http_post_response_code"@),
        entry_of(entries, "topic"@),
    )
}

/// The gateway's configuration.
#[derive(Debug, PartialEq, Eq)]
pub struct Configuration {
    http_post_url: String,
    http_post_interval_in_milliseconds: u64,
    http_post_response_code: u16,
    topic: String,
}

impl View for Configuration {
    type V = ConfigurationModel;

    closed spec fn view(&self) -> ConfigurationModel {
        ConfigurationModel {
            http_post_url: self.http_post_url@,
            http_post_interval_in_milliseconds: self.http_post_interval_in_milliseconds as nat,
            http_post_response_code: self.http_post_response_code as nat,
            topic: self.topic@,
        }
    }
}

impl Configuration {
    /// The configuration that the TOML document `configfilecontents` holds.
    pub fn new(configfilecontents: String) -> (configuration: Result<Configuration, ConfigError>)
        ensures
            match document_strings(configfilecontents@) {
                None => configuration == Err::<Configuration, ConfigError>(
                    ConfigError::Unparsable,
                ),
                Some(entries) => match configuration {
                    Ok(c) => configuration_in(entries) == Ok::<ConfigurationModel, ConfigError>(c@),
                    Err(e) => configuration_in(entries) == Err::<ConfigurationModel, ConfigError>(
                        e,
                    ),
                },
            },
    {
        match parse_document(configfilecontents.as_str()) {
            Err(_) => Err(ConfigError::Unparsable),
            Ok(document) => {
                let url = string_entry(&document, "http_post_url");
                let interval = string_entry(&document, "http_post_interval_in_milliseconds");
                let response_code = string_entry(&document, "http_post_response_code");
                let topic = string_entry(&document, "topic");
                Configuration::from_entries(url, interval, response_code, topic)
            },
        }
    }

    /// The configuration that the four entries spell.
    pub fn from_entries(
        url: Option<String>,
        interval: Option<String>,
        response_code: Option<String>,
        topic: Option<String>,
    ) -> (configuration: Result<Configuration, ConfigError>)
        ensures
            match configuration {
                Ok(c) => configuration_of(
                    entry_text(url),
                    entry_text(interval),
                    entry_text(response_code),
                    entry_text(topic),
                ) == Ok::<ConfigurationModel, ConfigError>(c@),
                Err(e) => configuration_of(
                    entry_text(url),
                    entry_text(interval),
                    entry_text(response_code),
                    entry_text(topic),
                ) == Err::<ConfigurationModel, ConfigError>(e),
            },
    {
        let http_post_url = match url {
            Some(text) => text,
            None => {
                return Err(ConfigError::MissingUrl);
            },
        };
        let interval_text = match interval {
            Some(text) => text,
            None => {
                return Err(ConfigError::MissingInterval);
            },
        };
        let http_post_interval_in_milliseconds: u64 = match parse_number(
            interval_text.as_str(),
            u64::MAX,
        ) {
            Some(n) => n,
            None => {
                return Err(ConfigError::InvalidInterval);
            },
        };
        let code_text = match response_code {
            Some(text) => text,
            None => {
                return Err(ConfigError::MissingResponseCode);
            },
        };
        let http_post_response_code: u16 = match parse_number(code_text.as_str(), u16::MAX as u64) {
            Some(n) => n as u16,
            None => {
                return Err(ConfigError::InvalidResponseCode);
            },
        };
        let topic = match topic {
            Some(text) => text,
            None => {
                return Err(ConfigError::MissingTopic);
            },
        };
        Ok(
            Configuration {
                http_post_url,
                http_post_interval_in_milliseconds,
                http_post_response_code,
                topic,
            },
        )
    }

    /// The address to which messages are posted.
    pub fn http_post_url(&self) -> (url: String)
        ensures
            url@ == self@.http_post_url,
    {
        self.http_post_url.clone()
    }

    /// The time between two posts, in milliseconds.
    pub fn http_post_interval_in_milliseconds(&self) -> (interval: u64)
        ensures
            interval == self@.http_post_interval_in_milliseconds,
    {
        self.http_post_interval_in_milliseconds
    }

    /// The status code with which the endpoint answers a post that went well.
    pub fn http_post_response_code(&self) -> (code: u16)
        ensures
            code == self@.http_post_response_code,
    {
        self.http_post_response_code
    }

    /// The topic from which the gateway reads.
    pub fn topic(&self) -> (topic: String)
        ensures
            topic@ == self@.topic,
    {
        self.topic.clone()
    }

    /// Whether a post that was answered with `status_code` went well.
    pub fn delivered(&self, status_code: u16) -> (well: bool)
        ensures
            well == (status_code == self@.http_post_response_code),
    {
        status_code == self.http_post_response_code
    }
}

} // verus!
