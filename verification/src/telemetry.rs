//! The simulated source of telemetry: its configuration.

use crate::document::{document_strings, entry_of, entry_text, parse_document, string_entry};
use crate::number::{number_up_to, parse_number};
use vstd::prelude::*;

verus! {

/// Why a document is no configuration of the telemetry source.
#[derive(Debug, Clone, Copy, PartialEq, Eq, Structural)]
pub enum ConfigError {
    /// The text is no TOML document.
    Unparsable,
    /// The document holds no string under
    /// `telemetry_interval_in_milliseconds`.
    MissingInterval,
    /// The interval is no decimal number up to 4294967295.
    InvalidInterval,
}

/// The interval that the entry spells, or what is wrong with it.
pub open spec fn interval_of(interval: Option<Seq<char>>) -> Result<nat, ConfigError> {
    if interval is None {
        Err(ConfigError::MissingInterval)
    } else if number_up_to(interval->0, u32::MAX as nat) is None {
        Err(ConfigError::InvalidInterval)
    } else {
        Ok(number_up_to(interval->0, u32::MAX as nat)->0)
    }
}

/// The interval that a document's strings spell.
pub open spec fn interval_in(entries: Map<Seq<char>, Seq<char>>) -> Result<nat, ConfigError> {
    interval_of(entry_of(entries, "telemetry_interval_in_milliseconds"@))
}

/// The configuration of the telemetry source.
#[derive(Debug, Clone, Copy, PartialEq, Eq)]
pub struct Configuration {
    telemetry_interval_in_milliseconds: u32,
}

impl View for Configuration {
    type V = nat;

    closed spec fn view(&self) -> nat {
        self.telemetry_interval_in_milliseconds as nat
    }
}

impl Configuration {
    /// The configuration that the TOML document `configfilecontents` holds.
    pub fn new(configfilecontents: String) -> (configuration: Result<Configuration, ConfigError>)
        ensures
            match document_strings(configfilecontents@) {
                None => configuration == Err::<Configuration, ConfigError>(
                    ConfigError::Unparsable,
                ),
                Some(entries) => match configuration {
                    Ok(c) => interval_in(entries) == Ok::<nat, ConfigError>(c@),
                    Err(e) => interval_in(entries) == Err::<nat, ConfigError>(e),
                },
            },
    {
        match parse_document(configfilecontents.as_str()) {
            Err(_) => Err(ConfigError::Unparsable),
            Ok(document) => Configuration::from_entry(
                string_entry(&document, "telemetry_interval_in_milliseconds"),
            ),
        }
    }

    /// The configuration that the entry spells.
    pub fn from_entry(interval: Option<String>) -> (configuration: Result<
        Configuration,
        ConfigError,
    >)
        ensures
            match configuration {
                Ok(c) => interval_of(entry_text(interval)) == Ok::<nat, ConfigError>(c@),
                Err(e) => interval_of(entry_text(interval)) == Err::<nat, ConfigError>(e),
            },
    {
        let text = match interval {
            Some(text) => text,
            None => {
                return Err(ConfigError::MissingInterval);
            },
        };
        match parse_number(text.as_str(), u32::MAX as u64) {
            Some(n) => Ok(Configuration { telemetry_interval_in_milliseconds: n as u32 }),
            None => Err(ConfigError::InvalidInterval),
        }
    }

    /// The time between two messages, in milliseconds.
    pub fn telemetry_interval_in_milliseconds(&self) -> (interval: u32)
        ensures
            interval == self@,
    {
        self.telemetry_interval_in_milliseconds
    }
}

} // verus!
