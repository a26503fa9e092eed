//! A TOML document, seen through the strings that it holds at its top level.

use vstd::prelude::*;

verus! {

/// `toml::Value`, as an opaque type: what a document holds is known through
/// `string_entries` alone.
#[verifier::external_type_specification]
#[verifier::external_body]
pub struct ExTomlValue(toml::Value);

/// `toml::de::Error`, as an opaque type: nothing is read off a parser's
/// error.
#[verifier::external_type_specification]
#[verifier::external_body]
pub struct ExTomlError(toml::de::Error);

/// The strings that a TOML table holds, by key: one entry for each key whose
/// value is a string.
pub uninterp spec fn string_entries(document: toml::Value) -> Map<Seq<char>, Seq<char>>;

/// The strings that the TOML document `text` holds at its top level, by key,
/// if `text` is a TOML document.
pub uninterp spec fn document_strings(text: Seq<char>) -> Option<Map<Seq<char>, Seq<char>>>;

/// `str::parse::<toml::Value>`: the document that `text` spells, or the
/// parser's error where it spells none.
#[verifier::external_body]
pub(crate) fn parse_document(text: &str) -> (parsed: Result<toml::Value, toml::de::Error>)
    ensures
        match parsed {
            Ok(document) => document_strings(text@) == Some(string_entries(document)),
            Err(_) => document_strings(text@) is None,
        },
{
    text.parse::<toml::Value>()
}

/// `toml::Value::get` with a key: the string that the table holds under
/// `key`, or nothing where it has no such key or holds something else there.
#[verifier::external_body]
pub(crate) fn string_entry(document: &toml::Value, key: &str) -> (entry: Option<String>)
    ensures
        match entry {
            Some(text) => string_entries(*document).contains_key(key@) && string_entries(
                *document,
            )[key@] == text@,
            None => !string_entries(*document).contains_key(key@),
        },
{
    match document.get(key) {
        Some(toml::Value::String(text)) => Some(text.clone()),
        _ => None,
    }
}

/// The entry of `entries` under `key`, if there is one.
pub open spec fn entry_of(entries: Map<Seq<char>, Seq<char>>, key: Seq<char>) -> Option<
    Seq<char>,
> {
    if entries.contains_key(key) {
        Some(entries[key])
    } else {
        None
    }
}

/// The text of an entry, if there is one.
pub open spec fn entry_text(entry: Option<String>) -> Option<Seq<char>> {
    match entry {
        Some(text) => Some(text@),
        None => None,
    }
}

} // verus!
