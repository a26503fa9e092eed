use pubsub_broker::config::{ConfigError, Configuration};

fn entries(
    buffer_size: Option<&str>,
    interval: Option<&str>,
    topics: Option<&str>,
) -> Result<Configuration, ConfigError> {
    Configuration::from_entries(
        buffer_size.map(|s| s.to_string()),
        interval.map(|s| s.to_string()),
        topics.map(|s| s.to_string()),
    )
}

const DOCUMENT: &str = "data_read_buffer_size = \"1024\"\n\
receiver_loop_interval_in_milliseconds = \"50\"\n\
topics = \"telemetry alerts\"\n";

#[test]
fn a_document_with_the_three_strings_is_a_configuration() {
    let configuration = Configuration::new(DOCUMENT.to_string()).unwrap();
    assert_eq!(configuration.data_read_buffer_size(), 1024);
    assert_eq!(configuration.receiver_loop_interval_in_milliseconds(), 50);
    assert_eq!(configuration.topics(), vec!["telemetry".to_string(), "alerts".to_string()]);
}

#[test]
fn text_that_is_no_toml_is_unparsable() {
    assert_eq!(Configuration::new("topics = ".to_string()), Err(ConfigError::Unparsable));
    assert_eq!(Configuration::new("[[".to_string()), Err(ConfigError::Unparsable));
    assert_eq!(Configuration::new("a = \"1\"\na = \"2\"".to_string()), Err(ConfigError::Unparsable));
}

#[test]
fn an_empty_document_lacks_the_buffer_size() {
    assert_eq!(Configuration::new(String::new()), Err(ConfigError::MissingBufferSize));
}

#[test]
fn a_value_that_is_no_string_counts_as_missing() {
    let document = "data_read_buffer_size = 1024\n\
receiver_loop_interval_in_milliseconds = \"50\"\n\
topics = \"t\"\n";
    assert_eq!(Configuration::new(document.to_string()), Err(ConfigError::MissingBufferSize));
    let document = "data_read_buffer_size = \"1024\"\n\
receiver_loop_interval_in_milliseconds = \"50\"\n\
topics = [\"t\"]\n";
    assert_eq!(Configuration::new(document.to_string()), Err(ConfigError::MissingTopics));
}

#[test]
fn a_key_in_a_table_of_the_document_is_not_at_its_top_level() {
    let document = "data_read_buffer_size = \"1024\"\n\
topics = \"t\"\n\
[server]\n\
receiver_loop_interval_in_milliseconds = \"50\"\n";
    assert_eq!(Configuration::new(document.to_string()), Err(ConfigError::MissingInterval));
}

#[test]
fn each_missing_entry_is_named() {
    assert_eq!(entries(None, Some("50"), Some("t")), Err(ConfigError::MissingBufferSize));
    assert_eq!(entries(Some("1024"), None, Some("t")), Err(ConfigError::MissingInterval));
    assert_eq!(entries(Some("1024"), Some("50"), None), Err(ConfigError::MissingTopics));
    assert_eq!(entries(None, None, None), Err(ConfigError::MissingBufferSize));
}

#[test]
fn a_buffer_size_must_be_a_positive_number_of_32_bits() {
    for text in ["", "0", "-1", "1k", " 1", "4294967296", "1.5"] {
        assert_eq!(entries(Some(text), Some("50"), Some("t")), Err(ConfigError::InvalidBufferSize));
    }
    let largest = entries(Some("4294967295"), Some("50"), Some("t")).unwrap();
    assert_eq!(largest.data_read_buffer_size(), 4294967295);
    let smallest = entries(Some("+1"), Some("50"), Some("t")).unwrap();
    assert_eq!(smallest.data_read_buffer_size(), 1);
}

#[test]
fn an_interval_must_be_a_positive_number_of_64_bits() {
    for text in ["", "0", "-1", "50ms", "18446744073709551616"] {
        assert_eq!(entries(Some("1"), Some(text), Some("t")), Err(ConfigError::InvalidInterval));
    }
    let largest = entries(Some("1"), Some("18446744073709551615"), Some("t")).unwrap();
    assert_eq!(largest.receiver_loop_interval_in_milliseconds(), u64::MAX);
    let beyond_32_bits = entries(Some("1"), Some("4294967296"), Some("t")).unwrap();
    assert_eq!(beyond_32_bits.receiver_loop_interval_in_milliseconds(), 4294967296);
}

#[test]
fn the_topics_are_the_words_of_their_entry() {
    let none = entries(Some("1"), Some("1"), Some("")).unwrap();
    assert_eq!(none.topics(), Vec::<String>::new());
    let blank = entries(Some("1"), Some("1"), Some(" \t ")).unwrap();
    assert_eq!(blank.topics(), Vec::<String>::new());
    let some = entries(Some("1"), Some("1"), Some("  temp\tpressure  temp ")).unwrap();
    assert_eq!(
        some.topics(),
        vec!["temp".to_string(), "pressure".to_string(), "temp".to_string()]
    );
}

#[test]
fn the_first_entry_that_is_wrong_is_reported() {
    assert_eq!(entries(Some("x"), None, None), Err(ConfigError::InvalidBufferSize));
    assert_eq!(entries(Some("1"), Some("x"), None), Err(ConfigError::InvalidInterval));
}

#[test]
fn a_document_may_hold_more_than_the_three_strings() {
    let document = "title = \"broker\"\n\
data_read_buffer_size = \"8\"\n\
receiver_loop_interval_in_milliseconds = \"5000\"\n\
topics = \"temp\"\n\
[extra]\n\
topics = \"other\"\n";
    let configuration = Configuration::new(document.to_string()).unwrap();
    assert_eq!(configuration.data_read_buffer_size(), 8);
    assert_eq!(configuration.receiver_loop_interval_in_milliseconds(), 5000);
    assert_eq!(configuration.topics(), vec!["temp".to_string()]);
}
