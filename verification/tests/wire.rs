use pubsub_broker::command::{Command, Reply};
use pubsub_broker::wire::{parse, parse_text, publish_line, read_line, reply_line, WireError};

fn publish(topic: &str, value: &str) -> Command {
    Command::Publish { topic: topic.to_string(), value: value.to_string() }
}

fn consume(topic: &str) -> Command {
    Command::Consume { topic: topic.to_string() }
}

#[test]
fn a_topic_and_a_value_spell_a_publish() {
    assert_eq!(parse(b"temp 21.5"), Ok(publish("temp", "21.5")));
    assert_eq!(parse_text("temp 21.5"), Some(publish("temp", "21.5")));
}

#[test]
fn the_word_read_and_a_topic_spell_a_consume() {
    assert_eq!(parse(b"read temp"), Ok(consume("temp")));
    assert_eq!(parse_text("read temp"), Some(consume("temp")));
}

#[test]
fn a_single_token_is_no_message() {
    assert_eq!(parse(b"temp"), Err(WireError::MissingSeparator));
    assert_eq!(parse(b"read"), Err(WireError::MissingSeparator));
    assert_eq!(parse_text("temp"), None);
}

#[test]
fn no_bytes_are_no_message() {
    assert_eq!(parse(b""), Err(WireError::MissingSeparator));
    assert_eq!(parse_text(""), None);
}

#[test]
fn bytes_that_are_not_utf8_are_no_message() {
    assert_eq!(parse(&[0xff, 0x20, 0x61]), Err(WireError::InvalidUtf8));
    assert_eq!(parse(&[0x74, 0x20, 0xc3]), Err(WireError::InvalidUtf8));
    assert_eq!(parse(&[0xed, 0xa0, 0x80, 0x20]), Err(WireError::InvalidUtf8));
}

#[test]
fn the_value_is_everything_after_the_token_trimmed() {
    assert_eq!(parse(b"temp   21.5 C  \n"), Ok(publish("temp", "21.5 C")));
    assert_eq!(parse(b"temp {\"a\" : 1, \"b\":2}"), Ok(publish("temp", "{\"a\" : 1, \"b\":2}")));
    assert_eq!(parse(b"read   temp\r\n"), Ok(consume("temp")));
    assert_eq!(parse(b"read a b"), Ok(consume("a b")));
}

#[test]
fn any_whitespace_ends_the_token() {
    assert_eq!(parse(b"temp\t21.5"), Ok(publish("temp", "21.5")));
    assert_eq!(parse(b"temp\n21.5"), Ok(publish("temp", "21.5")));
    assert_eq!(parse("temp\u{00a0}21.5".as_bytes()), Ok(publish("temp", "21.5")));
    assert_eq!(parse("temp\u{3000}21.5 x".as_bytes()), Ok(publish("temp", "21.5 x")));
    assert_eq!(parse("read\u{2003}temp".as_bytes()), Ok(consume("temp")));
}

#[test]
fn a_token_followed_by_whitespace_only_has_an_empty_rest() {
    assert_eq!(parse(b"temp "), Ok(publish("temp", "")));
    assert_eq!(parse(b"read \n"), Ok(consume("")));
}

#[test]
fn a_chunk_that_starts_with_whitespace_has_an_empty_token() {
    assert_eq!(parse(b" temp 21.5"), Ok(publish("", "temp 21.5")));
    assert_eq!(parse(b" read temp"), Ok(publish("", "read temp")));
    assert_eq!(parse(b" "), Ok(publish("", "")));
}

#[test]
fn only_the_exact_word_read_asks_for_a_consume() {
    assert_eq!(parse(b"Read temp"), Ok(publish("Read", "temp")));
    assert_eq!(parse(b"reads temp"), Ok(publish("reads", "temp")));
    assert_eq!(parse(b"rea temp"), Ok(publish("rea", "temp")));
    assert_eq!(parse(b"READ temp"), Ok(publish("READ", "temp")));
    assert_eq!(parse(b"daer temp"), Ok(publish("daer", "temp")));
}

#[test]
fn text_beyond_ascii_is_cut_by_characters() {
    assert_eq!(parse("température 21,5 °C".as_bytes()), Ok(publish("température", "21,5 °C")));
    assert_eq!(parse("read 温度".as_bytes()), Ok(consume("温度")));
    assert_eq!(parse("温度 二十".as_bytes()), Ok(publish("温度", "二十")));
}

#[test]
fn a_reply_is_written_as_topic_and_value() {
    let reply = Reply { topic: "temp".to_string(), value: "21.5".to_string() };
    assert_eq!(reply_line(&reply), "temp 21.5");
    let empty = Reply { topic: "temp".to_string(), value: "empty".to_string() };
    assert_eq!(reply_line(&empty), "temp empty");
}

#[test]
fn a_publish_line_is_topic_and_value() {
    assert_eq!(publish_line("temp", "21.5"), "temp 21.5");
    assert_eq!(publish_line("telemetry", "{\"a\" : 1}"), "telemetry {\"a\" : 1}");
    assert_eq!(publish_line("", ""), " ");
}

#[test]
fn a_read_line_is_the_word_read_and_the_topic() {
    assert_eq!(read_line("temp"), "read temp");
    assert_eq!(read_line(""), "read ");
}

#[test]
fn what_a_client_sends_the_broker_reads_back() {
    let line = publish_line("telemetry", "{\"device Id\" : \"001\", \"temperature\" : 21.50}");
    assert_eq!(
        parse(line.as_bytes()),
        Ok(publish("telemetry", "{\"device Id\" : \"001\", \"temperature\" : 21.50}"))
    );
    let line = read_line("telemetry");
    assert_eq!(parse(line.as_bytes()), Ok(consume("telemetry")));
}

#[test]
fn the_rest_is_trimmed_as_the_standard_library_trims() {
    let samples = [
        " a",
        "  a  ",
        "\ta b\n",
        "\u{00a0}a\u{00a0}",
        "\u{3000}\u{2003} a \u{2003} b \u{1680}",
        " ",
        " \t\r\n",
        " a\u{200b} ",
        " \u{200b}a",
    ];
    for sample in samples {
        let line = format!("topic{}", sample);
        assert_eq!(parse(line.as_bytes()), Ok(publish("topic", sample.trim())), "{:?}", sample);
    }
}
