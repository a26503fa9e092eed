use pubsub_broker::broker::{Broker, Tick};
use pubsub_broker::command::{Command, Reply};
use pubsub_broker::store::TopicSize;

fn publish(topic: &str, value: &str) -> Command {
    Command::Publish { topic: topic.to_string(), value: value.to_string() }
}

fn consume(topic: &str) -> Command {
    Command::Consume { topic: topic.to_string() }
}

fn reply(topic: &str, value: &str) -> Reply {
    Reply { topic: topic.to_string(), value: value.to_string() }
}

fn size(topic: &str, size: usize) -> TopicSize {
    TopicSize { topic: topic.to_string(), size }
}

fn broker(names: &[&str]) -> Broker {
    Broker::new(names.iter().map(|name| name.to_string()).collect())
}

#[test]
fn publish_then_consume_hands_the_value_back() {
    let mut broker = broker(&["temp"]);
    assert_eq!(broker.apply(publish("temp", "21.5")), None);
    assert_eq!(broker.apply(consume("temp")), Some(reply("temp", "21.5")));
    assert_eq!(broker.apply(consume("temp")), Some(reply("temp", "empty")));
}

#[test]
fn a_publish_is_never_answered() {
    let mut broker = broker(&["temp"]);
    assert_eq!(broker.apply(publish("temp", "1")), None);
    assert_eq!(broker.apply(publish("other", "1")), None);
    assert_eq!(broker.sizes(), vec![size("temp", 1)]);
}

#[test]
fn a_consume_on_an_unknown_topic_is_never_answered() {
    let mut broker = broker(&["temp"]);
    broker.apply(publish("temp", "1"));
    assert_eq!(broker.apply(consume("humidity")), None);
    assert_eq!(broker.drain(vec![consume("humidity"), consume("")]), Vec::new());
    assert_eq!(broker.sizes(), vec![size("temp", 1)]);
}

#[test]
fn a_consume_on_an_empty_known_topic_says_empty() {
    let mut broker = broker(&["temp"]);
    assert_eq!(broker.apply(consume("temp")), Some(reply("temp", "empty")));
    assert_eq!(broker.sizes(), vec![size("temp", 0)]);
}

#[test]
fn publishes_followed_by_as_many_consumes_come_back_in_order() {
    let values = ["a", "b", "c", "d", "e", "f", "g"];
    let mut broker = broker(&["t", "u"]);
    let mut pending: Vec<Command> = values.iter().map(|v| publish("t", v)).collect();
    pending.extend(values.iter().map(|_| consume("t")));
    let replies = broker.drain(pending);
    let expected: Vec<Reply> = values.iter().map(|v| reply("t", v)).collect();
    assert_eq!(replies, expected);
    assert_eq!(broker.sizes(), vec![size("t", 0), size("u", 0)]);
}

#[test]
fn values_that_waited_come_out_before_those_published_later() {
    let mut broker = broker(&["t"]);
    broker.apply(publish("t", "old"));
    let replies = broker.drain(vec![
        publish("t", "new1"),
        publish("t", "new2"),
        consume("t"),
        consume("t"),
    ]);
    assert_eq!(replies, vec![reply("t", "old"), reply("t", "new1")]);
    assert_eq!(broker.sizes(), vec![size("t", 1)]);
    assert_eq!(broker.apply(consume("t")), Some(reply("t", "new2")));
}

#[test]
fn a_drained_queue_keeps_saying_empty() {
    let mut broker = broker(&["t"]);
    let replies = broker.drain(vec![
        publish("t", "1"),
        consume("t"),
        consume("t"),
        consume("t"),
        consume("t"),
    ]);
    assert_eq!(
        replies,
        vec![reply("t", "1"), reply("t", "empty"), reply("t", "empty"), reply("t", "empty")]
    );
    assert_eq!(broker.sizes(), vec![size("t", 0)]);
    assert_eq!(broker.apply(publish("t", "2")), None);
    assert_eq!(broker.apply(consume("t")), Some(reply("t", "2")));
}

#[test]
fn publishing_to_an_unknown_topic_leaves_the_known_ones_alone() {
    let mut broker = broker(&["a", "b"]);
    broker.drain(vec![publish("a", "1"), publish("b", "2")]);
    let before = broker.sizes();
    let replies = broker.drain(vec![publish("c", "3"), publish("", "4"), publish("c", "5")]);
    assert_eq!(replies, Vec::new());
    assert_eq!(broker.sizes(), before);
    assert_eq!(broker.apply(consume("c")), None);
    assert_eq!(broker.apply(consume("a")), Some(reply("a", "1")));
    assert_eq!(broker.apply(consume("b")), Some(reply("b", "2")));
}

#[test]
fn drain_applies_commands_in_the_order_of_arrival() {
    let mut broker = broker(&["t"]);
    let replies = broker.drain(vec![
        consume("t"),
        publish("t", "1"),
        consume("t"),
        publish("t", "2"),
        publish("t", "3"),
        consume("t"),
    ]);
    assert_eq!(replies, vec![reply("t", "empty"), reply("t", "1"), reply("t", "2")]);
    assert_eq!(broker.sizes(), vec![size("t", 1)]);
}

#[test]
fn drain_of_nothing_does_nothing() {
    let mut broker = broker(&["t"]);
    broker.apply(publish("t", "1"));
    assert_eq!(broker.drain(Vec::new()), Vec::new());
    assert_eq!(broker.sizes(), vec![size("t", 1)]);
}

#[test]
fn a_tick_takes_the_sizes_before_it_drains() {
    let mut broker = broker(&["temp", "pressure"]);
    let first = broker.tick(vec![publish("temp", "1"), publish("temp", "2"), publish("pressure", "9")]);
    assert_eq!(
        first,
        Tick { sizes: vec![size("temp", 0), size("pressure", 0)], replies: Vec::new() }
    );
    let second = broker.tick(vec![consume("temp"), consume("humidity")]);
    assert_eq!(
        second,
        Tick { sizes: vec![size("temp", 2), size("pressure", 1)], replies: vec![reply("temp", "1")] }
    );
    let third = broker.tick(Vec::new());
    assert_eq!(
        third,
        Tick { sizes: vec![size("temp", 1), size("pressure", 1)], replies: Vec::new() }
    );
}

#[test]
fn a_tick_answers_every_pending_consume_on_a_known_topic() {
    let mut broker = broker(&["temp"]);
    let tick = broker.tick(vec![consume("temp"), consume("temp"), consume("temp")]);
    assert_eq!(tick.replies.len(), 3);
    for answer in tick.replies {
        assert_eq!(answer, reply("temp", "empty"));
    }
}

#[test]
fn a_published_value_that_reads_empty_is_handed_out_as_it_is() {
    let mut broker = broker(&["t"]);
    broker.apply(publish("t", "empty"));
    assert_eq!(broker.sizes(), vec![size("t", 1)]);
    assert_eq!(broker.apply(consume("t")), Some(reply("t", "empty")));
    assert_eq!(broker.sizes(), vec![size("t", 0)]);
}

#[test]
fn a_copy_of_a_command_is_equal_to_it() {
    let first = publish("temp", "21.5");
    assert_eq!(first.duplicate(), first);
    let second = consume("temp");
    assert_eq!(second.duplicate(), second);
}

#[test]
fn each_queue_keeps_its_order_however_commands_of_two_topics_mix() {
    let mut broker = broker(&["a", "b"]);
    let replies = broker.drain(vec![
        publish("a", "a1"),
        publish("b", "b1"),
        consume("a"),
        publish("a", "a2"),
        consume("a"),
        consume("a"),
        publish("b", "b2"),
        publish("a", "a3"),
        consume("b"),
        publish("b", "b3"),
        consume("a"),
    ]);
    assert_eq!(
        replies,
        vec![
            reply("a", "a1"),
            reply("a", "a2"),
            reply("a", "empty"),
            reply("b", "b1"),
            reply("a", "a3"),
        ]
    );
    assert_eq!(broker.sizes(), vec![size("a", 0), size("b", 2)]);
    assert_eq!(broker.apply(consume("b")), Some(reply("b", "b2")));
    assert_eq!(broker.apply(consume("b")), Some(reply("b", "b3")));
}
