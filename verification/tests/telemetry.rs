use pubsub_broker::telemetry::{ConfigError as E, Configuration as C};

#[test]
fn a_telemetry_document_with_its_interval_is_a_configuration() {
    let configuration = C::new("telemetry_interval_in_milliseconds = \"2500\"".to_string()).unwrap();
    assert_eq!(configuration.telemetry_interval_in_milliseconds(), 2500);
    assert_eq!(C::new("telemetry_interval_in_milliseconds".to_string()), Err(E::Unparsable));
    assert_eq!(C::new("other = \"1\"".to_string()), Err(E::MissingInterval));
    assert_eq!(C::new("telemetry_interval_in_milliseconds = 2500".to_string()), Err(E::MissingInterval));
    assert_eq!(C::from_entry(None), Err(E::MissingInterval));
    assert_eq!(C::from_entry(Some("4294967296".to_string())), Err(E::InvalidInterval));
    assert_eq!(C::from_entry(Some("fast".to_string())), Err(E::InvalidInterval));
    let largest = C::from_entry(Some("4294967295".to_string())).unwrap();
    assert_eq!(largest.telemetry_interval_in_milliseconds(), u32::MAX);
    let zero = C::from_entry(Some("0".to_string())).unwrap();
    assert_eq!(zero.telemetry_interval_in_milliseconds(), 0);
}
