use stream_operator::broker::{nats_subject, stages, Broker, BrokerConfig, Stage};
use stream_operator::{has_mode, Mode};

#[test]
fn modes_are_found() {
    assert!(has_mode(&vec![Mode::Pub, Mode::Sub], Mode::Sub));
    assert!(!has_mode(&vec![Mode::Pub], Mode::Sub));
    assert!(!has_mode(&vec![], Mode::Pub));
}

#[test]
fn kafka_consumes_then_publishes() {
    assert_eq!(stages(Broker::Kafka, &vec![Mode::Pub, Mode::Sub]), vec![Stage::Subscribe, Stage::Publish]);
    assert_eq!(stages(Broker::Kafka, &vec![Mode::Pub]), vec![Stage::Publish]);
    assert_eq!(stages(Broker::Kafka, &vec![Mode::Sub]), vec![Stage::Subscribe]);
    assert_eq!(stages(Broker::Kafka, &vec![]), vec![]);
}

#[test]
fn nats_consumes_then_publishes() {
    assert_eq!(stages(Broker::Nats, &vec![Mode::Pub]), vec![Stage::Publish]);
    assert_eq!(stages(Broker::Nats, &vec![Mode::Sub]), vec![Stage::Subscribe]);
    assert_eq!(stages(Broker::Nats, &vec![Mode::Pub, Mode::Sub]), vec![Stage::Subscribe, Stage::Publish]);
}

#[test]
fn pulsar_publishes_then_consumes() {
    assert_eq!(stages(Broker::Pulsar, &vec![Mode::Sub, Mode::Pub]), vec![Stage::Publish, Stage::Subscribe]);
    assert_eq!(stages(Broker::Pulsar, &vec![Mode::Sub]), vec![Stage::Subscribe]);
}

#[test]
fn rabbit_ignores_modes() {
    assert_eq!(stages(Broker::Rabbit, &vec![]), vec![Stage::Subscribe, Stage::Publish]);
}

#[test]
fn defaults_when_nothing_is_set() {
    let expected = [
        (Broker::Kafka, "localhost:9092"),
        (Broker::Nats, "nats://localhost:4222"),
        (Broker::Pulsar, "pulsar://127.0.0.1:6650"),
        (Broker::Rabbit, "amqp://localhost:5672"),
    ];
    for (broker, url) in expected {
        let config = BrokerConfig::from_env_values(broker, None, None, None, None);
        assert_eq!(config.broker_url, url);
        assert_eq!(config.topic, "events");
        assert_eq!(config.entity_count, 1);
        assert_eq!(config.event_count, None);
    }
}

#[test]
fn settings_that_are_given() {
    let config = BrokerConfig::from_env_values(
        Broker::Kafka,
        Some("kafka:29092".to_string()),
        Some("5".to_string()),
        Some("100".to_string()),
        Some("raw".to_string()),
    );
    assert_eq!(config.broker_url, "kafka:29092");
    assert_eq!(config.topic, "raw");
    assert_eq!(config.entity_count, 5);
    assert_eq!(config.event_count, Some(100));
}

#[test]
fn unreadable_counts_fall_back() {
    let config = BrokerConfig::from_env_values(
        Broker::Nats,
        None,
        Some("five".to_string()),
        Some("-3".to_string()),
        None,
    );
    assert_eq!(config.entity_count, 1);
    assert_eq!(config.event_count, None);
}

#[test]
fn subjects_are_numbered() {
    assert_eq!(nats_subject(0), "events.0");
    assert_eq!(nats_subject(42), "events.42");
}
