//! The brokers a run can target, what a run does against each of them for
//! the modes it was given, and the settings a run reads from its
//! environment.
use crate::decimal::{decimal, decimal_digits, law_decimal_reads_back, parse_usize, parsed_usize};
use crate::{has_mode, Mode};
use vstd::prelude::*;
use vstd::string::*;

verus! {

/// The message brokers this utility drives.
#[derive(Clone, Copy, Debug, PartialEq, Eq, Structural)]
pub enum Broker {
    Kafka,
    Nats,
    Pulsar,
    Rabbit,
}

/// One part of a run: consume the topic, or publish events to it.
#[derive(Clone, Copy, Debug, PartialEq, Eq, Structural)]
pub enum Stage {
    Subscribe,
    Publish,
}

pub open spec fn when(cond: bool, stage: Stage) -> Seq<Stage> {
    if cond {
        seq![stage]
    } else {
        seq![]
    }
}

/// The stages of a run, in the order in which they start.
/// - Kafka consumes when `Sub` is given, then publishes when `Pub` is given.
/// - NATS consumes when `Sub` is given, then publishes when `Pub` is given.
/// - Pulsar publishes when `Pub` is given, then consumes when `Sub` is given.
/// - RabbitMQ takes no modes: it always consumes, then publishes.
pub open spec fn run_stages(broker: Broker, modes: Seq<Mode>) -> Seq<Stage> {
    let subscribes = modes.contains(Mode::Sub);
    let publishes = modes.contains(Mode::Pub);
    match broker {
        Broker::Kafka => when(subscribes, Stage::Subscribe) + when(publishes, Stage::Publish),
        Broker::Nats => when(subscribes, Stage::Subscribe) + when(publishes, Stage::Publish),
        Broker::Pulsar => when(publishes, Stage::Publish) + when(subscribes, Stage::Subscribe),
        Broker::Rabbit => seq![Stage::Subscribe, Stage::Publish],
    }
}

/// Every broker but RabbitMQ consumes exactly when `Sub` is given and
/// publishes exactly when `Pub` is given, each at most once; RabbitMQ
/// always consumes and then publishes.
pub proof fn law_stages_follow_modes(broker: Broker, modes: Seq<Mode>)
    ensures
        broker != Broker::Rabbit ==> {
            &&& run_stages(broker, modes).contains(Stage::Subscribe) <==> modes.contains(Mode::Sub)
            &&& run_stages(broker, modes).contains(Stage::Publish) <==> modes.contains(Mode::Pub)
            &&& run_stages(broker, modes).no_duplicates()
        },
        broker == Broker::Rabbit ==> run_stages(broker, modes) == seq![
            Stage::Subscribe,
            Stage::Publish,
        ],
        modes.contains(Mode::Sub) && modes.contains(Mode::Pub) ==> {
            &&& broker == Broker::Kafka ==> run_stages(broker, modes) == seq![
                Stage::Subscribe,
                Stage::Publish,
            ]
            &&& broker == Broker::Nats ==> run_stages(broker, modes) == seq![
                Stage::Subscribe,
                Stage::Publish,
            ]
            &&& broker == Broker::Pulsar ==> run_stages(broker, modes) == seq![
                Stage::Publish,
                Stage::Subscribe,
            ]
        },
{
    let plan = run_stages(broker, modes);
    let subscribes = modes.contains(Mode::Sub);
    let publishes = modes.contains(Mode::Pub);
    if broker != Broker::Rabbit {
        if subscribes {
            assert(exists|i: int| 0 <= i < plan.len() && plan[i] == Stage::Subscribe) by {
                if broker == Broker::Pulsar && publishes {
                    assert(plan[1] == Stage::Subscribe);
                } else {
                    assert(plan[0] == Stage::Subscribe);
                }
            }
        }
        if publishes {
            assert(exists|i: int| 0 <= i < plan.len() && plan[i] == Stage::Publish) by {
                if broker != Broker::Pulsar && subscribes {
                    assert(plan[1] == Stage::Publish);
                } else {
                    assert(plan[0] == Stage::Publish);
                }
            }
        }
        assert(!subscribes ==> !plan.contains(Stage::Subscribe));
        assert(!publishes ==> !plan.contains(Stage::Publish));
    }
}

/// The stages that a run against `broker` with `modes` goes through.
pub fn stages(broker: Broker, modes: &Vec<Mode>) -> (plan: Vec<Stage>)
    ensures
        plan@ == run_stages(broker, modes@),
        broker != Broker::Rabbit ==> {
            &&& plan@.contains(Stage::Subscribe) <==> modes@.contains(Mode::Sub)
            &&& plan@.contains(Stage::Publish) <==> modes@.contains(Mode::Pub)
            &&& plan@.no_duplicates()
        },
        broker == Broker::Rabbit ==> plan@ == seq![Stage::Subscribe, Stage::Publish],
{
    proof {
        law_stages_follow_modes(broker, modes@);
    }
    let subscribes = has_mode(modes, Mode::Sub);
    let publishes = has_mode(modes, Mode::Pub);
    let mut plan: Vec<Stage> = Vec::new();
    match broker {
        Broker::Kafka => {
            if subscribes {
                plan.push(Stage::Subscribe);
            }
            if publishes {
                plan.push(Stage::Publish);
            }
        },
        Broker::Nats => {
            if subscribes {
                plan.push(Stage::Subscribe);
            }
            if publishes {
                plan.push(Stage::Publish);
            }
        },
        Broker::Pulsar => {
            if publishes {
                plan.push(Stage::Publish);
            }
            if subscribes {
                plan.push(Stage::Subscribe);
            }
        },
        Broker::Rabbit => {
            plan.push(Stage::Subscribe);
            plan.push(Stage::Publish);
        },
    }
    assert(plan@ =~= run_stages(broker, modes@));
    plan
}

// ---------------------------------------------------------------------------
// Settings

/// Where each broker is looked for when `BROKER_URL` is not set.
pub open spec fn default_broker_url(broker: Broker) -> Seq<char> {
    match broker {
        Broker::Kafka => "localhost:9092"@,
        Broker::Nats => "nats://localhost:4222"@,
        Broker::Pulsar => "pulsar://127.0.0.1:6650"@,
        Broker::Rabbit => "amqp://localhost:5672"@,
    }
}

/// The topic (or stream) used when `TOPIC` is not set.
pub open spec fn default_topic() -> Seq<char> {
    "events"@
}

/// The settings of a run.
pub struct BrokerConfig {
    pub broker_url: String,
    pub topic: String,
    /// How many email records each event carries.
    pub entity_count: usize,
    /// How many events to publish; `None` is no limit.
    pub event_count: Option<usize>,
}

pub open spec fn text_or(value: Option<String>, default: Seq<char>) -> Seq<char> {
    match value {
        Some(v) => v@,
        None => default,
    }
}

pub open spec fn entity_count_setting(value: Option<String>) -> usize {
    match value {
        Some(v) => match parsed_usize(v@) {
            Some(n) => n,
            None => 1,
        },
        None => 1,
    }
}

pub open spec fn event_count_setting(value: Option<String>) -> Option<usize> {
    match value {
        Some(v) => parsed_usize(v@),
        None => None,
    }
}

fn default_broker_url_text(broker: Broker) -> (url: String)
    ensures
        url@ == default_broker_url(broker),
{
    match broker {
        Broker::Kafka => "localhost:9092".to_owned(),
        Broker::Nats => "nats://localhost:4222".to_owned(),
        Broker::Pulsar => "pulsar://127.0.0.1:6650".to_owned(),
        Broker::Rabbit => "amqp://localhost:5672".to_owned(),
    }
}

/// A count that is set and reads as a `usize` is taken as it reads, zero
/// included; a missing entity count, or one that does not read, is 1; a
/// missing event count, or one that does not read, is no limit.
pub proof fn law_counts_as_read(value: Option<String>)
    ensures
        value is None ==> entity_count_setting(value) == 1 && event_count_setting(value) is None,
        value matches Some(v) ==> (parsed_usize(v@) matches Some(n) ==> entity_count_setting(value)
            == n && event_count_setting(value) == Some(n)),
        value matches Some(v) ==> (parsed_usize(v@) is None ==> entity_count_setting(value) == 1
            && event_count_setting(value) is None),
{
}

/// Setting a count to the decimal text of `n` gives `n`, for the entity
/// count and for the event limit alike.
pub proof fn law_count_of_decimal_text(v: String, n: usize)
    requires
        v@ == decimal_digits(n as nat),
    ensures
        entity_count_setting(Some(v)) == n,
        event_count_setting(Some(v)) == Some(n),
{
    law_decimal_reads_back(n);
}

impl BrokerConfig {
    /// The settings from the values of `BROKER_URL`, `ENTITY_COUNT`,
    /// `EVENT_COUNT` and `TOPIC` (`None` where a variable is unset). An
    /// entity count that is missing or not a count is 1; an event count
    /// that is missing or not a count is no limit.
    pub fn from_env_values(
        broker: Broker,
        broker_url: Option<String>,
        entity_count: Option<String>,
        event_count: Option<String>,
        topic: Option<String>,
    ) -> (config: BrokerConfig)
        ensures
            config.broker_url@ == text_or(broker_url, default_broker_url(broker)),
            config.topic@ == text_or(topic, default_topic()),
            config.entity_count == entity_count_setting(entity_count),
            config.event_count == event_count_setting(event_count),
            event_count matches Some(v) ==> (parsed_usize(v@) matches Some(n) ==> config.event_count
                == Some(n)),
            entity_count matches Some(v) ==> (parsed_usize(v@) matches Some(n) ==> config.entity_count
                == n),
    {
        proof {
            law_counts_as_read(entity_count);
            law_counts_as_read(event_count);
        }
        let url = match broker_url {
            Some(u) => u,
            None => default_broker_url_text(broker),
        };
        let topic_name = match topic {
            Some(t) => t,
            None => "events".to_owned(),
        };
        let entities = match &entity_count {
            Some(text) => match parse_usize(text.as_str()) {
                Some(n) => n,
                None => 1,
            },
            None => 1,
        };
        let events = match &event_count {
            Some(text) => parse_usize(text.as_str()),
            None => None,
        };
        BrokerConfig { broker_url: url, topic: topic_name, entity_count: entities, event_count: events }
    }
}

/// The NATS subject of the event numbered `index`: `events.<index>`.
pub fn nats_subject(index: usize) -> (subject: String)
    ensures
        subject@ == "events."@ + decimal_digits(index as nat),
        parsed_usize(subject@.skip("events."@.len() as int)) == Some(index),
{
    proof {
        law_decimal_reads_back(index);
        assert(("events."@ + decimal_digits(index as nat)).skip("events."@.len() as int)
            =~= decimal_digits(index as nat));
    }
    let mut subject = "events.".to_owned();
    let number = decimal(index);
    subject.append(number.as_str());
    subject
}

} // verus!
