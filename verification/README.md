# stream_operator

A test utility that publishes Snowplow-style events to a message broker
(Kafka, NATS, Pulsar, RabbitMQ) and consumes them back.

- `src/` is the verified library: the event payload (`data`), decimal
  keys and counts (`decimal`), what a run does per broker and the settings
  it reads (`broker`), and the publishing and consuming loops as state
  machines with their laws (`publish`).
- `app/` is the command-line program: argument parsing, the broker
  clients, and the async loops that carry out what the library decides.
- `tests/` runs the library on concrete values.
