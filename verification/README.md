# topik

Typed pub/sub topics with verified topic handling.

A topic is defined once as an ordered list of literal and typed dynamic
segments together with a payload encoding. The library renders a key as a
topic string for any protocol's separator (MQTT `/`, NATS `.`, Redis `:`),
parses topic strings back into keys, builds subscription patterns with
single-level wildcards (optionally pinning some segments), matches topics
against patterns, and encodes and decodes payloads (raw bytes, UTF-8 text,
booleans with configurable texts, decimal integers, and floats as decimal
text checked against std's float grammar).

Layout:

- `src/` — the library, verified with Verus. Every public function states
  its result in its contract; `topic_laws.rs`, `message.rs` and
  `topic_enum.rs` prove that parsing undoes rendering, that a rendered topic
  matches a subscription pattern exactly when the pattern's pins agree
  with its key, and that a subscriber receives exactly
  what was published.
- `app/` — the asynchronous client, subscribers and transports (an
  in-process bus on tokio and an MQTT client on rumqttc), and the
  conversions between floats and their decimal text.
- `tests/` — tests of the library on concrete values.
