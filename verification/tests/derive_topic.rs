use bytes::Bytes;
use topik::{
    FieldType, PayloadEncoding, PayloadValue, SegmentValue, TopicDefinition, TopicMessage,
    TopicSchema, TopicSegment, TopikError,
};

fn temperature_sensor() -> TopicSchema {
    TopicSchema::new(
        "TemperatureSensor".to_string(),
        vec![
            TopicSegment::Literal("sensor".to_string()),
            TopicSegment::Field { name: "device_id".to_string(), ty: FieldType::U64 },
        ],
    )
}

#[test]
fn render_nats_separator() {
    let key = vec![SegmentValue::U64(42)];
    assert_eq!(temperature_sensor().render(&key, '.'), "sensor.42");
}

#[test]
fn render_mqtt_separator() {
    let key = vec![SegmentValue::U64(42)];
    assert_eq!(temperature_sensor().render(&key, '/'), "sensor/42");
}

#[test]
fn render_redis_separator() {
    let key = vec![SegmentValue::U64(42)];
    assert_eq!(temperature_sensor().render(&key, ':'), "sensor:42");
}

#[test]
fn parse_round_trip() {
    let key = temperature_sensor().parse("sensor/42", '/').unwrap();
    assert_eq!(key[0], SegmentValue::U64(42));
}

#[test]
fn parse_literal_mismatch() {
    let err = temperature_sensor().parse("wrong/42", '/').unwrap_err();
    assert!(matches!(err, TopikError::LiteralMismatch { position: 0, .. }));
}

#[test]
fn parse_missing_segment() {
    let err = temperature_sensor().parse("sensor", '/').unwrap_err();
    assert!(matches!(err, TopikError::MissingSegment { position: 1, .. }));
}

#[test]
fn parse_invalid_segment() {
    let err = temperature_sensor().parse("sensor/notanumber", '/').unwrap_err();
    assert!(matches!(err, TopikError::ParseError { .. }));
}

#[test]
fn wildcard_pattern_nats() {
    assert_eq!(temperature_sensor().wildcard_pattern('.', "*", ">"), "sensor.*");
}

#[test]
fn wildcard_pattern_mqtt() {
    assert_eq!(temperature_sensor().wildcard_pattern('/', "+", "#"), "sensor/+");
}

#[test]
fn name_constant() {
    assert_eq!(temperature_sensor().name(), "TemperatureSensor");
}

#[test]
fn from_key_and_payload() {
    let def = TopicDefinition { schema: temperature_sensor(), encoding: PayloadEncoding::Raw };
    let key = def.schema.parse("sensor/42", '/').unwrap();
    let payload = Bytes::from("hello");
    let msg = TopicMessage { key, payload: PayloadValue::Bytes(payload.clone()) };
    assert_eq!(msg.key[0], SegmentValue::U64(42));
    assert_eq!(msg.payload, PayloadValue::Bytes(payload));
}
