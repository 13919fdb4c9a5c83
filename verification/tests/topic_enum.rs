use topik::{
    EncodingFailure, FieldType, PayloadEncoding, PayloadValue, SegmentValue, TopicDefinition, TopicEnum,
    TopicSchema, TopicSegment, TopikError,
};

fn reading(name: &str, first: &str, last: &str, encoding: PayloadEncoding) -> TopicDefinition {
    TopicDefinition {
        schema: TopicSchema::new(
            name.to_string(),
            vec![
                TopicSegment::Literal(first.to_string()),
                TopicSegment::Field { name: "device_id".to_string(), ty: FieldType::U64 },
                TopicSegment::Literal(last.to_string()),
            ],
        ),
        encoding,
    }
}

// Temperature and Humidity carry f32 payloads.
fn sensor_topics() -> TopicEnum {
    TopicEnum::new(vec![
        reading("TemperatureReading", "sensors", "temperature", PayloadEncoding::F32),
        reading("HumidityReading", "sensors", "humidity", PayloadEncoding::F32),
        reading("RebootCommand", "devices", "reboot", PayloadEncoding::Raw),
    ])
}

const TEMPERATURE: usize = 0;
const HUMIDITY: usize = 1;
const REBOOT: usize = 2;

// --- patterns() ---

#[test]
fn patterns_mqtt() {
    let patterns = sensor_topics().patterns('/', "+", "#");
    assert_eq!(patterns.len(), 3);
    assert_eq!(patterns[0], "sensors/+/temperature");
    assert_eq!(patterns[1], "sensors/+/humidity");
    assert_eq!(patterns[2], "devices/+/reboot");
}

#[test]
fn patterns_nats() {
    let patterns = sensor_topics().patterns('.', "*", ">");
    assert_eq!(patterns[0], "sensors.*.temperature");
    assert_eq!(patterns[1], "sensors.*.humidity");
    assert_eq!(patterns[2], "devices.*.reboot");
}

// --- try_parse() ---

#[test]
fn try_parse_temperature() {
    let payload = 23.5f32.to_string();
    let result = sensor_topics().try_parse("sensors/42/temperature", payload.as_bytes(), '/');
    assert!(
        matches!(&result, Ok((TEMPERATURE, msg)) if msg.key[0] == SegmentValue::U64(42))
    );
    if let Ok((_, msg)) = result {
        if let PayloadValue::F32(text) = msg.payload {
            let value: f32 = text.parse().unwrap();
            assert_eq!(value, 23.5);
        } else {
            panic!("payload should be an f32");
        }
    }
}

#[test]
fn try_parse_humidity() {
    let payload = 65.0f32.to_string();
    let result = sensor_topics().try_parse("sensors/42/humidity", payload.as_bytes(), '/');
    assert!(matches!(&result, Ok((HUMIDITY, msg)) if msg.key[0] == SegmentValue::U64(42)));
}

#[test]
fn try_parse_reboot() {
    let result = sensor_topics().try_parse("devices/99/reboot", b"", '/');
    assert!(matches!(&result, Ok((REBOOT, msg)) if msg.key[0] == SegmentValue::U64(99)));
}

#[test]
fn try_parse_no_match() {
    let result = sensor_topics().try_parse("unknown/42/topic", b"", '/');
    assert!(matches!(result, Err(TopikError::ParseError { .. })));
}

#[test]
fn try_parse_wrong_separator() {
    let payload = 23.5f32.to_string();
    let result = sensor_topics().try_parse("sensors.42.temperature", payload.as_bytes(), '.');
    assert!(
        matches!(&result, Ok((TEMPERATURE, msg)) if msg.key[0] == SegmentValue::U64(42))
    );
}

// --- own tests ---

#[test]
fn try_parse_decoding_error_is_returned() {
    let topics = TopicEnum::new(vec![reading(
        "Counter",
        "counter",
        "value",
        PayloadEncoding::U64,
    )]);
    let result = topics.try_parse("counter/1/value", b"x", '/');
    assert!(matches!(result, Err(TopikError::Encoding(_))));
    let ok = topics.try_parse("counter/1/value", b"17", '/').unwrap();
    assert_eq!(ok.1.payload, PayloadValue::U64(17));
}

#[test]
fn try_parse_invalid_float_payload_is_an_error() {
    let result = sensor_topics().try_parse("sensors/42/temperature", b"warm", '/');
    assert!(matches!(result, Err(TopikError::Encoding(EncodingFailure::InvalidFloat))));
    let result = sensor_topics().try_parse("sensors/42/humidity", &[0xff, 0xfe], '/');
    assert!(matches!(result, Err(TopikError::Encoding(EncodingFailure::InvalidUtf8))));
}
