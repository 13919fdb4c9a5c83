use topik::{FieldType, SegmentValue, TopicSchema, TopicSegment, TopikError};

fn lit(s: &str) -> TopicSegment {
    TopicSegment::Literal(s.to_string())
}

fn field(name: &str, ty: FieldType) -> TopicSegment {
    TopicSegment::Field { name: name.to_string(), ty }
}

// multiple literals, multiple dynamic segments, literal in the middle
fn factory_reading() -> TopicSchema {
    TopicSchema::new(
        "FactoryReading".to_string(),
        vec![
            lit("factory"),
            lit("v2"),
            field("device_id", FieldType::U64),
            lit("readings"),
            field("kind", FieldType::Text),
        ],
    )
}

// all literals, one dynamic segment at the end
fn deep_nested_sensor() -> TopicSchema {
    TopicSchema::new(
        "DeepNestedSensor".to_string(),
        vec![
            lit("eu"),
            lit("west"),
            lit("factory"),
            lit("sensors"),
            field("device_id", FieldType::U64),
        ],
    )
}

// dynamic segment first, literals after
fn cpu_metric() -> TopicSchema {
    TopicSchema::new(
        "CpuMetric".to_string(),
        vec![field("device_id", FieldType::U64), lit("metrics"), lit("cpu")],
    )
}

// --- FactoryReading tests ---

#[test]
fn render_literal_in_middle_mqtt() {
    let key = vec![SegmentValue::U64(99), SegmentValue::Text("temperature".to_string())];
    assert_eq!(
        factory_reading().render(&key, '/'),
        "factory/v2/99/readings/temperature"
    );
}

#[test]
fn render_literal_in_middle_nats() {
    let key = vec![SegmentValue::U64(99), SegmentValue::Text("humidity".to_string())];
    assert_eq!(factory_reading().render(&key, '.'), "factory.v2.99.readings.humidity");
}

#[test]
fn parse_literal_in_middle() {
    let key = factory_reading()
        .parse("factory/v2/99/readings/temperature", '/')
        .unwrap();
    assert_eq!(key[0], SegmentValue::U64(99));
    assert_eq!(key[1], SegmentValue::Text("temperature".to_string()));
}

#[test]
fn parse_literal_mismatch_first() {
    let err = factory_reading()
        .parse("wrong/v2/99/readings/temperature", '/')
        .unwrap_err();
    assert!(matches!(err, TopikError::LiteralMismatch { position: 0, .. }));
}

#[test]
fn parse_literal_mismatch_middle() {
    let err = factory_reading()
        .parse("factory/v2/99/wrong/temperature", '/')
        .unwrap_err();
    assert!(matches!(err, TopikError::LiteralMismatch { position: 3, .. }));
}

#[test]
fn parse_literal_mismatch_second() {
    let err = factory_reading()
        .parse("factory/v1/99/readings/temperature", '/')
        .unwrap_err();
    assert!(matches!(err, TopikError::LiteralMismatch { position: 1, .. }));
}

#[test]
fn parse_missing_dynamic_segment() {
    let err = factory_reading().parse("factory/v2/99/readings", '/').unwrap_err();
    assert!(matches!(err, TopikError::MissingSegment { position: 4, .. }));
}

#[test]
fn wildcard_pattern_skips_literals() {
    assert_eq!(
        factory_reading().wildcard_pattern('/', "+", "#"),
        "factory/v2/+/readings/+"
    );
}

#[test]
fn round_trip_multiple_segments() {
    let key = vec![SegmentValue::U64(7), SegmentValue::Text("pressure".to_string())];
    let rendered = factory_reading().render(&key, '/');
    let parsed = factory_reading().parse(&rendered, '/').unwrap();
    assert_eq!(parsed[0], SegmentValue::U64(7));
    assert_eq!(parsed[1], SegmentValue::Text("pressure".to_string()));
}

// --- DeepNestedSensor tests ---

#[test]
fn render_deep_nesting() {
    let key = vec![SegmentValue::U64(42)];
    assert_eq!(deep_nested_sensor().render(&key, '/'), "eu/west/factory/sensors/42");
}

#[test]
fn parse_deep_nesting() {
    let key = deep_nested_sensor()
        .parse("eu/west/factory/sensors/42", '/')
        .unwrap();
    assert_eq!(key[0], SegmentValue::U64(42));
}

#[test]
fn wildcard_deep_nesting() {
    assert_eq!(
        deep_nested_sensor().wildcard_pattern('/', "+", "#"),
        "eu/west/factory/sensors/+"
    );
}

// --- CpuMetric tests ---

#[test]
fn render_dynamic_segment_first() {
    let key = vec![SegmentValue::U64(10)];
    assert_eq!(cpu_metric().render(&key, '/'), "10/metrics/cpu");
}

#[test]
fn parse_dynamic_segment_first() {
    let key = cpu_metric().parse("10/metrics/cpu", '/').unwrap();
    assert_eq!(key[0], SegmentValue::U64(10));
}

#[test]
fn parse_literal_mismatch_after_dynamic() {
    let err = cpu_metric().parse("10/wrong/cpu", '/').unwrap_err();
    assert!(matches!(err, TopikError::LiteralMismatch { position: 1, .. }));
}
