use bytes::Bytes;
use topik::definition::{
    parse_segments, parse_topic_input, Attribute, DefinitionError, DeriveData, DeriveInput,
    FieldDecl, SegmentKind, SegmentToken, TopicMeta,
};
use topik::{
    FieldType, MqttClientBuilder, PayloadEncoding, PayloadValue, RawMessage, SegmentValue,
    StreamEvent, StreamStep, SubscribeBuilder, TopicDefinition, TopicMessage, TopicSchema,
    TopicSegment, TopikError,
};

fn temperature() -> TopicDefinition {
    TopicDefinition {
        schema: TopicSchema::new(
            "TemperatureReading".to_string(),
            vec![
                TopicSegment::Literal("sensors".to_string()),
                TopicSegment::Field { name: "device_id".to_string(), ty: FieldType::U64 },
                TopicSegment::Literal("temperature".to_string()),
            ],
        ),
        encoding: PayloadEncoding::Raw,
    }
}

// publish then receive gives the same message back (MQTT and NATS separators)
#[test]
fn publish_then_receive_round_trip() {
    let def = temperature();
    for sep in ['/', '.', ':'] {
        let msg = TopicMessage {
            key: vec![SegmentValue::U64(42)],
            payload: PayloadValue::Bytes(Bytes::from("23.5")),
        };
        let (topic, payload) = def.publish_parts(&msg, sep);
        let received = def.receive(&topic, payload, sep).unwrap();
        assert_eq!(received, msg);
    }
}

#[test]
fn receive_skips_foreign_messages() {
    let def = temperature();
    assert!(def.receive("sensors/abc/temperature", Bytes::from("1"), '/').is_none());
    assert!(def.receive("sensors/1/humidity", Bytes::from("1"), '/').is_none());
}

#[test]
fn parse_message_reports_payload_errors() {
    let def = TopicDefinition { schema: temperature().schema, encoding: PayloadEncoding::U64 };
    assert_eq!(def.parse_message("other/1", b"5", '/').unwrap(), None);
    assert!(matches!(
        def.parse_message("sensors/1/temperature", b"x", '/'),
        Err(TopikError::Encoding(_))
    ));
    let msg = def.parse_message("sensors/1/temperature", b"5", '/').unwrap().unwrap();
    assert_eq!(msg.payload, PayloadValue::U64(5));
}

#[test]
fn trailing_segments_are_refused() {
    let err = temperature().schema.parse("sensors/1/temperature/raw", '/').unwrap_err();
    assert_eq!(
        err,
        TopikError::ParseError {
            topic: "sensors/1/temperature/raw".to_string(),
            reason: "too many segments".to_string()
        }
    );
}

#[test]
fn missing_segment_names_topic() {
    let err = temperature().schema.parse("sensors/1", '/').unwrap_err();
    assert_eq!(
        err,
        TopikError::MissingSegment { position: 2, topic: "sensors/1".to_string() }
    );
}

#[test]
fn pinned_pattern() {
    let schema = temperature().schema;
    let builder = schema.subscribe_builder();
    assert_eq!(builder.build_pattern('/', "+"), "sensors/+/temperature");
    let pinned = schema.subscribe_builder().pin("device_id", SegmentValue::U64(42));
    assert_eq!(pinned.build_pattern('/', "+"), "sensors/42/temperature");
    let untouched = schema.subscribe_builder().pin("no_such_field", SegmentValue::U64(1));
    assert_eq!(untouched.build_pattern('.', "*"), "sensors.*.temperature");
    assert!(topik::matches_pattern(
        "sensors/42/temperature",
        &pinned.build_pattern('/', "+"),
        '/',
        "+",
        "#"
    ));
    assert!(!topik::matches_pattern(
        "sensors/7/temperature",
        &pinned.build_pattern('/', "+"),
        '/',
        "+",
        "#"
    ));
}

#[test]
fn stream_step_filters_by_pattern() {
    let hit = RawMessage { topic: "sensors/1/temperature".to_string(), payload: Bytes::from("x") };
    let miss = RawMessage { topic: "sensors/1/humidity".to_string(), payload: Bytes::new() };
    let pattern = "sensors/+/temperature";
    assert!(matches!(
        topik::transport::stream_step(StreamEvent::Message(hit), pattern, '/', "+", "#"),
        StreamStep::Deliver(m) if m.topic == "sensors/1/temperature"
    ));
    assert!(matches!(
        topik::transport::stream_step(StreamEvent::Message(miss), pattern, '/', "+", "#"),
        StreamStep::Skip
    ));
    assert!(matches!(
        topik::transport::stream_step(StreamEvent::Lagged, pattern, '/', "+", "#"),
        StreamStep::Skip
    ));
    assert!(matches!(
        topik::transport::stream_step(StreamEvent::Closed, pattern, '/', "+", "#"),
        StreamStep::End
    ));
}

#[test]
fn mqtt_builder_defaults_and_setters() {
    let b = MqttClientBuilder::default();
    assert_eq!(b.client_id, "topik-client");
    assert_eq!(b.host, "localhost");
    assert_eq!(b.port, 1883);
    assert_eq!(b.keep_alive_secs, 30);
    assert_eq!(b.channel_capacity, 10);
    let b = b
        .client_id("svc".to_string())
        .url("broker".to_string(), 8883)
        .keep_alive(5)
        .channel_capacity(64);
    assert_eq!(b.client_id, "svc");
    assert_eq!(b.host, "broker");
    assert_eq!(b.port, 8883);
    assert_eq!(b.keep_alive_secs, 5);
    assert_eq!(b.channel_capacity, 64);
}

fn topic_attr(metas: Vec<TopicMeta>) -> Attribute {
    Attribute { path: "topic".to_string(), metas }
}

fn field(name: &str, ty: &str, payload: bool) -> FieldDecl {
    FieldDecl {
        name: Some(name.to_string()),
        ty: ty.to_string(),
        attrs: if payload { vec!["payload".to_string()] } else { vec![] },
    }
}

fn segments_tokens() -> Vec<SegmentToken> {
    vec![
        SegmentToken::Literal("sensors".to_string()),
        SegmentToken::Comma,
        SegmentToken::Ident("device_id".to_string()),
        SegmentToken::Comma,
        SegmentToken::Literal("temperature".to_string()),
    ]
}

#[test]
fn topic_declaration_accepted() {
    let input = DeriveInput {
        name: "TemperatureReading".to_string(),
        attrs: vec![topic_attr(vec![
            TopicMeta::Segments(segments_tokens()),
            TopicMeta::Encoding("F32Encoding".to_string()),
        ])],
        data: DeriveData::NamedStruct(vec![
            field("device_id", "u64", false),
            field("data", "f32", true),
        ]),
    };
    let t = parse_topic_input(&input).unwrap();
    assert_eq!(t.name, "TemperatureReading");
    assert_eq!(t.segments.len(), 3);
    assert!(matches!(&t.segments[1], SegmentKind::Dynamic(n) if n == "device_id"));
    assert_eq!(t.payload.name, "data");
    assert_eq!(t.encoding, Some("F32Encoding".to_string()));
    assert_eq!(t.fields.len(), 1);
}

#[test]
fn topic_declaration_errors() {
    let base = |attrs: Vec<Attribute>, fields: Vec<FieldDecl>| DeriveInput {
        name: "T".to_string(),
        attrs,
        data: DeriveData::NamedStruct(fields),
    };
    let seg = || vec![topic_attr(vec![TopicMeta::Segments(segments_tokens())])];
    let e = parse_topic_input(&base(vec![], vec![field("data", "f32", true)])).unwrap_err();
    assert_eq!(e, DefinitionError::MissingSegments);
    let e = parse_topic_input(&base(seg(), vec![field("device_id", "u64", false)])).unwrap_err();
    assert_eq!(e, DefinitionError::MissingPayload);
    let e = parse_topic_input(&base(
        seg(),
        vec![field("device_id", "u64", false), field("a", "f32", true), field("b", "f32", true)],
    ))
    .unwrap_err();
    assert_eq!(e, DefinitionError::DuplicatePayload);
    let e = parse_topic_input(&base(seg(), vec![field("data", "f32", true)])).unwrap_err();
    assert_eq!(e, DefinitionError::UnknownSegmentField("device_id".to_string()));
    assert_eq!(
        e.message(),
        "segment 'device_id' does not match any field on the struct"
    );
    let e = parse_topic_input(&base(
        vec![topic_attr(vec![TopicMeta::Other("retain".to_string())])],
        vec![field("data", "f32", true)],
    ))
    .unwrap_err();
    assert_eq!(e, DefinitionError::UnknownAttribute);
    assert_eq!(
        e.message(),
        "unknown topic attribute — expected segments(...) or encoding = ..."
    );
    let e = parse_topic_input(&DeriveInput {
        name: "E".to_string(),
        attrs: vec![],
        data: DeriveData::NotStruct,
    })
    .unwrap_err();
    assert_eq!(e, DefinitionError::NotStruct);
}

#[test]
fn segments_tokens_rules() {
    assert_eq!(parse_segments(&vec![]).unwrap_err(), DefinitionError::EmptySegments);
    assert_eq!(
        parse_segments(&vec![SegmentToken::Comma]).unwrap_err(),
        DefinitionError::UnexpectedSegmentToken
    );
    let no_commas = parse_segments(&vec![
        SegmentToken::Literal("a".to_string()),
        SegmentToken::Ident("b".to_string()),
    ])
    .unwrap();
    assert_eq!(no_commas.len(), 2);
    assert_eq!(
        parse_segments(&vec![
            SegmentToken::Literal("a".to_string()),
            SegmentToken::Comma,
            SegmentToken::Comma,
        ])
        .unwrap_err(),
        DefinitionError::UnexpectedSegmentToken
    );
}
