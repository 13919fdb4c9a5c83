use bytes::Bytes;
use topik::{
    matches_pattern, FieldType, OneZero, PayloadEncoding, PayloadValue, SegmentValue,
    SubscribeBuilder, TopicDefinition, TopicEnum, TopicMessage, TopicSchema, TopicSegment,
    TopikError,
};

fn sensor(encoding: PayloadEncoding) -> TopicDefinition {
    TopicDefinition {
        schema: TopicSchema::new(
            "Sensor".to_string(),
            vec![
                TopicSegment::Literal("site".to_string()),
                TopicSegment::Field { name: "device_id".to_string(), ty: FieldType::U32 },
                TopicSegment::Field { name: "zone".to_string(), ty: FieldType::Text },
                TopicSegment::Field { name: "offset".to_string(), ty: FieldType::I64 },
                TopicSegment::Field { name: "on".to_string(), ty: FieldType::flag::<OneZero>() },
            ],
        ),
        encoding,
    }
}

fn key() -> Vec<SegmentValue> {
    vec![
        SegmentValue::U32(4294967295),
        SegmentValue::Text("north".to_string()),
        SegmentValue::I64(-5),
        SegmentValue::Flag(true),
    ]
}

#[test]
fn topic_matches_itself() {
    for t in ["a/b/c", "", "+", "#", "a//b"] {
        assert!(matches_pattern(t, t, '/', "+", "#"));
    }
}

#[test]
fn render_parse_round_trip_all_types() {
    let def = sensor(PayloadEncoding::Raw);
    let topic = def.schema.render(&key(), '/');
    assert_eq!(topic, "site/4294967295/north/-5/1");
    assert_eq!(def.schema.parse(&topic, '/').unwrap(), key());
}

#[test]
fn rendered_topic_matches_wildcard_and_pins() {
    let def = sensor(PayloadEncoding::Raw);
    for (sep, single, multi) in [('/', "+", "#"), ('.', "*", ">"), (':', "*", "*")] {
        let topic = def.schema.render(&key(), sep);
        let wildcard = def.schema.wildcard_pattern(sep, single, multi);
        assert!(matches_pattern(&topic, &wildcard, sep, single, multi));
        let pinned = def
            .schema
            .subscribe_builder()
            .pin("zone", SegmentValue::Text("north".to_string()))
            .build_pattern(sep, single);
        assert!(matches_pattern(&topic, &pinned, sep, single, multi));
    }
}

#[test]
fn payload_round_trips() {
    let cases = vec![
        (PayloadEncoding::Raw, PayloadValue::Bytes(Bytes::from("raw"))),
        (PayloadEncoding::Text, PayloadValue::Text("héllo".to_string())),
        (PayloadEncoding::flag::<OneZero>(), PayloadValue::Flag(false)),
        (PayloadEncoding::U8, PayloadValue::U8(0)),
        (PayloadEncoding::I32, PayloadValue::I32(i32::MIN)),
        (PayloadEncoding::I64, PayloadValue::I64(i64::MAX)),
        (PayloadEncoding::U64, PayloadValue::U64(u64::MAX)),
        (PayloadEncoding::F32, PayloadValue::F32("23.5".to_string())),
        (PayloadEncoding::F64, PayloadValue::F64("-1e300".to_string())),
    ];
    for (encoding, payload) in cases {
        let def = sensor(encoding);
        let message = TopicMessage { key: key(), payload };
        assert!(def.accepts(&message));
        let (topic, bytes) = def.publish_parts(&message, '/');
        assert_eq!(def.receive(&topic, bytes, '/').unwrap(), message);
    }
}

#[test]
fn accepts_rejects_misfits() {
    let def = sensor(PayloadEncoding::U8);
    let wrong_payload = TopicMessage { key: key(), payload: PayloadValue::U16(256) };
    assert!(!def.accepts(&wrong_payload));
    let short_key = TopicMessage { key: vec![SegmentValue::U32(1)], payload: PayloadValue::U8(1) };
    assert!(!def.accepts(&short_key));
    let wide = TopicMessage {
        key: vec![
            SegmentValue::U64(1 << 40),
            SegmentValue::Text("n".to_string()),
            SegmentValue::I64(0),
            SegmentValue::Flag(false),
        ],
        payload: PayloadValue::U8(1),
    };
    assert!(!def.accepts(&wide));
}

#[test]
fn try_parse_first_matching_variant() {
    let topics = TopicEnum::new(vec![sensor(PayloadEncoding::U8), sensor(PayloadEncoding::Text)]);
    let (index, message) = topics.try_parse("site/1/a/2/0", b"7", '/').unwrap();
    assert_eq!(index, 0);
    assert_eq!(message.payload, PayloadValue::U8(7));
}

#[test]
fn uuid_segments() {
    let def = TopicSchema::new(
        "Device".to_string(),
        vec![
            TopicSegment::Literal("device".to_string()),
            TopicSegment::Field { name: "id".to_string(), ty: FieldType::Uuid },
        ],
    );
    let id: u128 = 0xa1a2a3a4b1b2c1c2d1d2d3d4d5d6d7d8;
    let topic = def.render(&vec![SegmentValue::Uuid(id)], '/');
    assert_eq!(topic, "device/a1a2a3a4-b1b2-c1c2-d1d2-d3d4d5d6d7d8");
    assert_eq!(def.parse(&topic, '/').unwrap(), vec![SegmentValue::Uuid(id)]);
    let simple = def.parse("device/a1a2a3a4b1b2c1c2d1d2d3d4d5d6d7d8", '/').unwrap();
    assert_eq!(simple, vec![SegmentValue::Uuid(id)]);
    match def.parse("device/nope", '/').unwrap_err() {
        TopikError::ParseError { topic, reason } => {
            assert_eq!(topic, "nope");
            assert!(reason.starts_with("expected UUID, got 'nope': "));
        }
        other => panic!("unexpected error {other:?}"),
    }
}

#[test]
fn pinned_pattern_excludes_other_values() {
    let def = sensor(PayloadEncoding::Raw);
    for (sep, single, multi) in [('/', "+", "#"), ('.', "*", ">"), (':', "*", "*")] {
        let topic = def.schema.render(&key(), sep);
        for (field, value) in [
            ("device_id", SegmentValue::U32(7)),
            ("zone", SegmentValue::Text("south".to_string())),
            ("offset", SegmentValue::I64(5)),
            ("on", SegmentValue::Flag(false)),
        ] {
            let pinned = def.schema.subscribe_builder().pin(field, value).build_pattern(sep, single);
            assert!(!matches_pattern(&topic, &pinned, sep, single, multi));
        }
        let all_pinned = def
            .schema
            .subscribe_builder()
            .pin("device_id", SegmentValue::U32(4294967295))
            .pin("offset", SegmentValue::I64(-5))
            .pin("on", SegmentValue::Flag(true))
            .build_pattern(sep, single);
        assert!(matches_pattern(&topic, &all_pinned, sep, single, multi));
    }
}

#[test]
fn values_of_another_width_do_not_fit() {
    let def = sensor(PayloadEncoding::U8);
    let narrow_payload = TopicMessage { key: key(), payload: PayloadValue::U16(5) };
    assert!(!def.accepts(&narrow_payload));
    let mut other_key = key();
    other_key[0] = SegmentValue::U64(5);
    assert!(!def.schema.accepts_key(&other_key));
    assert!(def.accepts(&TopicMessage { key: key(), payload: PayloadValue::U8(5) }));
    let floats = sensor(PayloadEncoding::F32);
    assert!(!floats.accepts(&TopicMessage { key: key(), payload: PayloadValue::F64("1".to_string()) }));
    assert!(!floats.accepts(&TopicMessage { key: key(), payload: PayloadValue::F32("one".to_string()) }));
}

#[test]
fn parsed_values_have_the_field_width() {
    let def = sensor(PayloadEncoding::U8);
    let key = def.schema.parse("site/7/z/-1/0", '/').unwrap();
    assert_eq!(key[0], SegmentValue::U32(7));
    assert_eq!(key[2], SegmentValue::I64(-1));
    let message = def.parse_message("site/7/z/-1/0", b"9", '/').unwrap().unwrap();
    assert_eq!(message.payload, PayloadValue::U8(9));
}

#[test]
fn single_wildcard_never_loses_a_match() {
    let topic = "a/b/c";
    assert!(matches_pattern(topic, "a/b/c", '/', "+", "#"));
    for pattern in ["+/b/c", "a/+/c", "a/b/+", "+/+/+"] {
        assert!(matches_pattern(topic, pattern, '/', "+", "#"));
    }
    assert!(matches_pattern("a/b/c", "a/#", '/', "+", "#"));
    assert!(matches_pattern("a/b/c", "+/#", '/', "+", "#"));
}

#[test]
fn uuid_forms_accepted_by_parse() {
    let def = TopicSchema::new(
        "Device".to_string(),
        vec![TopicSegment::Field { name: "id".to_string(), ty: FieldType::Uuid }],
    );
    let id: u128 = 0xa1a2a3a4b1b2c1c2d1d2d3d4d5d6d7d8;
    for text in [
        "A1A2A3A4-B1B2-C1C2-D1D2-D3D4D5D6D7D8",
        "{a1a2a3a4-b1b2-c1c2-d1d2-d3d4d5d6d7d8}",
        "URN:uuid:a1a2a3a4-b1b2-c1c2-d1d2-d3d4d5d6d7d8",
    ] {
        assert_eq!(def.parse(text, '/').unwrap(), vec![SegmentValue::Uuid(id)], "{text}");
    }
    for text in [
        "a1a2a3a4b-1b2-c1c2-d1d2-d3d4d5d6d7d8",
        "a1a2a3a4-b1b2-c1c2-d1d2-d3d4d5d6d7dg",
        "urn:uuix:a1a2a3a4-b1b2-c1c2-d1d2-d3d4d5d6d7d8",
    ] {
        assert!(matches!(def.parse(text, '/'), Err(TopikError::ParseError { .. })), "{text}");
    }
}
