use topik::{
    BoolSegment, FieldType, OnOff, OneZero, Segment, SegmentValue, TopicSchema, TopicSegment,
    TopikError, TrueFalse, YesNo,
};

fn lit(s: &str) -> TopicSegment {
    TopicSegment::Literal(s.to_string())
}

fn field(name: &str, ty: FieldType) -> TopicSegment {
    TopicSegment::Field { name: name.to_string(), ty }
}

fn device_state() -> TopicSchema {
    TopicSchema::new(
        "DeviceState".to_string(),
        vec![
            lit("device"),
            field("device_id", FieldType::U64),
            lit("active"),
            field("state", FieldType::flag::<OneZero>()),
        ],
    )
}

fn light_state() -> TopicSchema {
    TopicSchema::new(
        "LightState".to_string(),
        vec![
            lit("home"),
            field("room", FieldType::Text),
            lit("light"),
            field("state", FieldType::flag::<TrueFalse>()),
        ],
    )
}

fn switch_state() -> TopicSchema {
    TopicSchema::new(
        "SwitchState".to_string(),
        vec![
            lit("switch"),
            field("device_id", FieldType::U64),
            field("state", FieldType::flag::<YesNo>()),
        ],
    )
}

fn relay_state() -> TopicSchema {
    TopicSchema::new(
        "RelayState".to_string(),
        vec![
            lit("relay"),
            field("device_id", FieldType::U64),
            field("state", FieldType::flag::<OnOff>()),
        ],
    )
}

// --- BoolSegment<OneZero> ---

#[test]
fn bool_onezero_renders_true() {
    let key = vec![SegmentValue::U64(1), SegmentValue::Flag(true)];
    assert_eq!(device_state().render(&key, '/'), "device/1/active/1");
}

#[test]
fn bool_onezero_renders_false() {
    let key = vec![SegmentValue::U64(1), SegmentValue::Flag(false)];
    assert_eq!(device_state().render(&key, '/'), "device/1/active/0");
}

#[test]
fn bool_onezero_parses_true() {
    let key = device_state().parse("device/1/active/1", '/').unwrap();
    assert_eq!(key[1], SegmentValue::Flag(true));
}

#[test]
fn bool_onezero_parses_false() {
    let key = device_state().parse("device/1/active/0", '/').unwrap();
    assert_eq!(key[1], SegmentValue::Flag(false));
}

#[test]
fn bool_onezero_parse_invalid() {
    let err = device_state().parse("device/1/active/yes", '/').unwrap_err();
    assert!(matches!(err, TopikError::ParseError { .. }));
}

// --- BoolSegment<TrueFalse> ---

#[test]
fn bool_truefalse_renders_true() {
    let key = vec![SegmentValue::Text("living".to_string()), SegmentValue::Flag(true)];
    assert_eq!(light_state().render(&key, '/'), "home/living/light/true");
}

#[test]
fn bool_truefalse_parses_true() {
    let key = light_state().parse("home/living/light/true", '/').unwrap();
    assert_eq!(key[1], SegmentValue::Flag(true));
}

#[test]
fn bool_truefalse_parses_false() {
    let key = light_state().parse("home/living/light/false", '/').unwrap();
    assert_eq!(key[1], SegmentValue::Flag(false));
}

// --- BoolSegment<YesNo> ---

#[test]
fn bool_yesno_renders_true() {
    let key = vec![SegmentValue::U64(5), SegmentValue::Flag(true)];
    assert_eq!(switch_state().render(&key, '/'), "switch/5/yes");
}

#[test]
fn bool_yesno_parses_true() {
    let key = switch_state().parse("switch/5/yes", '/').unwrap();
    assert_eq!(key[1], SegmentValue::Flag(true));
}

#[test]
fn bool_yesno_parse_invalid() {
    let err = switch_state().parse("switch/5/1", '/').unwrap_err();
    assert!(matches!(err, TopikError::ParseError { .. }));
}

// --- BoolSegment<OnOff> ---

#[test]
fn bool_onoff_renders_true() {
    let key = vec![SegmentValue::U64(3), SegmentValue::Flag(true)];
    assert_eq!(relay_state().render(&key, '/'), "relay/3/on");
}

#[test]
fn bool_onoff_parses_false() {
    let key = relay_state().parse("relay/3/off", '/').unwrap();
    assert_eq!(key[1], SegmentValue::Flag(false));
}

// --- String segment ---

#[test]
fn string_segment_renders() {
    let key = vec![SegmentValue::Text("kitchen".to_string()), SegmentValue::Flag(false)];
    assert_eq!(light_state().render(&key, '/'), "home/kitchen/light/false");
}

#[test]
fn string_segment_parses() {
    let key = light_state().parse("home/kitchen/light/true", '/').unwrap();
    assert_eq!(key[0], SegmentValue::Text("kitchen".to_string()));
}

#[test]
fn string_segment_round_trip() {
    let key = vec![SegmentValue::Text("bedroom".to_string()), SegmentValue::Flag(true)];
    let rendered = light_state().render(&key, '/');
    let parsed = light_state().parse(&rendered, '/').unwrap();
    assert_eq!(parsed[0], SegmentValue::Text("bedroom".to_string()));
    assert_eq!(parsed[1], SegmentValue::Flag(true));
}

// --- own tests: the Segment trait on its own ---

#[test]
fn segment_trait_bool_segment() {
    let on: BoolSegment<OnOff> = BoolSegment::from(true);
    assert_eq!(on.render(), "on");
    assert!(on.as_bool());
    let parsed = <BoolSegment<YesNo> as Segment>::parse("no").unwrap();
    assert!(!parsed.as_bool());
    let err = <BoolSegment<OneZero> as Segment>::parse("yes").unwrap_err();
    assert_eq!(
        err,
        TopikError::ParseError {
            topic: "yes".to_string(),
            reason: "expected '1' or '0', got 'yes'".to_string()
        }
    );
}

#[test]
fn segment_trait_integers() {
    assert_eq!(255u8.render(), "255");
    assert_eq!((-7i32).render(), "-7");
    assert_eq!(i64::MIN.render(), "-9223372036854775808");
    assert_eq!(<u16 as Segment>::parse("65535").unwrap(), 65535);
    assert_eq!(<i64 as Segment>::parse("-42").unwrap(), -42);
    let err = <u8 as Segment>::parse("256").unwrap_err();
    assert_eq!(
        err,
        TopikError::ParseError {
            topic: "256".to_string(),
            reason: "expected u8, got '256'".to_string()
        }
    );
    assert_eq!("kitchen".to_string().render(), "kitchen");
    assert_eq!(<String as Segment>::parse("a b").unwrap(), "a b");
}

#[test]
fn segment_trait_round_trip_u64() {
    for v in [0u64, 9, 10, 99, 12345, u64::MAX] {
        assert_eq!(<u64 as Segment>::parse(&v.render()).unwrap(), v);
    }
}
