use bytes::Bytes;
use topik::{
    BoolEncoding, Encoding, EncodingFailure, FieldType, I32Encoding, I64Encoding, OneZero,
    PayloadEncoding, PayloadValue, RawEncoding, SegmentValue, StringEncoding, TopicDefinition,
    TopicMessage, TopicSchema, TopicSegment, TopikError, U16Encoding, U32Encoding, U64Encoding,
    U8Encoding,
};

fn lit(s: &str) -> TopicSegment {
    TopicSegment::Literal(s.to_string())
}

fn device_id() -> TopicSegment {
    TopicSegment::Field { name: "device_id".to_string(), ty: FieldType::U64 }
}

fn string_sensor() -> TopicDefinition {
    TopicDefinition {
        schema: TopicSchema::new("StringSensor".to_string(), vec![lit("sensor"), device_id()]),
        encoding: PayloadEncoding::Text,
    }
}

fn raw_sensor() -> TopicDefinition {
    TopicDefinition {
        schema: TopicSchema::new("RawSensor".to_string(), vec![lit("sensor"), device_id()]),
        encoding: PayloadEncoding::Raw,
    }
}

fn counter_reading() -> TopicDefinition {
    TopicDefinition {
        schema: TopicSchema::new("CounterReading".to_string(), vec![lit("counter"), device_id()]),
        encoding: PayloadEncoding::U64,
    }
}

fn device_active() -> TopicDefinition {
    TopicDefinition {
        schema: TopicSchema::new(
            "DeviceActive".to_string(),
            vec![lit("device"), device_id(), lit("active")],
        ),
        encoding: PayloadEncoding::Flag {
            true_text: "1".to_string(),
            false_text: "0".to_string(),
        },
    }
}

// --- StringEncoding tests ---

#[test]
fn string_encoding_encode() {
    let bytes = StringEncoding::encode(&"hello".to_string()).unwrap();
    assert_eq!(bytes, Bytes::from("hello"));
}

#[test]
fn string_encoding_decode() {
    let s = StringEncoding::decode(Bytes::from("hello")).unwrap();
    assert_eq!(s, "hello");
}

#[test]
fn string_encoding_decode_invalid_utf8() {
    let err = StringEncoding::decode(Bytes::from(vec![0xFF, 0xFE])).unwrap_err();
    assert!(matches!(err, TopikError::Encoding(_)));
}

#[test]
fn string_encoding_from_key_and_payload() {
    let key = string_sensor().schema.parse("sensor/42", '/').unwrap();
    let msg = TopicMessage { key, payload: PayloadValue::Text("hello world".to_string()) };
    assert_eq!(msg.key[0], SegmentValue::U64(42));
    assert_eq!(msg.payload, PayloadValue::Text("hello world".to_string()));
}

// --- RawEncoding tests ---

#[test]
fn raw_encoding_encode() {
    let bytes = Bytes::from("raw");
    let encoded = RawEncoding::encode(&bytes).unwrap();
    assert_eq!(encoded, bytes);
}

#[test]
fn raw_encoding_decode() {
    let bytes = Bytes::from("raw");
    let decoded = RawEncoding::decode(bytes.clone()).unwrap();
    assert_eq!(decoded, bytes);
}

#[test]
fn raw_encoding_from_key_and_payload() {
    let key = raw_sensor().schema.parse("sensor/42", '/').unwrap();
    let payload = Bytes::from("raw payload");
    let msg = TopicMessage { key, payload: PayloadValue::Bytes(payload.clone()) };
    assert_eq!(msg.key[0], SegmentValue::U64(42));
    assert_eq!(msg.payload, PayloadValue::Bytes(payload));
}

// --- Numeric encoding tests ---

#[test]
fn u64_encoding_encode() {
    let bytes = U64Encoding::encode(&42u64).unwrap();
    assert_eq!(bytes, Bytes::from("42"));
}

#[test]
fn u64_encoding_decode() {
    let val = U64Encoding::decode(Bytes::from("42")).unwrap();
    assert_eq!(val, 42u64);
}

#[test]
fn u64_encoding_decode_invalid() {
    let err = U64Encoding::decode(Bytes::from("notanumber")).unwrap_err();
    assert!(matches!(err, TopikError::Encoding(_)));
}

#[test]
fn u64_encoding_from_key_and_payload() {
    let key = counter_reading().schema.parse("counter/1", '/').unwrap();
    let msg = TopicMessage { key, payload: PayloadValue::U64(999) };
    assert_eq!(msg.key[0], SegmentValue::U64(1));
    assert_eq!(msg.payload, PayloadValue::U64(999));
}

#[test]
fn i32_encoding_negative() {
    let bytes = I32Encoding::encode(&-42i32).unwrap();
    assert_eq!(bytes, Bytes::from("-42"));
    let val = I32Encoding::decode(bytes).unwrap();
    assert_eq!(val, -42i32);
}

#[test]
fn u8_encoding_round_trip() {
    let bytes = U8Encoding::encode(&255u8).unwrap();
    assert_eq!(bytes, Bytes::from("255"));
    let val = U8Encoding::decode(bytes).unwrap();
    assert_eq!(val, 255u8);
}

#[test]
fn u8_encoding_decode_invalid() {
    let err = U8Encoding::decode(Bytes::from("256")).unwrap_err();
    assert!(matches!(err, TopikError::Encoding(_)));
}

#[test]
fn u16_encoding_round_trip() {
    let bytes = U16Encoding::encode(&65535u16).unwrap();
    assert_eq!(bytes, Bytes::from("65535"));
    let val = U16Encoding::decode(bytes).unwrap();
    assert_eq!(val, 65535u16);
}

#[test]
fn u16_encoding_decode_invalid() {
    let err = U16Encoding::decode(Bytes::from("65536")).unwrap_err();
    assert!(matches!(err, TopikError::Encoding(_)));
}

#[test]
fn u32_encoding_round_trip() {
    let bytes = U32Encoding::encode(&4294967295u32).unwrap();
    assert_eq!(bytes, Bytes::from("4294967295"));
    let val = U32Encoding::decode(bytes).unwrap();
    assert_eq!(val, 4294967295u32);
}

#[test]
fn u32_encoding_decode_invalid() {
    let err = U32Encoding::decode(Bytes::from("4294967296")).unwrap_err();
    assert!(matches!(err, TopikError::Encoding(_)));
}

#[test]
fn i64_encoding_round_trip() {
    let bytes = I64Encoding::encode(&-9223372036854775808i64).unwrap();
    assert_eq!(bytes, Bytes::from("-9223372036854775808"));
    let val = I64Encoding::decode(bytes).unwrap();
    assert_eq!(val, i64::MIN);
}

#[test]
fn i64_encoding_decode_invalid() {
    let err = I64Encoding::decode(Bytes::from("notanumber")).unwrap_err();
    assert!(matches!(err, TopikError::Encoding(_)));
}

// --- BoolEncoding tests ---

#[test]
fn bool_encoding_onezero_encode_true() {
    let bytes = BoolEncoding::<OneZero>::encode(&true).unwrap();
    assert_eq!(bytes, Bytes::from("1"));
}

#[test]
fn bool_encoding_onezero_encode_false() {
    let bytes = BoolEncoding::<OneZero>::encode(&false).unwrap();
    assert_eq!(bytes, Bytes::from("0"));
}

#[test]
fn bool_encoding_onezero_decode_true() {
    let val = BoolEncoding::<OneZero>::decode(Bytes::from("1")).unwrap();
    assert!(val);
}

#[test]
fn bool_encoding_onezero_decode_false() {
    let val = BoolEncoding::<OneZero>::decode(Bytes::from("0")).unwrap();
    assert!(!val);
}

#[test]
fn bool_encoding_onezero_decode_invalid() {
    let err = BoolEncoding::<OneZero>::decode(Bytes::from("yes")).unwrap_err();
    assert!(matches!(err, TopikError::EncodingMessage(_)));
}

#[test]
fn bool_encoding_from_key_and_payload() {
    let key = device_active().schema.parse("device/42/active", '/').unwrap();
    let msg = TopicMessage { key, payload: PayloadValue::Flag(true) };
    assert_eq!(msg.key[0], SegmentValue::U64(42));
    assert_eq!(msg.payload, PayloadValue::Flag(true));
}

// --- own tests: exact errors and messages ---

#[test]
fn u8_encoding_overflow_kind() {
    let err = U8Encoding::decode(Bytes::from("256")).unwrap_err();
    assert_eq!(
        err,
        TopikError::Encoding(EncodingFailure::InvalidInteger(topik::IntErrorKind::PosOverflow))
    );
}

#[test]
fn i32_encoding_underflow_kind() {
    let err = I32Encoding::decode(Bytes::from("-2147483649")).unwrap_err();
    assert_eq!(
        err,
        TopikError::Encoding(EncodingFailure::InvalidInteger(topik::IntErrorKind::NegOverflow))
    );
}

#[test]
fn u64_encoding_empty_and_sign_kinds() {
    assert_eq!(
        U64Encoding::decode(Bytes::from("")).unwrap_err(),
        TopikError::Encoding(EncodingFailure::InvalidInteger(topik::IntErrorKind::Empty))
    );
    assert_eq!(
        U64Encoding::decode(Bytes::from("+")).unwrap_err(),
        TopikError::Encoding(EncodingFailure::InvalidInteger(topik::IntErrorKind::InvalidDigit))
    );
    assert_eq!(
        U64Encoding::decode(Bytes::from("-1")).unwrap_err(),
        TopikError::Encoding(EncodingFailure::InvalidInteger(topik::IntErrorKind::InvalidDigit))
    );
    assert_eq!(U64Encoding::decode(Bytes::from("+17")).unwrap(), 17);
}

#[test]
fn u64_encoding_invalid_utf8() {
    let err = U64Encoding::decode(Bytes::from(vec![0xC3, 0x28])).unwrap_err();
    assert_eq!(err, TopikError::Encoding(EncodingFailure::InvalidUtf8));
}

#[test]
fn bool_encoding_invalid_message() {
    let err = BoolEncoding::<OneZero>::decode(Bytes::from("yes")).unwrap_err();
    assert_eq!(err, TopikError::EncodingMessage("expected '1' or '0', got 'yes'".to_string()));
}

#[test]
fn string_encoding_round_trip_non_ascii() {
    let s = "grüße, 温度".to_string();
    let bytes = StringEncoding::encode(&s).unwrap();
    assert_eq!(bytes, Bytes::from(s.clone().into_bytes()));
    assert_eq!(StringEncoding::decode(bytes).unwrap(), s);
}
