//! Whole messages: a topic definition together with its payload encoding.
//! Turns a key and a payload into the topic string and payload bytes to
//! publish, and a received topic string and payload back into a key and a
//! payload.
use vstd::prelude::*;
use vstd::utf8::{encode_utf8};
use bytes::Bytes;
use crate::decimal::{signed_decimal, render_unsigned, render_signed};
use crate::encoding::{
    Encoding, StringEncoding, decode_text, decode_flag, decode_integer, encode_flag,
    encode_decimal, decode_flag_payload, decode_integer_payload,
};
use crate::error::{TopikError, ErrorView};
use crate::float_text::{float_literal, decode_float, decode_float_payload, is_float_literal};
use crate::text::str_to_chars;
use crate::payload::{bytes_content, bytes_copy_from_slice, bytes_of_str};
use crate::topic::{IntWidth, TopicSchema, SegmentValue, ValueView, values_view, values_fit, render_topic, parse_topic};

verus! {

/// How a payload is encoded on the wire.
#[derive(Debug, PartialEq, Eq)]
pub enum PayloadEncoding {
    /// Raw bytes (`RawEncoding`).
    Raw,
    /// UTF-8 text (`StringEncoding`).
    Text,
    /// A boolean with the given texts (`BoolEncoding`).
    Flag { true_text: String, false_text: String },
    U8,
    U16,
    U32,
    U64,
    I32,
    I64,
    /// Decimal `f32` text (`F32Encoding`).
    F32,
    /// Decimal `f64` text (`F64Encoding`).
    F64,
    /// An encoding implemented by the caller (a user's own `Encoding`): the
    /// payload bytes are handed over as they are, for that encoding to
    /// decode.
    Custom,
}

impl PayloadEncoding {
    /// The boolean encoding whose texts are given by `R` (`BoolEncoding<R>`).
    pub fn flag<R: crate::segments::BoolRepr>() -> (e: Self)
        ensures
            e@ == (EncodingSpec::Flag { true_text: R::TRUE@, false_text: R::FALSE@ }),
    {
        let mut true_text = String::new();
        crate::text::push_str(&mut true_text, R::TRUE);
        let mut false_text = String::new();
        crate::text::push_str(&mut false_text, R::FALSE);
        PayloadEncoding::Flag { true_text, false_text }
    }
}

/// The mathematical model of a [`PayloadEncoding`].
pub enum EncodingSpec {
    Raw,
    Text,
    Flag { true_text: Seq<char>, false_text: Seq<char> },
    /// Integers of type `width` in `min..=max`.
    Integer { width: IntWidth, signed: bool, min: int, max: int },
    /// Floats as decimal text; `wide` for `f64`.
    Float { wide: bool },
    Custom,
}

impl View for PayloadEncoding {
    type V = EncodingSpec;

    open spec fn view(&self) -> EncodingSpec {
        match self {
            PayloadEncoding::Raw => EncodingSpec::Raw,
            PayloadEncoding::Text => EncodingSpec::Text,
            PayloadEncoding::Flag { true_text, false_text } => EncodingSpec::Flag {
                true_text: true_text@,
                false_text: false_text@,
            },
            PayloadEncoding::U8 => EncodingSpec::Integer {
                width: IntWidth::U8,
                signed: false,
                min: 0,
                max: 0xff,
            },
            PayloadEncoding::U16 => EncodingSpec::Integer {
                width: IntWidth::U16,
                signed: false,
                min: 0,
                max: 0xffff,
            },
            PayloadEncoding::U32 => EncodingSpec::Integer {
                width: IntWidth::U32,
                signed: false,
                min: 0,
                max: 0xffff_ffff,
            },
            PayloadEncoding::U64 => EncodingSpec::Integer {
                width: IntWidth::U64,
                signed: false,
                min: 0,
                max: 0xffff_ffff_ffff_ffff,
            },
            PayloadEncoding::I32 => EncodingSpec::Integer {
                width: IntWidth::I32,
                signed: true,
                min: -0x8000_0000,
                max: 0x7fff_ffff,
            },
            PayloadEncoding::I64 => EncodingSpec::Integer {
                width: IntWidth::I64,
                signed: true,
                min: -0x8000_0000_0000_0000,
                max: 0x7fff_ffff_ffff_ffff,
            },
            PayloadEncoding::F32 => EncodingSpec::Float { wide: false },
            PayloadEncoding::F64 => EncodingSpec::Float { wide: true },
            PayloadEncoding::Custom => EncodingSpec::Custom,
        }
    }
}

/// A payload value.
#[derive(Debug, PartialEq, Eq)]
pub enum PayloadValue {
    /// Bytes (raw or custom-encoded payloads).
    Bytes(Bytes),
    Text(String),
    Flag(bool),
    U8(u8),
    U16(u16),
    U32(u32),
    U64(u64),
    I32(i32),
    I64(i64),
    /// An `f32` by its decimal text (as `f32::to_string` prints it and
    /// `str::parse` reads it).
    F32(String),
    /// An `f64` by its decimal text.
    F64(String),
}

/// The mathematical model of a [`PayloadValue`].
pub enum PayloadView {
    Bytes(Seq<u8>),
    Text(Seq<char>),
    Flag(bool),
    /// An integer with its Rust type.
    Int(IntWidth, int),
    /// A float by its text; `wide` for `f64`.
    Float { wide: bool, text: Seq<char> },
}

impl View for PayloadValue {
    type V = PayloadView;

    open spec fn view(&self) -> PayloadView {
        match self {
            PayloadValue::Bytes(b) => PayloadView::Bytes(bytes_content(*b)),
            PayloadValue::Text(s) => PayloadView::Text(s@),
            PayloadValue::Flag(b) => PayloadView::Flag(*b),
            PayloadValue::U8(x) => PayloadView::Int(IntWidth::U8, *x as int),
            PayloadValue::U16(x) => PayloadView::Int(IntWidth::U16, *x as int),
            PayloadValue::U32(x) => PayloadView::Int(IntWidth::U32, *x as int),
            PayloadValue::U64(x) => PayloadView::Int(IntWidth::U64, *x as int),
            PayloadValue::I32(x) => PayloadView::Int(IntWidth::I32, *x as int),
            PayloadValue::I64(x) => PayloadView::Int(IntWidth::I64, *x as int),
            PayloadValue::F32(t) => PayloadView::Float { wide: false, text: t@ },
            PayloadValue::F64(t) => PayloadView::Float { wide: true, text: t@ },
        }
    }
}

/// The payload value has the type the encoding carries.
pub open spec fn payload_fits(enc: EncodingSpec, v: PayloadView) -> bool {
    match enc {
        EncodingSpec::Raw => v is Bytes,
        EncodingSpec::Custom => v is Bytes,
        EncodingSpec::Text => v is Text,
        EncodingSpec::Flag { .. } => v is Flag,
        EncodingSpec::Integer { width, min, max, .. } => v matches PayloadView::Int(w, i) && w == width
            && min <= i <= max,
        EncodingSpec::Float { wide } => v matches PayloadView::Float { wide: w, text } && w == wide
            && float_literal(text),
    }
}

/// The bytes of an encoded payload.
pub open spec fn encoded_payload(enc: EncodingSpec, v: PayloadView) -> Seq<u8> {
    match v {
        PayloadView::Bytes(b) => b,
        PayloadView::Text(s) => encode_utf8(s),
        PayloadView::Flag(b) => match enc {
            EncodingSpec::Flag { true_text, false_text } => encode_utf8(
                if b {
                    true_text
                } else {
                    false_text
                },
            ),
            _ => Seq::<u8>::empty(),
        },
        PayloadView::Int(_, i) => encode_utf8(signed_decimal(i)),
        PayloadView::Float { text, .. } => encode_utf8(text),
    }
}

/// What decoding payload bytes with an encoding gives.
pub open spec fn decoded_payload(enc: EncodingSpec, content: Seq<u8>) -> Result<
    PayloadView,
    ErrorView,
> {
    match enc {
        EncodingSpec::Raw => Ok(PayloadView::Bytes(content)),
        EncodingSpec::Custom => Ok(PayloadView::Bytes(content)),
        EncodingSpec::Text => match decode_text(content) {
            Ok(s) => Ok(PayloadView::Text(s)),
            Err(e) => Err(e),
        },
        EncodingSpec::Flag { true_text, false_text } => match decode_flag(
            content,
            true_text,
            false_text,
        ) {
            Ok(b) => Ok(PayloadView::Flag(b)),
            Err(e) => Err(e),
        },
        EncodingSpec::Integer { width, signed, min, max } => match decode_integer(
            content,
            signed,
            min,
            max,
        ) {
            Ok(i) => Ok(PayloadView::Int(width, i)),
            Err(e) => Err(e),
        },
        EncodingSpec::Float { wide } => match decode_float(content) {
            Ok(t) => Ok(PayloadView::Float { wide, text: t }),
            Err(e) => Err(e),
        },
    }
}

impl PayloadEncoding {
    /// Whether a payload value has the type this encoding carries.
    pub fn accepts(&self, v: &PayloadValue) -> (r: bool)
        ensures
            r == payload_fits(self@, v@),
    {
        match self {
            PayloadEncoding::Raw => matches!(v, PayloadValue::Bytes(_)),
            PayloadEncoding::Custom => matches!(v, PayloadValue::Bytes(_)),
            PayloadEncoding::Text => matches!(v, PayloadValue::Text(_)),
            PayloadEncoding::Flag { .. } => matches!(v, PayloadValue::Flag(_)),
            PayloadEncoding::U8 => matches!(v, PayloadValue::U8(_)),
            PayloadEncoding::U16 => matches!(v, PayloadValue::U16(_)),
            PayloadEncoding::U32 => matches!(v, PayloadValue::U32(_)),
            PayloadEncoding::U64 => matches!(v, PayloadValue::U64(_)),
            PayloadEncoding::I32 => matches!(v, PayloadValue::I32(_)),
            PayloadEncoding::I64 => matches!(v, PayloadValue::I64(_)),
            PayloadEncoding::F32 => match v {
                PayloadValue::F32(t) => is_float_literal(str_to_chars(t.as_str()).as_slice()),
                _ => false,
            },
            PayloadEncoding::F64 => match v {
                PayloadValue::F64(t) => is_float_literal(str_to_chars(t.as_str()).as_slice()),
                _ => false,
            },
        }
    }
}

/// Encodes a payload value.
pub fn encode_payload(enc: &PayloadEncoding, value: &PayloadValue) -> (b: Bytes)
    requires
        payload_fits(enc@, value@),
    ensures
        bytes_content(b) == encoded_payload(enc@, value@),
{
    match value {
        PayloadValue::Bytes(b) => b.clone(),
        PayloadValue::Text(s) => bytes_of_str(s.as_str()),
        PayloadValue::Flag(v) => match enc {
            PayloadEncoding::Flag { true_text, false_text } => encode_flag(
                *v,
                true_text.as_str(),
                false_text.as_str(),
            ),
            _ => bytes_copy_from_slice(&[]),
        },
        PayloadValue::U8(x) => encode_decimal(render_unsigned(*x as u64)),
        PayloadValue::U16(x) => encode_decimal(render_unsigned(*x as u64)),
        PayloadValue::U32(x) => encode_decimal(render_unsigned(*x as u64)),
        PayloadValue::U64(x) => encode_decimal(render_unsigned(*x)),
        PayloadValue::I32(x) => encode_decimal(render_signed(*x as i64)),
        PayloadValue::I64(x) => encode_decimal(render_signed(*x)),
        PayloadValue::F32(t) => bytes_of_str(t.as_str()),
        PayloadValue::F64(t) => bytes_of_str(t.as_str()),
    }
}

/// Decodes payload bytes with an encoding.
pub fn decode_payload(enc: &PayloadEncoding, bytes: Bytes) -> (r: Result<PayloadValue, TopikError>)
    ensures
        match r {
            Ok(v) => decoded_payload(enc@, bytes_content(bytes)) == Ok::<PayloadView, ErrorView>(
                v@,
            ),
            Err(e) => decoded_payload(enc@, bytes_content(bytes)) == Err::<PayloadView, ErrorView>(
                e@,
            ),
        },
{
    match enc {
        PayloadEncoding::Raw => Ok(PayloadValue::Bytes(bytes)),
        PayloadEncoding::Custom => Ok(PayloadValue::Bytes(bytes)),
        PayloadEncoding::F32 => match decode_float_payload(bytes) {
            Ok(t) => Ok(PayloadValue::F32(t)),
            Err(e) => Err(e),
        },
        PayloadEncoding::F64 => match decode_float_payload(bytes) {
            Ok(t) => Ok(PayloadValue::F64(t)),
            Err(e) => Err(e),
        },
        PayloadEncoding::Text => match StringEncoding::decode(bytes) {
            Ok(s) => Ok(PayloadValue::Text(s)),
            Err(e) => Err(e),
        },
        PayloadEncoding::Flag { true_text, false_text } => match decode_flag_payload(
            bytes,
            true_text.as_str(),
            false_text.as_str(),
        ) {
            Ok(b) => Ok(PayloadValue::Flag(b)),
            Err(e) => Err(e),
        },
        PayloadEncoding::U8 => match decode_integer_payload(bytes, false, 0, 0xff) {
            Ok(v) => Ok(PayloadValue::U8(v as u8)),
            Err(e) => Err(e),
        },
        PayloadEncoding::U16 => match decode_integer_payload(bytes, false, 0, 0xffff) {
            Ok(v) => Ok(PayloadValue::U16(v as u16)),
            Err(e) => Err(e),
        },
        PayloadEncoding::U32 => match decode_integer_payload(bytes, false, 0, 0xffff_ffff) {
            Ok(v) => Ok(PayloadValue::U32(v as u32)),
            Err(e) => Err(e),
        },
        PayloadEncoding::U64 => match decode_integer_payload(
            bytes,
            false,
            0,
            0xffff_ffff_ffff_ffff,
        ) {
            Ok(v) => Ok(PayloadValue::U64(v as u64)),
            Err(e) => Err(e),
        },
        PayloadEncoding::I32 => match decode_integer_payload(
            bytes,
            true,
            -0x8000_0000,
            0x7fff_ffff,
        ) {
            Ok(v) => Ok(PayloadValue::I32(v as i32)),
            Err(e) => Err(e),
        },
        PayloadEncoding::I64 => match decode_integer_payload(
            bytes,
            true,
            -0x8000_0000_0000_0000,
            0x7fff_ffff_ffff_ffff,
        ) {
            Ok(v) => Ok(PayloadValue::I64(v as i64)),
            Err(e) => Err(e),
        },
    }
}

/// A typed message: the key (values of the dynamic segments) and the payload.
#[derive(Debug, PartialEq, Eq)]
pub struct TopicMessage {
    pub key: Vec<SegmentValue>,
    pub payload: PayloadValue,
}

/// A topic definition with its payload encoding (what `#[derive(Topic)]`
/// declares).
pub struct TopicDefinition {
    pub schema: TopicSchema,
    pub encoding: PayloadEncoding,
}

/// What receiving a message gives: `None` when the topic does not parse;
/// otherwise the decoded payload, or the decoding error.
pub open spec fn received_message(
    def_segs: Seq<crate::topic::SegmentSpec>,
    enc: EncodingSpec,
    topic: Seq<char>,
    payload: Seq<u8>,
    sep: char,
) -> Result<Option<(Seq<ValueView>, PayloadView)>, ErrorView> {
    match parse_topic(def_segs, topic, sep) {
        Err(_) => Ok(None),
        Ok(key) => match decoded_payload(enc, payload) {
            Ok(p) => Ok(Some((key, p))),
            Err(e) => Err(e),
        },
    }
}

impl TopicDefinition {
    /// Whether the message's key and payload fit this definition.
    pub fn accepts(&self, message: &TopicMessage) -> (r: bool)
        ensures
            r == (values_fit(self.schema.spec_segments(), values_view(message.key@))
                && payload_fits(self.encoding@, message.payload@)),
    {
        self.schema.accepts_key(&message.key) && self.encoding.accepts(&message.payload)
    }

    /// The topic string and payload bytes to publish for a message.
    pub fn publish_parts(&self, message: &TopicMessage, sep: char) -> (r: (String, Bytes))
        requires
            values_fit(self.schema.spec_segments(), values_view(message.key@)),
            payload_fits(self.encoding@, message.payload@),
        ensures
            r.0@ == render_topic(self.schema.spec_segments(), values_view(message.key@), sep),
            bytes_content(r.1) == encoded_payload(self.encoding@, message.payload@),
    {
        let topic = self.schema.render(&message.key, sep);
        let payload = encode_payload(&self.encoding, &message.payload);
        (topic, payload)
    }

    /// Parses a received topic and payload: `Ok(None)` when the topic does
    /// not parse against this definition, the decoding error when the
    /// payload does not decode.
    pub fn parse_message(&self, topic: &str, payload: &[u8], sep: char) -> (r: Result<
        Option<TopicMessage>,
        TopikError,
    >)
        ensures
            match r {
                Ok(Some(m)) => received_message(
                    self.schema.spec_segments(),
                    self.encoding@,
                    topic@,
                    payload@,
                    sep,
                ) == Ok::<Option<(Seq<ValueView>, PayloadView)>, ErrorView>(
                    Some((values_view(m.key@), m.payload@)),
                ),
                Ok(None) => received_message(
                    self.schema.spec_segments(),
                    self.encoding@,
                    topic@,
                    payload@,
                    sep,
                ) == Ok::<Option<(Seq<ValueView>, PayloadView)>, ErrorView>(None),
                Err(e) => received_message(
                    self.schema.spec_segments(),
                    self.encoding@,
                    topic@,
                    payload@,
                    sep,
                ) == Err::<Option<(Seq<ValueView>, PayloadView)>, ErrorView>(e@),
            },
    {
        match self.schema.parse(topic, sep) {
            Ok(key) => {
                let bytes = bytes_copy_from_slice(payload);
                match decode_payload(&self.encoding, bytes) {
                    Ok(p) => Ok(Some(TopicMessage { key, payload: p })),
                    Err(e) => Err(e),
                }
            },
            Err(_) => Ok(None),
        }
    }

    /// Turns a message delivered on a subscription into a typed message;
    /// messages whose topic does not parse or whose payload does not decode
    /// are skipped (`None`): they are likely from other publishers on the
    /// same pattern.
    pub fn receive(&self, topic: &str, payload: Bytes, sep: char) -> (r: Option<TopicMessage>)
        ensures
            match r {
                Some(m) => received_message(
                    self.schema.spec_segments(),
                    self.encoding@,
                    topic@,
                    bytes_content(payload),
                    sep,
                ) == Ok::<Option<(Seq<ValueView>, PayloadView)>, ErrorView>(
                    Some((values_view(m.key@), m.payload@)),
                ),
                None => !(received_message(
                    self.schema.spec_segments(),
                    self.encoding@,
                    topic@,
                    bytes_content(payload),
                    sep,
                ) matches Ok(Some(_))),
            },
    {
        match self.schema.parse(topic, sep) {
            Ok(key) => match decode_payload(&self.encoding, payload) {
                Ok(p) => Some(TopicMessage { key, payload: p }),
                Err(_) => None,
            },
            Err(_) => None,
        }
    }
}


/// An encoding as the library builds them: integer ranges hold zero and
/// only signed types go below it; boolean texts differ.
pub open spec fn encoding_readable(enc: EncodingSpec) -> bool {
    match enc {
        EncodingSpec::Integer { signed, min, max, .. } => min <= 0 <= max && (min < 0 ==> signed),
        EncodingSpec::Flag { true_text, false_text } => true_text != false_text,
        _ => true,
    }
}

/// Decoding an encoded payload gives the payload back.
pub proof fn lemma_payload_round_trip(enc: EncodingSpec, v: PayloadView)
    requires
        payload_fits(enc, v),
        encoding_readable(enc),
    ensures
        decoded_payload(enc, encoded_payload(enc, v)) == Ok::<PayloadView, ErrorView>(v),
{
    match enc {
        EncodingSpec::Text => {
            if let PayloadView::Text(s) = v {
                crate::encoding::lemma_text_payload_round_trip(s);
            }
        },
        EncodingSpec::Flag { true_text, false_text } => {
            if let PayloadView::Flag(b) = v {
                crate::encoding::lemma_flag_payload_round_trip(b, true_text, false_text);
            }
        },
        EncodingSpec::Integer { signed, min, max, .. } => {
            if let PayloadView::Int(_, i) = v {
                crate::encoding::lemma_integer_payload_round_trip(i, signed, min, max);
            }
        },
        EncodingSpec::Float { .. } => {
            if let PayloadView::Float { text, .. } = v {
                crate::encoding::lemma_text_payload_round_trip(text);
            }
        },
        _ => {},
    }
}

/// A subscriber of a topic definition receives, for a published message,
/// exactly its key and payload, provided no segment text holds the
/// separator, every boolean text pair differs, and the definition has at
/// least one segment.
pub proof fn lemma_receive_published(
    segs: Seq<crate::topic::SegmentSpec>,
    enc: EncodingSpec,
    vals: Seq<ValueView>,
    p: PayloadView,
    sep: char,
)
    requires
        segs.len() >= 1,
        values_fit(segs, vals),
        crate::topic_laws::fields_readable(segs),
        crate::text::all_free_of(crate::topic::rendered_parts(segs, vals), sep),
        payload_fits(enc, p),
        encoding_readable(enc),
    ensures
        received_message(segs, enc, render_topic(segs, vals, sep), encoded_payload(enc, p), sep)
            == Ok::<Option<(Seq<ValueView>, PayloadView)>, ErrorView>(Some((vals, p))),
{
    crate::topic_laws::lemma_parse_render(segs, vals, sep);
    lemma_payload_round_trip(enc, p);
}

/// A topic that does not parse against the definition is skipped: the
/// result is `Ok(None)` whatever the parse error and whatever the payload.
/// A topic that parses gives its key with the decoded payload, or the
/// payload's decoding error.
pub proof fn lemma_received_message_cases(
    segs: Seq<crate::topic::SegmentSpec>,
    enc: EncodingSpec,
    topic: Seq<char>,
    payload: Seq<u8>,
    sep: char,
)
    ensures
        parse_topic(segs, topic, sep) is Err ==> received_message(segs, enc, topic, payload, sep)
            == Ok::<Option<(Seq<ValueView>, PayloadView)>, ErrorView>(None),
        forall|key: Seq<ValueView>, p: PayloadView|
            parse_topic(segs, topic, sep) == Ok::<Seq<ValueView>, ErrorView>(key)
                && #[trigger] decoded_payload(enc, payload) == Ok::<PayloadView, ErrorView>(p)
                ==> received_message(segs, enc, topic, payload, sep) == Ok::<
                Option<(Seq<ValueView>, PayloadView)>,
                ErrorView,
            >(Some((key, p))),
        forall|key: Seq<ValueView>, e: ErrorView|
            parse_topic(segs, topic, sep) == Ok::<Seq<ValueView>, ErrorView>(key)
                && #[trigger] decoded_payload(enc, payload) == Err::<PayloadView, ErrorView>(e)
                ==> received_message(segs, enc, topic, payload, sep) == Err::<
                Option<(Seq<ValueView>, PayloadView)>,
                ErrorView,
            >(e),
{
}

} // verus!
