//! Typed pub/sub topics: segment rendering and parsing, payload encodings,
//! subscription patterns and wildcard matching.
//!
//! A topic is defined once as an ordered list of literal and typed dynamic
//! segments ([`TopicSchema`]) plus a payload encoding ([`TopicDefinition`]).
//! The definition renders a key as a topic string for any protocol's
//! separator, parses topic strings back, and builds subscription patterns;
//! [`matches_pattern`] decides which published topics a pattern receives.
pub mod text;
pub mod matching;
pub mod error;
pub mod decimal;
pub mod protocol;
pub mod segments;
pub mod topic;
pub mod subscribe;
pub mod topic_laws;
pub mod payload;
pub mod encoding;
pub mod message;
pub mod topic_enum;
pub mod definition;
pub mod mqtt;
pub mod transport;
pub mod uuid_text;
pub mod float_text;

pub use encoding::{
    BoolEncoding, Encoding, I32Encoding, I64Encoding, RawEncoding, StringEncoding, U16Encoding,
    U32Encoding, U64Encoding, U8Encoding,
};
pub use error::{EncodingFailure, IntErrorKind, TopikError};
pub use matching::matches_pattern;
pub use message::{PayloadEncoding, PayloadValue, TopicDefinition, TopicMessage};
pub use mqtt::MqttClientBuilder;
pub use protocol::{Mqtt, Nats, Protocol, Redis};
pub use segments::{
    BinaryBool, BoolRepr, BoolSegment, OnOff, OnOffBool, OneZero, Segment, StandardBool,
    TrueFalse, YesNo, YesNoBool,
};
pub use subscribe::{PatternBuilder, SubscribeBuilder};
pub use topic::{FieldType, IntWidth, SegmentValue, TopicSchema, TopicSegment};
pub use topic_enum::TopicEnum;
pub use transport::{RawMessage, StreamEvent, StreamStep};
