//! Payload encodings: raw bytes, UTF-8 text, configurable booleans and
//! decimal integers.
use vstd::prelude::*;
use vstd::utf8::{valid_utf8, decode_utf8, encode_utf8};
use bytes::Bytes;
use crate::decimal::{parse_integer, signed_decimal, parse_integer_chars, render_unsigned, render_signed};
use crate::error::{TopikError, ErrorView, EncodingFailure};
use crate::payload::{bytes_content, bytes_of_str, payload_text};
use crate::segments::{BoolRepr, flag_failure_reason, flag_failure_message};
use crate::text::{chars_to_string, str_to_chars, chars_eq};

verus! {

/// Abstraction over payload serialization and deserialization.
///
/// Implementations are stateless marker types: the encoding strategy is part
/// of the type itself rather than runtime configuration.
pub trait Encoding<T> {
    /// Serialize a value into raw bytes for transmission over the wire.
    fn encode(value: &T) -> Result<Bytes, TopikError>;

    /// Deserialize raw bytes received from the wire into a value.
    fn decode(bytes: Bytes) -> Result<T, TopikError>;
}

/// Raw bytes encoding: the payload is forwarded as it is.
pub struct RawEncoding;

impl Encoding<Bytes> for RawEncoding {
    fn encode(value: &Bytes) -> (r: Result<Bytes, TopikError>)
        ensures
            r matches Ok(b) && bytes_content(b) == bytes_content(*value),
    {
        Ok(value.clone())
    }

    fn decode(bytes: Bytes) -> (r: Result<Bytes, TopikError>)
        ensures
            r matches Ok(b) && b == bytes,
    {
        Ok(bytes)
    }
}

/// What decoding a payload as UTF-8 text gives.
pub open spec fn decode_text(content: Seq<u8>) -> Result<Seq<char>, ErrorView> {
    if valid_utf8(content) {
        Ok(decode_utf8(content))
    } else {
        Err(ErrorView::Encoding(EncodingFailure::InvalidUtf8))
    }
}

/// UTF-8 string encoding.
pub struct StringEncoding;

impl Encoding<String> for StringEncoding {
    fn encode(value: &String) -> (r: Result<Bytes, TopikError>)
        ensures
            r matches Ok(b) && bytes_content(b) == encode_utf8(value@),
    {
        Ok(bytes_of_str(value.as_str()))
    }

    fn decode(bytes: Bytes) -> (r: Result<String, TopikError>)
        ensures
            match r {
                Ok(s) => decode_text(bytes_content(bytes)) == Ok::<Seq<char>, ErrorView>(s@),
                Err(e) => decode_text(bytes_content(bytes)) == Err::<Seq<char>, ErrorView>(e@),
            },
    {
        match payload_text(bytes) {
            Some(s) => Ok(s),
            None => Err(TopikError::Encoding(EncodingFailure::InvalidUtf8)),
        }
    }
}

/// What decoding a boolean payload with texts `t` (true) and `f` (false)
/// gives: invalid UTF-8 is an encoding failure, any text other than the two
/// is refused with a message naming both.
pub open spec fn decode_flag(content: Seq<u8>, t: Seq<char>, f: Seq<char>) -> Result<
    bool,
    ErrorView,
> {
    if !valid_utf8(content) {
        Err(ErrorView::Encoding(EncodingFailure::InvalidUtf8))
    } else if decode_utf8(content) == t {
        Ok(true)
    } else if decode_utf8(content) == f {
        Ok(false)
    } else {
        Err(ErrorView::EncodingMessage(flag_failure_reason(t, f, decode_utf8(content))))
    }
}

/// Boolean payload encoding whose texts are given by a [`BoolRepr`].
pub struct BoolEncoding<R: BoolRepr>(core::marker::PhantomData<R>);

/// Encodes a boolean with the given texts.
pub fn encode_flag(value: bool, t: &str, f: &str) -> (b: Bytes)
    ensures
        bytes_content(b) == encode_utf8(if value { t@ } else { f@ }),
{
    if value {
        bytes_of_str(t)
    } else {
        bytes_of_str(f)
    }
}

/// Decodes a boolean payload with the given texts.
pub fn decode_flag_payload(bytes: Bytes, t: &str, f: &str) -> (r: Result<bool, TopikError>)
    ensures
        match r {
            Ok(v) => decode_flag(bytes_content(bytes), t@, f@) == Ok::<bool, ErrorView>(v),
            Err(e) => decode_flag(bytes_content(bytes), t@, f@) == Err::<bool, ErrorView>(e@),
        },
{
    let ghost content = bytes_content(bytes);
    match payload_text(bytes) {
        None => Err(TopikError::Encoding(EncodingFailure::InvalidUtf8)),
        Some(s) => {
            let chars = str_to_chars(s.as_str());
            if chars_eq(chars.as_slice(), str_to_chars(t).as_slice()) {
                Ok(true)
            } else if chars_eq(chars.as_slice(), str_to_chars(f).as_slice()) {
                Ok(false)
            } else {
                Err(TopikError::EncodingMessage(flag_failure_message(t, f, s.as_str())))
            }
        },
    }
}

impl<R: BoolRepr> Encoding<bool> for BoolEncoding<R> {
    fn encode(value: &bool) -> (r: Result<Bytes, TopikError>)
        ensures
            r matches Ok(b) && bytes_content(b) == encode_utf8(
                if *value {
                    R::TRUE@
                } else {
                    R::FALSE@
                },
            ),
    {
        Ok(encode_flag(*value, R::TRUE, R::FALSE))
    }

    fn decode(bytes: Bytes) -> (r: Result<bool, TopikError>)
        ensures
            match r {
                Ok(v) => decode_flag(bytes_content(bytes), R::TRUE@, R::FALSE@) == Ok::<
                    bool,
                    ErrorView,
                >(v),
                Err(e) => decode_flag(bytes_content(bytes), R::TRUE@, R::FALSE@) == Err::<
                    bool,
                    ErrorView,
                >(e@),
            },
    {
        decode_flag_payload(bytes, R::TRUE, R::FALSE)
    }
}

/// What decoding a decimal integer payload for a type with range
/// `min..=max` gives: invalid UTF-8 and text that does not parse are
/// encoding failures carrying the reason.
pub open spec fn decode_integer(content: Seq<u8>, signed: bool, min: int, max: int) -> Result<
    int,
    ErrorView,
> {
    if !valid_utf8(content) {
        Err(ErrorView::Encoding(EncodingFailure::InvalidUtf8))
    } else {
        match parse_integer(decode_utf8(content), signed, min, max) {
            Ok(i) => Ok(i),
            Err(k) => Err(ErrorView::Encoding(EncodingFailure::InvalidInteger(k))),
        }
    }
}

/// The payload of the decimal text `digits`.
pub fn encode_decimal(digits: Vec<char>) -> (b: Bytes)
    ensures
        bytes_content(b) == encode_utf8(digits@),
{
    let s = chars_to_string(digits.as_slice());
    bytes_of_str(s.as_str())
}

/// Decodes a decimal integer payload for a type with range `min..=max`.
pub fn decode_integer_payload(bytes: Bytes, signed: bool, min: i128, max: i128) -> (r: Result<
    i128,
    TopikError,
>)
    requires
        -0x1_0000_0000_0000_0000 <= min <= 0 <= max <= 0x1_0000_0000_0000_0000,
    ensures
        match r {
            Ok(v) => decode_integer(bytes_content(bytes), signed, min as int, max as int) == Ok::<
                int,
                ErrorView,
            >(v as int) && min <= v <= max,
            Err(e) => decode_integer(bytes_content(bytes), signed, min as int, max as int)
                == Err::<int, ErrorView>(e@),
        },
{
    match payload_text(bytes) {
        None => Err(TopikError::Encoding(EncodingFailure::InvalidUtf8)),
        Some(s) => {
            let chars = str_to_chars(s.as_str());
            match parse_integer_chars(chars.as_slice(), signed, min, max) {
                Ok(v) => Ok(v),
                Err(k) => Err(TopikError::Encoding(EncodingFailure::InvalidInteger(k))),
            }
        },
    }
}

/// Decimal `u8` payload encoding.
pub struct U8Encoding;

/// Decimal `u16` payload encoding.
pub struct U16Encoding;

/// Decimal `u32` payload encoding.
pub struct U32Encoding;

/// Decimal `u64` payload encoding.
pub struct U64Encoding;

/// Decimal `i32` payload encoding.
pub struct I32Encoding;

/// Decimal `i64` payload encoding.
pub struct I64Encoding;

impl Encoding<u8> for U8Encoding {
    fn encode(value: &u8) -> (r: Result<Bytes, TopikError>)
        ensures
            r matches Ok(b) && bytes_content(b) == encode_utf8(signed_decimal(*value as int)),
    {
        Ok(encode_decimal(render_unsigned(*value as u64)))
    }

    fn decode(bytes: Bytes) -> (r: Result<u8, TopikError>)
        ensures
            match r {
                Ok(v) => decode_integer(bytes_content(bytes), false, 0, 0xff) == Ok::<
                    int,
                    ErrorView,
                >(v as int),
                Err(e) => decode_integer(bytes_content(bytes), false, 0, 0xff) == Err::<
                    int,
                    ErrorView,
                >(e@),
            },
    {
        match decode_integer_payload(bytes, false, 0, 0xff) {
            Ok(v) => Ok(v as u8),
            Err(e) => Err(e),
        }
    }
}

impl Encoding<u16> for U16Encoding {
    fn encode(value: &u16) -> (r: Result<Bytes, TopikError>)
        ensures
            r matches Ok(b) && bytes_content(b) == encode_utf8(signed_decimal(*value as int)),
    {
        Ok(encode_decimal(render_unsigned(*value as u64)))
    }

    fn decode(bytes: Bytes) -> (r: Result<u16, TopikError>)
        ensures
            match r {
                Ok(v) => decode_integer(bytes_content(bytes), false, 0, 0xffff) == Ok::<
                    int,
                    ErrorView,
                >(v as int),
                Err(e) => decode_integer(bytes_content(bytes), false, 0, 0xffff) == Err::<
                    int,
                    ErrorView,
                >(e@),
            },
    {
        match decode_integer_payload(bytes, false, 0, 0xffff) {
            Ok(v) => Ok(v as u16),
            Err(e) => Err(e),
        }
    }
}

impl Encoding<u32> for U32Encoding {
    fn encode(value: &u32) -> (r: Result<Bytes, TopikError>)
        ensures
            r matches Ok(b) && bytes_content(b) == encode_utf8(signed_decimal(*value as int)),
    {
        Ok(encode_decimal(render_unsigned(*value as u64)))
    }

    fn decode(bytes: Bytes) -> (r: Result<u32, TopikError>)
        ensures
            match r {
                Ok(v) => decode_integer(bytes_content(bytes), false, 0, 0xffff_ffff) == Ok::<
                    int,
                    ErrorView,
                >(v as int),
                Err(e) => decode_integer(bytes_content(bytes), false, 0, 0xffff_ffff) == Err::<
                    int,
                    ErrorView,
                >(e@),
            },
    {
        match decode_integer_payload(bytes, false, 0, 0xffff_ffff) {
            Ok(v) => Ok(v as u32),
            Err(e) => Err(e),
        }
    }
}

impl Encoding<u64> for U64Encoding {
    fn encode(value: &u64) -> (r: Result<Bytes, TopikError>)
        ensures
            r matches Ok(b) && bytes_content(b) == encode_utf8(signed_decimal(*value as int)),
    {
        Ok(encode_decimal(render_unsigned(*value)))
    }

    fn decode(bytes: Bytes) -> (r: Result<u64, TopikError>)
        ensures
            match r {
                Ok(v) => decode_integer(bytes_content(bytes), false, 0, 0xffff_ffff_ffff_ffff)
                    == Ok::<int, ErrorView>(v as int),
                Err(e) => decode_integer(bytes_content(bytes), false, 0, 0xffff_ffff_ffff_ffff)
                    == Err::<int, ErrorView>(e@),
            },
    {
        match decode_integer_payload(bytes, false, 0, 0xffff_ffff_ffff_ffff) {
            Ok(v) => Ok(v as u64),
            Err(e) => Err(e),
        }
    }
}

impl Encoding<i32> for I32Encoding {
    fn encode(value: &i32) -> (r: Result<Bytes, TopikError>)
        ensures
            r matches Ok(b) && bytes_content(b) == encode_utf8(signed_decimal(*value as int)),
    {
        Ok(encode_decimal(render_signed(*value as i64)))
    }

    fn decode(bytes: Bytes) -> (r: Result<i32, TopikError>)
        ensures
            match r {
                Ok(v) => decode_integer(bytes_content(bytes), true, -0x8000_0000, 0x7fff_ffff)
                    == Ok::<int, ErrorView>(v as int),
                Err(e) => decode_integer(bytes_content(bytes), true, -0x8000_0000, 0x7fff_ffff)
                    == Err::<int, ErrorView>(e@),
            },
    {
        match decode_integer_payload(bytes, true, -0x8000_0000, 0x7fff_ffff) {
            Ok(v) => Ok(v as i32),
            Err(e) => Err(e),
        }
    }
}

impl Encoding<i64> for I64Encoding {
    fn encode(value: &i64) -> (r: Result<Bytes, TopikError>)
        ensures
            r matches Ok(b) && bytes_content(b) == encode_utf8(signed_decimal(*value as int)),
    {
        Ok(encode_decimal(render_signed(*value)))
    }

    fn decode(bytes: Bytes) -> (r: Result<i64, TopikError>)
        ensures
            match r {
                Ok(v) => decode_integer(
                    bytes_content(bytes),
                    true,
                    -0x8000_0000_0000_0000,
                    0x7fff_ffff_ffff_ffff,
                ) == Ok::<int, ErrorView>(v as int),
                Err(e) => decode_integer(
                    bytes_content(bytes),
                    true,
                    -0x8000_0000_0000_0000,
                    0x7fff_ffff_ffff_ffff,
                ) == Err::<int, ErrorView>(e@),
            },
    {
        match decode_integer_payload(bytes, true, -0x8000_0000_0000_0000, 0x7fff_ffff_ffff_ffff) {
            Ok(v) => Ok(v as i64),
            Err(e) => Err(e),
        }
    }
}

/// Decoding the encoding of a decimal integer in range gives it back.
pub proof fn lemma_integer_payload_round_trip(v: int, signed: bool, min: int, max: int)
    requires
        min <= 0 <= max,
        min <= v <= max,
        v < 0 ==> signed,
    ensures
        decode_integer(encode_utf8(signed_decimal(v)), signed, min, max) == Ok::<int, ErrorView>(
            v,
        ),
{
    vstd::utf8::encode_utf8_valid_utf8(signed_decimal(v));
    vstd::utf8::encode_utf8_decode_utf8(signed_decimal(v));
    crate::decimal::lemma_parse_signed_decimal(v, signed, min, max);
}

/// Decoding the encoding of a string gives it back.
pub proof fn lemma_text_payload_round_trip(s: Seq<char>)
    ensures
        decode_text(encode_utf8(s)) == Ok::<Seq<char>, ErrorView>(s),
{
    vstd::utf8::encode_utf8_valid_utf8(s);
    vstd::utf8::encode_utf8_decode_utf8(s);
}

/// Decoding the encoding of a boolean gives it back when its two texts
/// differ.
pub proof fn lemma_flag_payload_round_trip(b: bool, t: Seq<char>, f: Seq<char>)
    requires
        t != f,
    ensures
        decode_flag(encode_utf8(if b { t } else { f }), t, f) == Ok::<bool, ErrorView>(b),
{
    lemma_text_payload_round_trip(if b { t } else { f });
}

} // verus!
