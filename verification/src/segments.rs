//! Values that appear as segments of a topic path: integers, strings and
//! booleans with a configurable text representation.
use vstd::prelude::*;
use crate::decimal::{
    parse_integer, signed_decimal, parse_integer_chars, render_unsigned, render_signed,
    lemma_parse_signed_decimal,
};
use crate::error::{TopikError, ErrorView};
use crate::text::{str_to_chars, chars_to_string, push_str};

verus! {

/// Trait for types that can appear as segments in a topic path.
///
/// `render` gives the segment text of a value and `parse` reads it back; a
/// text that does not parse is reported as [`TopikError::ParseError`] naming
/// the segment text and the expected form.
pub trait Segment: Sized + View {
    /// The segment text of a value.
    spec fn text_of(v: Self::V) -> Seq<char>;

    /// The value a segment text stands for, if any.
    spec fn parse_text(t: Seq<char>) -> Option<Self::V>;

    /// The reason given when `t` does not parse.
    spec fn failure_reason(t: Seq<char>) -> Seq<char>;

    /// Render this value as a topic segment string.
    fn render(&self) -> (s: String)
        ensures
            s@ == Self::text_of(self@),
    ;

    /// Parse a topic segment string back into this type.
    fn parse(s: &str) -> (r: Result<Self, TopikError>)
        ensures
            match r {
                Ok(v) => Self::parse_text(s@) == Some(v@),
                Err(e) => Self::parse_text(s@) is None && e@ == (ErrorView::ParseError {
                    topic: s@,
                    reason: Self::failure_reason(s@),
                }),
            },
    ;
}

/// `expected <type>, got '<text>'`
pub open spec fn integer_failure_reason(kind_name: Seq<char>, t: Seq<char>) -> Seq<char> {
    "expected "@ + kind_name + ", got '"@ + t + "'"@
}

/// The integer a segment text stands for in `min..=max`.
pub open spec fn parse_integer_text(t: Seq<char>, signed: bool, min: int, max: int) -> Option<int> {
    match parse_integer(t, signed, min, max) {
        Ok(v) => Some(v),
        Err(_) => None,
    }
}

/// Builds the parse error for an integer segment.
fn integer_segment_error(s: &str, kind_name: &str) -> (e: TopikError)
    ensures
        e@ == (ErrorView::ParseError { topic: s@, reason: integer_failure_reason(kind_name@, s@) }),
{
    let mut reason = String::new();
    push_str(&mut reason, "expected ");
    push_str(&mut reason, kind_name);
    push_str(&mut reason, ", got '");
    push_str(&mut reason, s);
    push_str(&mut reason, "'");
    let mut topic = String::new();
    push_str(&mut topic, s);
    TopikError::ParseError { topic, reason }
}

impl Segment for u8 {
    open spec fn text_of(v: u8) -> Seq<char> {
        signed_decimal(v as int)
    }

    open spec fn parse_text(t: Seq<char>) -> Option<u8> {
        match parse_integer_text(t, false, 0, 0xff) {
            Some(v) => Some(v as u8),
            None => None,
        }
    }

    open spec fn failure_reason(t: Seq<char>) -> Seq<char> {
        integer_failure_reason("u8"@, t)
    }

    fn render(&self) -> (s: String) {
        chars_to_string(render_unsigned(*self as u64).as_slice())
    }

    fn parse(s: &str) -> (r: Result<u8, TopikError>) {
        let chars = str_to_chars(s);
        match parse_integer_chars(chars.as_slice(), false, 0, 0xff) {
            Ok(v) => Ok(v as u8),
            Err(_) => Err(integer_segment_error(s, "u8")),
        }
    }
}

impl Segment for u16 {
    open spec fn text_of(v: u16) -> Seq<char> {
        signed_decimal(v as int)
    }

    open spec fn parse_text(t: Seq<char>) -> Option<u16> {
        match parse_integer_text(t, false, 0, 0xffff) {
            Some(v) => Some(v as u16),
            None => None,
        }
    }

    open spec fn failure_reason(t: Seq<char>) -> Seq<char> {
        integer_failure_reason("u16"@, t)
    }

    fn render(&self) -> (s: String) {
        chars_to_string(render_unsigned(*self as u64).as_slice())
    }

    fn parse(s: &str) -> (r: Result<u16, TopikError>) {
        let chars = str_to_chars(s);
        match parse_integer_chars(chars.as_slice(), false, 0, 0xffff) {
            Ok(v) => Ok(v as u16),
            Err(_) => Err(integer_segment_error(s, "u16")),
        }
    }
}

impl Segment for u32 {
    open spec fn text_of(v: u32) -> Seq<char> {
        signed_decimal(v as int)
    }

    open spec fn parse_text(t: Seq<char>) -> Option<u32> {
        match parse_integer_text(t, false, 0, 0xffff_ffff) {
            Some(v) => Some(v as u32),
            None => None,
        }
    }

    open spec fn failure_reason(t: Seq<char>) -> Seq<char> {
        integer_failure_reason("u32"@, t)
    }

    fn render(&self) -> (s: String) {
        chars_to_string(render_unsigned(*self as u64).as_slice())
    }

    fn parse(s: &str) -> (r: Result<u32, TopikError>) {
        let chars = str_to_chars(s);
        match parse_integer_chars(chars.as_slice(), false, 0, 0xffff_ffff) {
            Ok(v) => Ok(v as u32),
            Err(_) => Err(integer_segment_error(s, "u32")),
        }
    }
}

impl Segment for u64 {
    open spec fn text_of(v: u64) -> Seq<char> {
        signed_decimal(v as int)
    }

    open spec fn parse_text(t: Seq<char>) -> Option<u64> {
        match parse_integer_text(t, false, 0, 0xffff_ffff_ffff_ffff) {
            Some(v) => Some(v as u64),
            None => None,
        }
    }

    open spec fn failure_reason(t: Seq<char>) -> Seq<char> {
        integer_failure_reason("u64"@, t)
    }

    fn render(&self) -> (s: String) {
        chars_to_string(render_unsigned(*self).as_slice())
    }

    fn parse(s: &str) -> (r: Result<u64, TopikError>) {
        let chars = str_to_chars(s);
        match parse_integer_chars(chars.as_slice(), false, 0, 0xffff_ffff_ffff_ffff) {
            Ok(v) => Ok(v as u64),
            Err(_) => Err(integer_segment_error(s, "u64")),
        }
    }
}

impl Segment for i32 {
    open spec fn text_of(v: i32) -> Seq<char> {
        signed_decimal(v as int)
    }

    open spec fn parse_text(t: Seq<char>) -> Option<i32> {
        match parse_integer_text(t, true, -0x8000_0000, 0x7fff_ffff) {
            Some(v) => Some(v as i32),
            None => None,
        }
    }

    open spec fn failure_reason(t: Seq<char>) -> Seq<char> {
        integer_failure_reason("i32"@, t)
    }

    fn render(&self) -> (s: String) {
        chars_to_string(render_signed(*self as i64).as_slice())
    }

    fn parse(s: &str) -> (r: Result<i32, TopikError>) {
        let chars = str_to_chars(s);
        match parse_integer_chars(chars.as_slice(), true, -0x8000_0000, 0x7fff_ffff) {
            Ok(v) => Ok(v as i32),
            Err(_) => Err(integer_segment_error(s, "i32")),
        }
    }
}

impl Segment for i64 {
    open spec fn text_of(v: i64) -> Seq<char> {
        signed_decimal(v as int)
    }

    open spec fn parse_text(t: Seq<char>) -> Option<i64> {
        match parse_integer_text(t, true, -0x8000_0000_0000_0000, 0x7fff_ffff_ffff_ffff) {
            Some(v) => Some(v as i64),
            None => None,
        }
    }

    open spec fn failure_reason(t: Seq<char>) -> Seq<char> {
        integer_failure_reason("i64"@, t)
    }

    fn render(&self) -> (s: String) {
        chars_to_string(render_signed(*self).as_slice())
    }

    fn parse(s: &str) -> (r: Result<i64, TopikError>) {
        let chars = str_to_chars(s);
        match parse_integer_chars(
            chars.as_slice(),
            true,
            -0x8000_0000_0000_0000,
            0x7fff_ffff_ffff_ffff,
        ) {
            Ok(v) => Ok(v as i64),
            Err(_) => Err(integer_segment_error(s, "i64")),
        }
    }
}

impl Segment for String {
    open spec fn text_of(v: Seq<char>) -> Seq<char> {
        v
    }

    open spec fn parse_text(t: Seq<char>) -> Option<Seq<char>> {
        Some(t)
    }

    open spec fn failure_reason(t: Seq<char>) -> Seq<char> {
        Seq::<char>::empty()
    }

    fn render(&self) -> (s: String) {
        self.clone()
    }

    fn parse(s: &str) -> (r: Result<String, TopikError>) {
        let mut v = String::new();
        push_str(&mut v, s);
        Ok(v)
    }
}

/// Defines the string representation of a boolean topic segment (or payload).
///
/// Implement this on a unit struct to define which strings stand for `true`
/// and `false`, e.g. for legacy systems with non-standard booleans.
pub trait BoolRepr {
    const TRUE: &'static str;
    const FALSE: &'static str;
}

/// `expected '<true>' or '<false>', got '<text>'`
pub open spec fn flag_failure_reason(t_text: Seq<char>, f_text: Seq<char>, got: Seq<char>) -> Seq<
    char,
> {
    "expected '"@ + t_text + "' or '"@ + f_text + "', got '"@ + got + "'"@
}

/// The boolean a text stands for: the true text first, then the false text.
pub open spec fn parse_flag_text(t: Seq<char>, t_text: Seq<char>, f_text: Seq<char>) -> Option<
    bool,
> {
    if t == t_text {
        Some(true)
    } else if t == f_text {
        Some(false)
    } else {
        None
    }
}

/// Builds `expected '<true>' or '<false>', got '<text>'`.
pub fn flag_failure_message(t_text: &str, f_text: &str, got: &str) -> (m: String)
    ensures
        m@ == flag_failure_reason(t_text@, f_text@, got@),
{
    let mut m = String::new();
    push_str(&mut m, "expected '");
    push_str(&mut m, t_text);
    push_str(&mut m, "' or '");
    push_str(&mut m, f_text);
    push_str(&mut m, "', got '");
    push_str(&mut m, got);
    push_str(&mut m, "'");
    m
}

/// Parses a boolean segment with texts `t_text` (true) and `f_text` (false).
pub fn parse_flag(s: &str, t_text: &str, f_text: &str) -> (r: Result<bool, TopikError>)
    ensures
        match r {
            Ok(b) => parse_flag_text(s@, t_text@, f_text@) == Some(b),
            Err(e) => parse_flag_text(s@, t_text@, f_text@) is None && e@ == (ErrorView::ParseError {
                topic: s@,
                reason: flag_failure_reason(t_text@, f_text@, s@),
            }),
        },
{
    let text = str_to_chars(s);
    if crate::text::chars_eq(text.as_slice(), str_to_chars(t_text).as_slice()) {
        Ok(true)
    } else if crate::text::chars_eq(text.as_slice(), str_to_chars(f_text).as_slice()) {
        Ok(false)
    } else {
        let mut topic = String::new();
        push_str(&mut topic, s);
        Err(TopikError::ParseError { topic, reason: flag_failure_message(t_text, f_text, s) })
    }
}

/// A boolean topic segment whose text is given by a [`BoolRepr`].
#[derive(Debug)]
pub struct BoolSegment<R: BoolRepr>(bool, core::marker::PhantomData<R>);

impl<R: BoolRepr> View for BoolSegment<R> {
    type V = bool;

    closed spec fn view(&self) -> bool {
        self.0
    }
}

impl<R: BoolRepr> BoolSegment<R> {
    /// Returns the inner bool value.
    pub fn as_bool(&self) -> (b: bool)
        ensures
            b == self@,
    {
        self.0
    }
}

impl<R: BoolRepr> From<bool> for BoolSegment<R> {
    fn from(b: bool) -> (s: Self) {
        BoolSegment(b, core::marker::PhantomData)
    }
}

impl<R: BoolRepr> vstd::std_specs::convert::FromSpecImpl<bool> for BoolSegment<R> {
    open spec fn obeys_from_spec() -> bool {
        true
    }

    closed spec fn from_spec(b: bool) -> Self {
        BoolSegment(b, core::marker::PhantomData)
    }
}

impl<R: BoolRepr> BoolSegment<R> {
    /// The segment for `b` (what `From<bool>` builds).
    pub proof fn lemma_from_view(b: bool)
        ensures
            <BoolSegment<R> as vstd::std_specs::convert::FromSpec<bool>>::from_spec(b)@ == b,
    {
    }
}

impl<R: BoolRepr> Clone for BoolSegment<R> {
    fn clone(&self) -> (c: Self)
        ensures
            c@ == self@,
    {
        BoolSegment(self.0, core::marker::PhantomData)
    }
}

impl<R: BoolRepr> Segment for BoolSegment<R> {
    open spec fn text_of(v: bool) -> Seq<char> {
        if v {
            R::TRUE@
        } else {
            R::FALSE@
        }
    }

    open spec fn parse_text(t: Seq<char>) -> Option<bool> {
        parse_flag_text(t, R::TRUE@, R::FALSE@)
    }

    open spec fn failure_reason(t: Seq<char>) -> Seq<char> {
        flag_failure_reason(R::TRUE@, R::FALSE@, t)
    }

    fn render(&self) -> (s: String) {
        let mut s = String::new();
        if self.0 {
            push_str(&mut s, R::TRUE);
        } else {
            push_str(&mut s, R::FALSE);
        }
        s
    }

    fn parse(s: &str) -> (r: Result<Self, TopikError>) {
        match parse_flag(s, R::TRUE, R::FALSE) {
            Ok(b) => Ok(BoolSegment(b, core::marker::PhantomData)),
            Err(e) => Err(e),
        }
    }
}

/// Standard boolean representation: `"true"` / `"false"`.
#[derive(Debug)]
pub struct TrueFalse;

impl BoolRepr for TrueFalse {
    const TRUE: &'static str = "true";
    const FALSE: &'static str = "false";
}

impl TrueFalse {
    /// The texts: `"true"` for `true`, `"false"` for `false`.
    pub proof fn lemma_texts()
        ensures
            <TrueFalse as BoolRepr>::TRUE@ == "true"@,
            <TrueFalse as BoolRepr>::FALSE@ == "false"@,
    {
    }
}

/// Binary boolean representation: `"1"` / `"0"`, common in industrial and
/// legacy systems.
#[derive(Debug)]
pub struct OneZero;

impl BoolRepr for OneZero {
    const TRUE: &'static str = "1";
    const FALSE: &'static str = "0";
}

impl OneZero {
    /// The texts: `"1"` for `true`, `"0"` for `false`.
    pub proof fn lemma_texts()
        ensures
            <OneZero as BoolRepr>::TRUE@ == "1"@,
            <OneZero as BoolRepr>::FALSE@ == "0"@,
    {
    }
}

/// Yes/No boolean representation: `"yes"` / `"no"`.
#[derive(Debug)]
pub struct YesNo;

impl BoolRepr for YesNo {
    const TRUE: &'static str = "yes";
    const FALSE: &'static str = "no";
}

impl YesNo {
    /// The texts: `"yes"` for `true`, `"no"` for `false`.
    pub proof fn lemma_texts()
        ensures
            <YesNo as BoolRepr>::TRUE@ == "yes"@,
            <YesNo as BoolRepr>::FALSE@ == "no"@,
    {
    }
}


/// On/Off boolean representation: `"on"` / `"off"`, common in IoT and home
/// automation.
#[derive(Debug)]
pub struct OnOff;

impl BoolRepr for OnOff {
    const TRUE: &'static str = "on";
    const FALSE: &'static str = "off";
}

impl OnOff {
    /// The texts: `"on"` for `true`, `"off"` for `false`.
    pub proof fn lemma_texts()
        ensures
            <OnOff as BoolRepr>::TRUE@ == "on"@,
            <OnOff as BoolRepr>::FALSE@ == "off"@,
    {
    }
}

/// Boolean segment using `"true"` / `"false"`. The default choice.
pub type StandardBool = BoolSegment<TrueFalse>;

/// Boolean segment using `"1"` / `"0"`.
pub type BinaryBool = BoolSegment<OneZero>;

/// Boolean segment using `"yes"` / `"no"`.
pub type YesNoBool = BoolSegment<YesNo>;

/// Boolean segment using `"on"` / `"off"`.
pub type OnOffBool = BoolSegment<OnOff>;

/// Parsing the text of an integer segment gives the integer back.
pub proof fn lemma_integer_segment_round_trip(v: int, signed: bool, min: int, max: int)
    requires
        min <= 0 <= max,
        min <= v <= max,
        v < 0 ==> signed,
    ensures
        parse_integer_text(signed_decimal(v), signed, min, max) == Some(v),
{
    lemma_parse_signed_decimal(v, signed, min, max);
}

/// Parsing the rendered text of a `u64` segment gives the value back.
pub proof fn lemma_u64_segment_round_trip(v: u64)
    ensures
        <u64 as Segment>::parse_text(<u64 as Segment>::text_of(v)) == Some(v),
{
    lemma_parse_signed_decimal(v as int, false, 0, 0xffff_ffff_ffff_ffff);
}

/// Parsing the rendered text of an `i64` segment gives the value back.
pub proof fn lemma_i64_segment_round_trip(v: i64)
    ensures
        <i64 as Segment>::parse_text(<i64 as Segment>::text_of(v)) == Some(v),
{
    lemma_parse_signed_decimal(v as int, true, -0x8000_0000_0000_0000, 0x7fff_ffff_ffff_ffff);
}

/// A boolean segment reads back as itself when its two texts differ.
pub proof fn lemma_flag_round_trip(b: bool, t_text: Seq<char>, f_text: Seq<char>)
    requires
        t_text != f_text,
    ensures
        parse_flag_text(if b { t_text } else { f_text }, t_text, f_text) == Some(b),
{
}

} // verus!
