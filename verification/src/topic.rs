//! Topic definitions: an ordered list of literal and typed dynamic segments.
//! A definition renders a key (the values of its dynamic segments) as a
//! topic string, parses a topic string back into a key, and builds
//! subscription patterns with wildcards for the segments left open.
use vstd::prelude::*;
use crate::decimal::{parse_integer, signed_decimal, lemma_parse_integer_range};
use crate::error::{TopikError, ErrorView};
use crate::segments::{Segment, integer_failure_reason, flag_failure_reason, parse_flag_text, parse_flag};
use crate::uuid_text::{uuid_hyphenated, uuid_parse, uuid_error_text, render_uuid, parse_uuid};
use crate::text::{split, join, str_to_chars, chars_to_string, chars_eq, split_chars, join_chars, push_str};

verus! {

/// The type of a dynamic segment.
#[derive(Debug, PartialEq, Eq)]
pub enum FieldType {
    U8,
    U16,
    U32,
    U64,
    I32,
    I64,
    /// Any text (a `String` segment).
    Text,
    /// A boolean with the given texts for `true` and `false` (a
    /// `BoolSegment`).
    Flag { true_text: String, false_text: String },
    /// A UUID, in hyphenated lower-case text.
    Uuid,
}

impl FieldType {
    /// The boolean field type whose texts are given by `R`.
    pub fn flag<R: crate::segments::BoolRepr>() -> (t: Self)
        ensures
            t@ == (FieldSpec::Flag { true_text: R::TRUE@, false_text: R::FALSE@ }),
    {
        let mut true_text = String::new();
        push_str(&mut true_text, R::TRUE);
        let mut false_text = String::new();
        push_str(&mut false_text, R::FALSE);
        FieldType::Flag { true_text, false_text }
    }
}

/// The Rust integer type of an integer segment or payload.
pub enum IntWidth {
    U8,
    U16,
    U32,
    U64,
    I32,
    I64,
}

/// The mathematical model of a [`FieldType`].
pub enum FieldSpec {
    /// Integers of type `width`, in `min..=max`, named `name` in parse
    /// errors; `signed` types accept a leading `-`.
    Integer { width: IntWidth, signed: bool, min: int, max: int, name: Seq<char> },
    Text,
    Flag { true_text: Seq<char>, false_text: Seq<char> },
    Uuid,
}

impl View for FieldType {
    type V = FieldSpec;

    open spec fn view(&self) -> FieldSpec {
        match self {
            FieldType::U8 => FieldSpec::Integer {
                width: IntWidth::U8,
                signed: false,
                min: 0,
                max: 0xff,
                name: "u8"@,
            },
            FieldType::U16 => FieldSpec::Integer {
                width: IntWidth::U16,
                signed: false,
                min: 0,
                max: 0xffff,
                name: "u16"@,
            },
            FieldType::U32 => FieldSpec::Integer {
                width: IntWidth::U32,
                signed: false,
                min: 0,
                max: 0xffff_ffff,
                name: "u32"@,
            },
            FieldType::U64 => FieldSpec::Integer {
                width: IntWidth::U64,
                signed: false,
                min: 0,
                max: 0xffff_ffff_ffff_ffff,
                name: "u64"@,
            },
            FieldType::I32 => FieldSpec::Integer {
                width: IntWidth::I32,
                signed: true,
                min: -0x8000_0000,
                max: 0x7fff_ffff,
                name: "i32"@,
            },
            FieldType::I64 => FieldSpec::Integer {
                width: IntWidth::I64,
                signed: true,
                min: -0x8000_0000_0000_0000,
                max: 0x7fff_ffff_ffff_ffff,
                name: "i64"@,
            },
            FieldType::Text => FieldSpec::Text,
            FieldType::Flag { true_text, false_text } => FieldSpec::Flag {
                true_text: true_text@,
                false_text: false_text@,
            },
            FieldType::Uuid => FieldSpec::Uuid,
        }
    }
}

/// The value of a dynamic segment.
#[derive(Debug, PartialEq, Eq)]
pub enum SegmentValue {
    U8(u8),
    U16(u16),
    U32(u32),
    U64(u64),
    I32(i32),
    I64(i64),
    Text(String),
    Flag(bool),
    /// A UUID by its 128-bit big-endian value.
    Uuid(u128),
}

/// The mathematical model of a [`SegmentValue`].
pub enum ValueView {
    /// An integer with its Rust type.
    Int(IntWidth, int),
    Text(Seq<char>),
    Flag(bool),
    Uuid(u128),
}

impl View for SegmentValue {
    type V = ValueView;

    open spec fn view(&self) -> ValueView {
        match self {
            SegmentValue::U8(x) => ValueView::Int(IntWidth::U8, *x as int),
            SegmentValue::U16(x) => ValueView::Int(IntWidth::U16, *x as int),
            SegmentValue::U32(x) => ValueView::Int(IntWidth::U32, *x as int),
            SegmentValue::U64(x) => ValueView::Int(IntWidth::U64, *x as int),
            SegmentValue::I32(x) => ValueView::Int(IntWidth::I32, *x as int),
            SegmentValue::I64(x) => ValueView::Int(IntWidth::I64, *x as int),
            SegmentValue::Text(s) => ValueView::Text(s@),
            SegmentValue::Flag(b) => ValueView::Flag(*b),
            SegmentValue::Uuid(x) => ValueView::Uuid(*x),
        }
    }
}

/// One segment of a topic definition.
#[derive(Debug, PartialEq, Eq)]
pub enum TopicSegment {
    /// Fixed text.
    Literal(String),
    /// A typed value taken from the field `name`.
    Field { name: String, ty: FieldType },
}

/// The mathematical model of a [`TopicSegment`].
pub enum SegmentSpec {
    Literal(Seq<char>),
    Field { name: Seq<char>, ty: FieldSpec },
}

impl View for TopicSegment {
    type V = SegmentSpec;

    open spec fn view(&self) -> SegmentSpec {
        match self {
            TopicSegment::Literal(l) => SegmentSpec::Literal(l@),
            TopicSegment::Field { name, ty } => SegmentSpec::Field { name: name@, ty: ty@ },
        }
    }
}

pub open spec fn values_view(v: Seq<SegmentValue>) -> Seq<ValueView> {
    v.map_values(|x: SegmentValue| x@)
}

pub open spec fn segments_view(v: Seq<TopicSegment>) -> Seq<SegmentSpec> {
    v.map_values(|x: TopicSegment| x@)
}

/// Number of dynamic segments.
pub open spec fn field_count(segs: Seq<SegmentSpec>) -> nat
    decreases segs.len(),
{
    if segs.len() == 0 {
        0
    } else {
        field_count(segs.drop_last()) + if segs.last() is Field {
            1nat
        } else {
            0nat
        }
    }
}

/// Index, among the dynamic segments, of the segment at position `i`.
pub open spec fn field_index(segs: Seq<SegmentSpec>, i: int) -> nat {
    field_count(segs.take(i))
}

/// The value has the type of the field (an integer in range, a text, a
/// boolean).
pub open spec fn value_fits(ty: FieldSpec, v: ValueView) -> bool {
    match ty {
        FieldSpec::Integer { width, min, max, .. } => v matches ValueView::Int(w, i) && w == width
            && min <= i <= max,
        FieldSpec::Text => v is Text,
        FieldSpec::Flag { .. } => v is Flag,
        FieldSpec::Uuid => v is Uuid,
    }
}

/// The segment text of a value.
pub open spec fn value_text(ty: FieldSpec, v: ValueView) -> Seq<char> {
    match v {
        ValueView::Int(_, i) => signed_decimal(i),
        ValueView::Text(t) => t,
        ValueView::Flag(b) => match ty {
            FieldSpec::Flag { true_text, false_text } => if b {
                true_text
            } else {
                false_text
            },
            _ => Seq::<char>::empty(),
        },
        ValueView::Uuid(x) => uuid_hyphenated(x),
    }
}

/// `expected UUID, got '<text>': <error>`
pub open spec fn uuid_failure_reason(t: Seq<char>) -> Seq<char> {
    "expected UUID, got '"@ + t + "': "@ + uuid_error_text(t)
}

/// What parsing segment text `t` as a field of type `ty` gives.
pub open spec fn parse_value(ty: FieldSpec, t: Seq<char>) -> Result<ValueView, ErrorView> {
    match ty {
        FieldSpec::Integer { width, signed, min, max, name } => match parse_integer(
            t,
            signed,
            min,
            max,
        ) {
            Ok(i) => Ok(ValueView::Int(width, i)),
            Err(_) => Err(
                ErrorView::ParseError { topic: t, reason: integer_failure_reason(name, t) },
            ),
        },
        FieldSpec::Text => Ok(ValueView::Text(t)),
        FieldSpec::Flag { true_text, false_text } => match parse_flag_text(
            t,
            true_text,
            false_text,
        ) {
            Some(b) => Ok(ValueView::Flag(b)),
            None => Err(
                ErrorView::ParseError {
                    topic: t,
                    reason: flag_failure_reason(true_text, false_text, t),
                },
            ),
        },
        FieldSpec::Uuid => match uuid_parse(t) {
            Some(x) => Ok(ValueView::Uuid(x)),
            None => Err(ErrorView::ParseError { topic: t, reason: uuid_failure_reason(t) }),
        },
    }
}

/// The values fit the dynamic segments of `segs`, one value per dynamic
/// segment, in order.
pub open spec fn values_fit(segs: Seq<SegmentSpec>, vals: Seq<ValueView>) -> bool {
    &&& vals.len() == field_count(segs)
    &&& forall|i: int|
        #![trigger segs[i]]
        0 <= i < segs.len() ==> (segs[i] matches SegmentSpec::Field { ty, .. } ==> value_fits(
            ty,
            vals[field_index(segs, i) as int],
        ))
}

/// The segment texts of the topic for the key `vals`.
pub open spec fn rendered_parts(segs: Seq<SegmentSpec>, vals: Seq<ValueView>) -> Seq<Seq<char>> {
    Seq::new(
        segs.len(),
        |i: int|
            match segs[i] {
                SegmentSpec::Literal(l) => l,
                SegmentSpec::Field { ty, .. } => value_text(ty, vals[field_index(segs, i) as int]),
            },
    )
}

/// The topic string for the key `vals`.
pub open spec fn render_topic(segs: Seq<SegmentSpec>, vals: Seq<ValueView>, sep: char) -> Seq<
    char,
> {
    join(rendered_parts(segs, vals), sep)
}

/// The segments of a subscription pattern: literals as they are; the
/// dynamic segment at position `i` is the text of `pins[i]` where that holds
/// a value, and `single` elsewhere.
pub open spec fn pattern_parts(
    segs: Seq<SegmentSpec>,
    pins: Seq<Option<ValueView>>,
    single: Seq<char>,
) -> Seq<Seq<char>> {
    Seq::new(
        segs.len(),
        |i: int|
            match segs[i] {
                SegmentSpec::Literal(l) => l,
                SegmentSpec::Field { ty, .. } => match pins[i] {
                    Some(v) => value_text(ty, v),
                    None => single,
                },
            },
    )
}

/// No segment pinned.
pub open spec fn no_pins(n: nat) -> Seq<Option<ValueView>> {
    Seq::new(n, |i: int| None)
}

/// The pattern with every dynamic segment replaced by `single`.
pub open spec fn wildcard_topic(segs: Seq<SegmentSpec>, sep: char, single: Seq<char>) -> Seq<char> {
    join(pattern_parts(segs, no_pins(segs.len()), single), sep)
}

/// The pins agree with the key: every pinned dynamic segment is pinned to
/// the key's value for it.
pub open spec fn pins_agree(
    segs: Seq<SegmentSpec>,
    pins: Seq<Option<ValueView>>,
    vals: Seq<ValueView>,
) -> bool {
    &&& pins.len() == segs.len()
    &&& forall|i: int|
        #![trigger pins[i]]
        0 <= i < segs.len() && segs[i] is Field && pins[i] is Some ==> pins[i] == Some(
            vals[field_index(segs, i) as int],
        )
}

/// Prepends known values to a parse result.
pub open spec fn prepend(vals: Seq<ValueView>, r: Result<Seq<ValueView>, ErrorView>) -> Result<
    Seq<ValueView>,
    ErrorView,
> {
    match r {
        Ok(rest) => Ok(vals + rest),
        Err(e) => Err(e),
    }
}

/// The reason given when a topic has more segments than its definition.
pub open spec fn trailing_reason() -> Seq<char> {
    "too many segments"@
}

/// Parses the topic segments `parts` from position `i` on: the first
/// position that is missing, holds another literal, or does not parse as its
/// field decides the error; a topic longer than the definition is refused
/// once every defined segment has been read.
pub open spec fn parse_from(
    segs: Seq<SegmentSpec>,
    parts: Seq<Seq<char>>,
    topic: Seq<char>,
    i: nat,
) -> Result<Seq<ValueView>, ErrorView>
    decreases segs.len() - i,
{
    if i >= segs.len() {
        if parts.len() > segs.len() {
            Err(ErrorView::ParseError { topic: topic, reason: trailing_reason() })
        } else {
            Ok(Seq::<ValueView>::empty())
        }
    } else if i >= parts.len() {
        Err(ErrorView::MissingSegment { position: i, topic: topic })
    } else {
        match segs[i as int] {
            SegmentSpec::Literal(l) => if parts[i as int] == l {
                parse_from(segs, parts, topic, i + 1)
            } else {
                Err(
                    ErrorView::LiteralMismatch {
                        position: i,
                        expected: l,
                        got: parts[i as int],
                    },
                )
            },
            SegmentSpec::Field { ty, .. } => match parse_value(ty, parts[i as int]) {
                Ok(v) => prepend(seq![v], parse_from(segs, parts, topic, i + 1)),
                Err(e) => Err(e),
            },
        }
    }
}

/// What parsing `topic` against the definition gives.
pub open spec fn parse_topic(segs: Seq<SegmentSpec>, topic: Seq<char>, sep: char) -> Result<
    Seq<ValueView>,
    ErrorView,
> {
    parse_from(segs, split(topic, sep), topic, 0)
}

/// Moving one position on adds one dynamic segment exactly when the
/// segment passed is dynamic.
pub proof fn lemma_field_index_step(segs: Seq<SegmentSpec>, i: int)
    requires
        0 <= i < segs.len(),
    ensures
        field_index(segs, i + 1) == field_index(segs, i) + if segs[i] is Field {
            1nat
        } else {
            0nat
        },
{
    assert(segs.take(i + 1).drop_last() =~= segs.take(i));
    assert(segs.take(i + 1).last() == segs[i]);
}

/// There are no more dynamic segments than segments.
pub proof fn lemma_field_count_bound(segs: Seq<SegmentSpec>)
    ensures
        field_count(segs) <= segs.len(),
    decreases segs.len(),
{
    if segs.len() > 0 {
        lemma_field_count_bound(segs.drop_last());
    }
}

/// Past the last position, every dynamic segment has been counted.
pub proof fn lemma_field_index_full(segs: Seq<SegmentSpec>)
    ensures
        field_index(segs, segs.len() as int) == field_count(segs),
{
    assert(segs.take(segs.len() as int) =~= segs);
}

/// Renders the text of one dynamic segment value.
fn render_value(ty: &FieldType, v: &SegmentValue) -> (s: Vec<char>)
    ensures
        s@ == value_text(ty@, v@),
{
    match v {
        SegmentValue::U8(x) => str_to_chars(x.render().as_str()),
        SegmentValue::U16(x) => str_to_chars(x.render().as_str()),
        SegmentValue::U32(x) => str_to_chars(x.render().as_str()),
        SegmentValue::U64(x) => str_to_chars(x.render().as_str()),
        SegmentValue::I32(x) => str_to_chars(x.render().as_str()),
        SegmentValue::I64(x) => str_to_chars(x.render().as_str()),
        SegmentValue::Text(t) => str_to_chars(t.as_str()),
        SegmentValue::Flag(b) => match ty {
            FieldType::Flag { true_text, false_text } => if *b {
                str_to_chars(true_text.as_str())
            } else {
                str_to_chars(false_text.as_str())
            },
            _ => Vec::new(),
        },
        SegmentValue::Uuid(x) => str_to_chars(render_uuid(*x).as_str()),
    }
}

/// Whether a value has the type of a field.
fn value_fits_exec(ty: &FieldType, v: &SegmentValue) -> (r: bool)
    ensures
        r == value_fits(ty@, v@),
{
    match ty {
        FieldType::U8 => matches!(v, SegmentValue::U8(_)),
        FieldType::U16 => matches!(v, SegmentValue::U16(_)),
        FieldType::U32 => matches!(v, SegmentValue::U32(_)),
        FieldType::U64 => matches!(v, SegmentValue::U64(_)),
        FieldType::I32 => matches!(v, SegmentValue::I32(_)),
        FieldType::I64 => matches!(v, SegmentValue::I64(_)),
        FieldType::Text => matches!(v, SegmentValue::Text(_)),
        FieldType::Flag { .. } => matches!(v, SegmentValue::Flag(_)),
        FieldType::Uuid => matches!(v, SegmentValue::Uuid(_)),
    }
}

/// Parses one segment text as a value of the field's type.
fn parse_value_chars(ty: &FieldType, t: &[char]) -> (r: Result<SegmentValue, TopikError>)
    ensures
        match r {
            Ok(v) => parse_value(ty@, t@) == Ok::<ValueView, ErrorView>(v@),
            Err(e) => parse_value(ty@, t@) == Err::<ValueView, ErrorView>(e@),
        },
{
    let text = chars_to_string(t);
    let s = text.as_str();
    proof {
        lemma_parse_integer_range(t@, false, 0, 0xff);
        lemma_parse_integer_range(t@, false, 0, 0xffff);
        lemma_parse_integer_range(t@, false, 0, 0xffff_ffff);
        lemma_parse_integer_range(t@, false, 0, 0xffff_ffff_ffff_ffff);
        lemma_parse_integer_range(t@, true, -0x8000_0000, 0x7fff_ffff);
        lemma_parse_integer_range(t@, true, -0x8000_0000_0000_0000, 0x7fff_ffff_ffff_ffff);
    }
    match ty {
        FieldType::U8 => match <u8 as Segment>::parse(s) {
            Ok(v) => Ok(SegmentValue::U8(v)),
            Err(e) => Err(e),
        },
        FieldType::U16 => match <u16 as Segment>::parse(s) {
            Ok(v) => Ok(SegmentValue::U16(v)),
            Err(e) => Err(e),
        },
        FieldType::U32 => match <u32 as Segment>::parse(s) {
            Ok(v) => Ok(SegmentValue::U32(v)),
            Err(e) => Err(e),
        },
        FieldType::U64 => match <u64 as Segment>::parse(s) {
            Ok(v) => Ok(SegmentValue::U64(v)),
            Err(e) => Err(e),
        },
        FieldType::I32 => match <i32 as Segment>::parse(s) {
            Ok(v) => Ok(SegmentValue::I32(v)),
            Err(e) => Err(e),
        },
        FieldType::I64 => match <i64 as Segment>::parse(s) {
            Ok(v) => Ok(SegmentValue::I64(v)),
            Err(e) => Err(e),
        },
        FieldType::Text => Ok(SegmentValue::Text(text)),
        FieldType::Flag { true_text, false_text } => match parse_flag(
            s,
            true_text.as_str(),
            false_text.as_str(),
        ) {
            Ok(b) => Ok(SegmentValue::Flag(b)),
            Err(e) => Err(e),
        },
        FieldType::Uuid => match parse_uuid(s) {
            Ok(x) => Ok(SegmentValue::Uuid(x)),
            Err(message) => {
                let mut reason = String::new();
                push_str(&mut reason, "expected UUID, got '");
                push_str(&mut reason, s);
                push_str(&mut reason, "': ");
                push_str(&mut reason, message.as_str());
                let mut topic = String::new();
                push_str(&mut topic, s);
                Err(TopikError::ParseError { topic, reason })
            },
        },
    }
}

pub open spec fn pins_view(p: Seq<Option<SegmentValue>>) -> Seq<Option<ValueView>> {
    p.map_values(
        |o: Option<SegmentValue>|
            match o {
                Some(v) => Some(v@),
                None => None,
            },
    )
}

impl Clone for FieldType {
    fn clone(&self) -> (c: Self)
        ensures
            c@ == self@,
    {
        match self {
            FieldType::U8 => FieldType::U8,
            FieldType::U16 => FieldType::U16,
            FieldType::U32 => FieldType::U32,
            FieldType::U64 => FieldType::U64,
            FieldType::I32 => FieldType::I32,
            FieldType::I64 => FieldType::I64,
            FieldType::Text => FieldType::Text,
            FieldType::Flag { true_text, false_text } => FieldType::Flag {
                true_text: true_text.clone(),
                false_text: false_text.clone(),
            },
            FieldType::Uuid => FieldType::Uuid,
        }
    }
}

impl Clone for SegmentValue {
    fn clone(&self) -> (c: Self)
        ensures
            c@ == self@,
    {
        match self {
            SegmentValue::U8(x) => SegmentValue::U8(*x),
            SegmentValue::U16(x) => SegmentValue::U16(*x),
            SegmentValue::U32(x) => SegmentValue::U32(*x),
            SegmentValue::U64(x) => SegmentValue::U64(*x),
            SegmentValue::I32(x) => SegmentValue::I32(*x),
            SegmentValue::I64(x) => SegmentValue::I64(*x),
            SegmentValue::Text(t) => SegmentValue::Text(t.clone()),
            SegmentValue::Flag(b) => SegmentValue::Flag(*b),
            SegmentValue::Uuid(x) => SegmentValue::Uuid(*x),
        }
    }
}

impl Clone for TopicSegment {
    fn clone(&self) -> (c: Self)
        ensures
            c@ == self@,
    {
        match self {
            TopicSegment::Literal(l) => TopicSegment::Literal(l.clone()),
            TopicSegment::Field { name, ty } => TopicSegment::Field {
                name: name.clone(),
                ty: ty.clone(),
            },
        }
    }
}

/// A copy of a list of segments.
pub fn copy_segments(segments: &Vec<TopicSegment>) -> (c: Vec<TopicSegment>)
    ensures
        segments_view(c@) == segments_view(segments@),
{
    let mut c: Vec<TopicSegment> = Vec::new();
    let mut i: usize = 0;
    while i < segments.len()
        invariant
            0 <= i <= segments@.len(),
            c@.len() == i,
            forall|j: int| 0 <= j < i ==> #[trigger] c@[j]@ == segments@[j]@,
        decreases segments@.len() - i,
    {
        c.push(segments[i].clone());
        i = i + 1;
    }
    assert(segments_view(c@) =~= segments_view(segments@));
    c
}

/// The pattern text for `segments` with the given pins.
pub fn build_pattern_text(
    segments: &Vec<TopicSegment>,
    pins: &Vec<Option<SegmentValue>>,
    sep: char,
    single: &str,
) -> (s: String)
    requires
        pins@.len() == segments@.len(),
    ensures
        s@ == join(pattern_parts(segments_view(segments@), pins_view(pins@), single@), sep),
{
    let ghost segs = segments_view(segments@);
    let ghost pv = pins_view(pins@);
    let ghost want = pattern_parts(segs, pv, single@);
    let mut parts: Vec<Vec<char>> = Vec::new();
    let mut i: usize = 0;
    while i < segments.len()
        invariant
            segs == segments_view(segments@),
            pv == pins_view(pins@),
            want == pattern_parts(segs, pv, single@),
            pins@.len() == segments@.len(),
            0 <= i <= segments@.len(),
            parts@.len() == i,
            forall|j: int| 0 <= j < i ==> #[trigger] parts@[j]@ == want[j],
        decreases segments@.len() - i,
    {
        assert(segs[i as int] == segments@[i as int]@);
        match &segments[i] {
            TopicSegment::Literal(l) => {
                parts.push(str_to_chars(l.as_str()));
            },
            TopicSegment::Field { ty, .. } => {
                match &pins[i] {
                    Some(v) => {
                        parts.push(render_value(ty, v));
                    },
                    None => {
                        parts.push(str_to_chars(single));
                    },
                }
            },
        }
        i = i + 1;
    }
    assert(parts@.map_values(|p: Vec<char>| p@) =~= want);
    join_chars(&parts, sep)
}

/// One `None` per segment.
pub fn unpinned(n: usize) -> (pins: Vec<Option<SegmentValue>>)
    ensures
        pins_view(pins@) == no_pins(n as nat),
        pins@.len() == n,
{
    let mut pins: Vec<Option<SegmentValue>> = Vec::new();
    let mut i: usize = 0;
    while i < n
        invariant
            0 <= i <= n,
            pins@.len() == i,
            forall|j: int| 0 <= j < i ==> #[trigger] pins@[j] is None,
        decreases n - i,
    {
        pins.push(None);
        i = i + 1;
    }
    assert(pins_view(pins@) =~= no_pins(n as nat));
    pins
}

/// A topic definition: its name and its ordered segments.
pub struct TopicSchema {
    name: String,
    segments: Vec<TopicSegment>,
}

impl Clone for TopicSchema {
    fn clone(&self) -> (c: Self)
        ensures
            c.spec_name() == self.spec_name(),
            c.spec_segments() == self.spec_segments(),
    {
        TopicSchema { name: self.name.clone(), segments: copy_segments(&self.segments) }
    }
}

impl TopicSchema {
    /// The mathematical model of the segments.
    pub closed spec fn spec_segments(&self) -> Seq<SegmentSpec> {
        segments_view(self.segments@)
    }

    /// The definition's name.
    pub closed spec fn spec_name(&self) -> Seq<char> {
        self.name@
    }

    /// A definition named `name` with the given segments.
    pub fn new(name: String, segments: Vec<TopicSegment>) -> (s: Self)
        ensures
            s.spec_name() == name@,
            s.spec_segments() == segments_view(segments@),
    {
        TopicSchema { name, segments }
    }

    /// The definition's name (the `NAME` of a derived topic).
    pub fn name(&self) -> (n: &str)
        ensures
            n@ == self.spec_name(),
    {
        self.name.as_str()
    }

    /// Number of segments.
    pub fn len(&self) -> (n: usize)
        ensures
            n == self.spec_segments().len(),
    {
        self.segments.len()
    }

    /// The segments (literal and dynamic) in order.
    pub fn segments(&self) -> (s: &Vec<TopicSegment>)
        ensures
            segments_view(s@) == self.spec_segments(),
    {
        &self.segments
    }

    /// The subscription pattern with every dynamic segment replaced by the
    /// single-level wildcard (`multi` is not used: no segment of a definition
    /// spans several levels).
    pub fn wildcard_pattern(&self, sep: char, single: &str, multi: &str) -> (s: String)
        ensures
            s@ == wildcard_topic(self.spec_segments(), sep, single@),
    {
        let pins = unpinned(self.segments.len());
        build_pattern_text(&self.segments, &pins, sep, single)
    }

    /// Whether `values` is a key of this definition: one value per dynamic
    /// segment, in order, each of the segment's type.
    pub fn accepts_key(&self, values: &Vec<SegmentValue>) -> (r: bool)
        ensures
            r == values_fit(self.spec_segments(), values_view(values@)),
    {
        let ghost segs = self.spec_segments();
        let ghost vals = values_view(values@);
        let mut i: usize = 0;
        let mut k: usize = 0;
        while i < self.segments.len()
            invariant
                segs == self.spec_segments(),
                vals == values_view(values@),
                segs.len() == self.segments@.len(),
                0 <= i <= segs.len(),
                k == field_index(segs, i as int),
                forall|j: int|
                    #![trigger segs[j]]
                    0 <= j < i ==> (segs[j] matches SegmentSpec::Field { ty, .. } ==> (
                    field_index(segs, j) < vals.len() && value_fits(
                        ty,
                        vals[field_index(segs, j) as int],
                    ))),
            decreases segs.len() - i,
        {
            proof {
                lemma_field_index_step(segs, i as int);
                lemma_field_count_bound(segs.take(i as int));
            }
            assert(segs[i as int] == self.segments@[i as int]@);
            if let TopicSegment::Field { ty, .. } = &self.segments[i] {
                if k >= values.len() || !value_fits_exec(ty, &values[k]) {
                    proof {
                        lemma_field_index_monotone(segs, i as int + 1, segs.len() as int);
                        lemma_field_index_full(segs);
                        if values_fit(segs, vals) {
                            assert(segs[i as int] matches SegmentSpec::Field { .. });
                        }
                    }
                    return false;
                }
                k = k + 1;
            }
            i = i + 1;
        }
        proof {
            lemma_field_index_full(segs);
        }
        k == values.len()
    }

    /// Renders the topic string of the key `values` with separator `sep`.
    pub fn render(&self, values: &Vec<SegmentValue>, sep: char) -> (s: String)
        requires
            values_fit(self.spec_segments(), values_view(values@)),
        ensures
            s@ == render_topic(self.spec_segments(), values_view(values@), sep),
    {
        let ghost segs = self.spec_segments();
        let ghost vals = values_view(values@);
        let mut parts: Vec<Vec<char>> = Vec::new();
        let mut i: usize = 0;
        let mut k: usize = 0;
        while i < self.segments.len()
            invariant
                segs == self.spec_segments(),
                vals == values_view(values@),
                values_fit(segs, vals),
                0 <= i <= segs.len(),
                segs.len() == self.segments@.len(),
                k == field_index(segs, i as int),
                parts@.len() == i,
                forall|j: int|
                    0 <= j < i ==> #[trigger] parts@[j]@ == rendered_parts(segs, vals)[j],
            decreases segs.len() - i,
        {
            proof {
                lemma_field_index_step(segs, i as int);
            }
            assert(segs[i as int] == self.segments@[i as int]@);
            match &self.segments[i] {
                TopicSegment::Literal(l) => {
                    parts.push(str_to_chars(l.as_str()));
                },
                TopicSegment::Field { ty, .. } => {
                    proof {
                        assert(field_index(segs, i as int) < field_count(segs)) by {
                            lemma_field_index_monotone(segs, i as int + 1, segs.len() as int);
                            lemma_field_index_full(segs);
                        }
                        lemma_field_count_bound(segs.take(i as int));
                    }
                    parts.push(render_value(ty, &values[k]));
                    k = k + 1;
                },
            }
            i = i + 1;
        }
        assert(parts@.map_values(|p: Vec<char>| p@) =~= rendered_parts(segs, vals));
        join_chars(&parts, sep)
    }

    /// Parses `topic` (split at `sep`) into the key of this definition.
    pub fn parse(&self, topic: &str, sep: char) -> (r: Result<Vec<SegmentValue>, TopikError>)
        ensures
            match r {
                Ok(v) => parse_topic(self.spec_segments(), topic@, sep) == Ok::<
                    Seq<ValueView>,
                    ErrorView,
                >(values_view(v@)),
                Err(e) => parse_topic(self.spec_segments(), topic@, sep) == Err::<
                    Seq<ValueView>,
                    ErrorView,
                >(e@),
            },
    {
        let ghost segs = self.spec_segments();
        let t = str_to_chars(topic);
        let parts = split_chars(t.as_slice(), sep);
        let ghost pv = parts@.map_values(|p: Vec<char>| p@);
        let ghost full = parse_topic(segs, topic@, sep);
        let mut out: Vec<SegmentValue> = Vec::new();
        let mut i: usize = 0;
        while i < self.segments.len()
            invariant
                segs == self.spec_segments(),
                segs.len() == self.segments@.len(),
                pv == parts@.map_values(|p: Vec<char>| p@),
                pv == split(topic@, sep),
                full == parse_topic(segs, topic@, sep),
                0 <= i <= segs.len(),
                full == prepend(values_view(out@), parse_from(segs, pv, topic@, i as nat)),
            decreases segs.len() - i,
        {
            assert(segs[i as int] == self.segments@[i as int]@);
            if i >= parts.len() {
                let mut topic_text = String::new();
                push_str(&mut topic_text, topic);
                return Err(TopikError::MissingSegment { position: i, topic: topic_text });
            }
            assert(pv[i as int] == parts@[i as int]@);
            match &self.segments[i] {
                TopicSegment::Literal(l) => {
                    if !chars_eq(parts[i].as_slice(), str_to_chars(l.as_str()).as_slice()) {
                        return Err(
                            TopikError::LiteralMismatch {
                                position: i,
                                expected: l.clone(),
                                got: chars_to_string(parts[i].as_slice()),
                            },
                        );
                    }
                },
                TopicSegment::Field { ty, .. } => {
                    match parse_value_chars(ty, parts[i].as_slice()) {
                        Ok(v) => {
                            let ghost before = values_view(out@);
                            out.push(v);
                            proof {
                                lemma_prepend_assoc(
                                    before,
                                    seq![v@],
                                    parse_from(segs, pv, topic@, (i + 1) as nat),
                                );
                                assert(values_view(out@) =~= before + seq![v@]);
                            }
                        },
                        Err(e) => {
                            return Err(e);
                        },
                    }
                },
            }
            i = i + 1;
        }
        if parts.len() > self.segments.len() {
            let mut topic_text = String::new();
            push_str(&mut topic_text, topic);
            let mut reason = String::new();
            push_str(&mut reason, "too many segments");
            return Err(TopikError::ParseError { topic: topic_text, reason });
        }
        assert(values_view(out@) + Seq::<ValueView>::empty() =~= values_view(out@));
        Ok(out)
    }
}

proof fn lemma_prepend_assoc(
    a: Seq<ValueView>,
    b: Seq<ValueView>,
    r: Result<Seq<ValueView>, ErrorView>,
)
    ensures
        prepend(a, prepend(b, r)) == prepend(a + b, r),
{
    if let Ok(rest) = r {
        assert(a + (b + rest) =~= (a + b) + rest);
    }
}

/// Dynamic segments before a position are no more than those before a later
/// one.
pub proof fn lemma_field_index_monotone(segs: Seq<SegmentSpec>, i: int, j: int)
    requires
        0 <= i <= j <= segs.len(),
    ensures
        field_index(segs, i) <= field_index(segs, j),
    decreases j - i,
{
    if i < j {
        lemma_field_index_monotone(segs, i, j - 1);
        lemma_field_index_step(segs, j - 1);
    }
}

} // verus!
