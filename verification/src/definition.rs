//! Checking a topic declaration (what `#[derive(Topic)]` reads from the
//! annotated struct): the `#[topic(segments(...), encoding = ...)]`
//! attributes, exactly one `#[payload]` field, and dynamic segments that name
//! real fields.
use vstd::prelude::*;
use crate::text::{str_to_chars, chars_eq, push_str};

verus! {

/// A token inside `segments(...)`.
#[derive(Debug)]
pub enum SegmentToken {
    /// A string literal, with its value.
    Literal(String),
    /// An identifier (a field name).
    Ident(String),
    /// A `,`.
    Comma,
    /// Any other token, as written.
    Other(String),
}

/// One item inside `#[topic(...)]`.
#[derive(Debug)]
pub enum TopicMeta {
    /// `segments(...)` with its tokens.
    Segments(Vec<SegmentToken>),
    /// `encoding = <path>`.
    Encoding(String),
    /// Any other item, with its name.
    Other(String),
}

/// An attribute on the struct: its path and, for `#[topic(...)]`, its items.
#[derive(Debug)]
pub struct Attribute {
    pub path: String,
    pub metas: Vec<TopicMeta>,
}

/// A field of the struct: its name (none for tuple fields), its type as
/// written, and the paths of its attributes.
#[derive(Debug)]
pub struct FieldDecl {
    pub name: Option<String>,
    pub ty: String,
    pub attrs: Vec<String>,
}

/// The shape of the item the derive is applied to.
#[derive(Debug)]
pub enum DeriveData {
    /// A struct with named fields.
    NamedStruct(Vec<FieldDecl>),
    /// A tuple or unit struct.
    OtherStruct,
    /// An enum or a union.
    NotStruct,
}

/// The item the derive is applied to.
#[derive(Debug)]
pub struct DeriveInput {
    pub name: String,
    pub attrs: Vec<Attribute>,
    pub data: DeriveData,
}

/// A single entry in `segments(...)`.
#[derive(Debug)]
pub enum SegmentKind {
    Literal(String),
    Dynamic(String),
}

/// The field marked `#[payload]`.
#[derive(Debug)]
pub struct PayloadField {
    pub name: String,
    pub ty: String,
}

/// A non-payload field.
#[derive(Debug)]
pub struct TopicField {
    pub name: String,
    pub ty: String,
}

/// A checked topic declaration.
#[derive(Debug)]
pub struct TopicInput {
    pub name: String,
    /// Ordered list of segments from `#[topic(segments(...))]`.
    pub segments: Vec<SegmentKind>,
    pub payload: PayloadField,
    /// The encoding path from `#[topic(encoding = ...)]`, if given.
    pub encoding: Option<String>,
    /// All non-payload fields, in order.
    pub fields: Vec<TopicField>,
}

/// Why a topic declaration is refused.
#[derive(Debug, PartialEq, Eq)]
pub enum DefinitionError {
    /// A struct without named fields.
    NotNamedStruct,
    /// Not a struct.
    NotStruct,
    /// No `#[topic(segments(...))]`.
    MissingSegments,
    /// A field without a name.
    UnnamedField,
    /// A second `#[payload]` field.
    DuplicatePayload,
    /// No `#[payload]` field.
    MissingPayload,
    /// A dynamic segment that names no non-payload field.
    UnknownSegmentField(String),
    /// An item of `#[topic(...)]` other than `segments` and `encoding`.
    UnknownAttribute,
    /// A token in `segments(...)` that is neither a literal nor a name.
    UnexpectedSegmentToken,
    /// `segments()` with nothing in it.
    EmptySegments,
}

// ----- mathematical model -----

pub enum TokenView {
    Literal(Seq<char>),
    Ident(Seq<char>),
    Comma,
    Other,
}

pub enum KindView {
    Literal(Seq<char>),
    Dynamic(Seq<char>),
}

pub enum ErrorKind {
    NotNamedStruct,
    NotStruct,
    MissingSegments,
    UnnamedField,
    DuplicatePayload,
    MissingPayload,
    UnknownSegmentField(Seq<char>),
    UnknownAttribute,
    UnexpectedSegmentToken,
    EmptySegments,
}

impl View for SegmentToken {
    type V = TokenView;

    open spec fn view(&self) -> TokenView {
        match self {
            SegmentToken::Literal(s) => TokenView::Literal(s@),
            SegmentToken::Ident(s) => TokenView::Ident(s@),
            SegmentToken::Comma => TokenView::Comma,
            SegmentToken::Other(_) => TokenView::Other,
        }
    }
}

impl View for SegmentKind {
    type V = KindView;

    open spec fn view(&self) -> KindView {
        match self {
            SegmentKind::Literal(s) => KindView::Literal(s@),
            SegmentKind::Dynamic(s) => KindView::Dynamic(s@),
        }
    }
}

impl View for DefinitionError {
    type V = ErrorKind;

    open spec fn view(&self) -> ErrorKind {
        match self {
            DefinitionError::NotNamedStruct => ErrorKind::NotNamedStruct,
            DefinitionError::NotStruct => ErrorKind::NotStruct,
            DefinitionError::MissingSegments => ErrorKind::MissingSegments,
            DefinitionError::UnnamedField => ErrorKind::UnnamedField,
            DefinitionError::DuplicatePayload => ErrorKind::DuplicatePayload,
            DefinitionError::MissingPayload => ErrorKind::MissingPayload,
            DefinitionError::UnknownSegmentField(s) => ErrorKind::UnknownSegmentField(s@),
            DefinitionError::UnknownAttribute => ErrorKind::UnknownAttribute,
            DefinitionError::UnexpectedSegmentToken => ErrorKind::UnexpectedSegmentToken,
            DefinitionError::EmptySegments => ErrorKind::EmptySegments,
        }
    }
}

pub open spec fn tokens_view(t: Seq<SegmentToken>) -> Seq<TokenView> {
    t.map_values(|x: SegmentToken| x@)
}

pub open spec fn kinds_view(k: Seq<SegmentKind>) -> Seq<KindView> {
    k.map_values(|x: SegmentKind| x@)
}

/// Reads segment entries from `toks`: each is a literal or a name,
/// optionally followed by one comma.
pub open spec fn read_segment_tokens(toks: Seq<TokenView>) -> Result<Seq<KindView>, ErrorKind>
    decreases toks.len(),
{
    if toks.len() == 0 {
        Ok(Seq::<KindView>::empty())
    } else {
        let rest = if toks.len() > 1 && toks[1] is Comma {
            toks.skip(2)
        } else {
            toks.skip(1)
        };
        let entry = match toks[0] {
            TokenView::Literal(s) => Some(KindView::Literal(s)),
            TokenView::Ident(s) => Some(KindView::Dynamic(s)),
            _ => None,
        };
        match entry {
            None => Err(ErrorKind::UnexpectedSegmentToken),
            Some(k) => match read_segment_tokens(rest) {
                Ok(ks) => Ok(seq![k] + ks),
                Err(e) => Err(e),
            },
        }
    }
}

/// The literal and name tokens of `toks` as segments, in source order,
/// other tokens left out.
pub open spec fn declared_entries(toks: Seq<TokenView>) -> Seq<KindView>
    decreases toks.len(),
{
    if toks.len() == 0 {
        Seq::<KindView>::empty()
    } else {
        let rest = declared_entries(toks.skip(1));
        match toks[0] {
            TokenView::Literal(s) => seq![KindView::Literal(s)] + rest,
            TokenView::Ident(s) => seq![KindView::Dynamic(s)] + rest,
            _ => rest,
        }
    }
}

/// Segments keep source order: when `segments(...)` reads without error,
/// its result is the literal and name tokens, one segment each, in the order
/// written; every other token is a comma, and no comma is first or follows
/// another comma.
pub proof fn lemma_segments_in_source_order(toks: Seq<TokenView>)
    requires
        read_segment_tokens(toks) is Ok,
    ensures
        read_segment_tokens(toks) == Ok::<Seq<KindView>, ErrorKind>(declared_entries(toks)),
        forall|i: int|
            0 <= i < toks.len() ==> (#[trigger] toks[i] is Literal || toks[i] is Ident
                || toks[i] is Comma),
        toks.len() > 0 ==> !(toks[0] is Comma),
        forall|i: int|
            0 <= i < toks.len() - 1 && #[trigger] toks[i] is Comma ==> !(toks[i + 1] is Comma),
    decreases toks.len(),
{
    if toks.len() > 0 {
        if toks.len() > 1 && toks[1] is Comma {
            let rest = toks.skip(2);
            lemma_segments_in_source_order(rest);
            assert(toks.skip(1).skip(1) =~= rest);
            assert(toks.skip(1)[0] is Comma);
            assert(declared_entries(toks.skip(1)) == declared_entries(rest));
            assert forall|i: int| 0 <= i < toks.len() implies (#[trigger] toks[i] is Literal
                || toks[i] is Ident || toks[i] is Comma) by {
                if i >= 2 {
                    assert(toks[i] == rest[i - 2]);
                }
            }
            assert forall|i: int|
                0 <= i < toks.len() - 1 && #[trigger] toks[i] is Comma implies !(
                toks[i + 1] is Comma) by {
                if i >= 2 {
                    assert(toks[i] == rest[i - 2]);
                    assert(toks[i + 1] == rest[i - 1]);
                } else if i == 1 {
                    if rest.len() > 0 {
                        assert(toks[i + 1] == rest[0]);
                    }
                }
            }
        } else {
            let rest = toks.skip(1);
            lemma_segments_in_source_order(rest);
            assert forall|i: int| 0 <= i < toks.len() implies (#[trigger] toks[i] is Literal
                || toks[i] is Ident || toks[i] is Comma) by {
                if i >= 1 {
                    assert(toks[i] == rest[i - 1]);
                }
            }
            assert forall|i: int|
                0 <= i < toks.len() - 1 && #[trigger] toks[i] is Comma implies !(
                toks[i + 1] is Comma) by {
                if i >= 1 {
                    assert(toks[i] == rest[i - 1]);
                    assert(toks[i + 1] == rest[i]);
                }
            }
        }
    }
}

/// What `segments(...)` with tokens `toks` declares; it must not be empty.
pub open spec fn parse_segments_spec(toks: Seq<TokenView>) -> Result<Seq<KindView>, ErrorKind> {
    match read_segment_tokens(toks) {
        Ok(ks) => if ks.len() == 0 {
            Err(ErrorKind::EmptySegments)
        } else {
            Ok(ks)
        },
        Err(e) => Err(e),
    }
}

/// Reads segment entries (`segments(...)` of a `#[topic]` attribute).
fn read_segment_tokens_exec(toks: &Vec<SegmentToken>) -> (r: Result<Vec<SegmentKind>, DefinitionError>)
    ensures
        match r {
            Ok(ks) => read_segment_tokens(tokens_view(toks@)) == Ok::<Seq<KindView>, ErrorKind>(
                kinds_view(ks@),
            ),
            Err(e) => read_segment_tokens(tokens_view(toks@)) == Err::<Seq<KindView>, ErrorKind>(
                e@,
            ),
        },
{
    let ghost tv = tokens_view(toks@);
    let mut out: Vec<SegmentKind> = Vec::new();
    let mut i: usize = 0;
    assert(tv.skip(0) =~= tv);
    while i < toks.len()
        invariant
            tv == tokens_view(toks@),
            0 <= i <= toks@.len(),
            read_segment_tokens(tv) == match read_segment_tokens(tv.skip(i as int)) {
                Ok(ks) => Ok(kinds_view(out@) + ks),
                Err(e) => Err(e),
            },
        decreases toks@.len() - i,
    {
        let ghost before = kinds_view(out@);
        let ghost cur = tv.skip(i as int);
        assert(cur[0] == toks@[i as int]@);
        let next = if i + 1 < toks.len() && matches!(toks[i + 1], SegmentToken::Comma) {
            i + 2
        } else {
            i + 1
        };
        proof {
            if i + 1 < toks.len() {
                assert(cur[1] == toks@[i + 1]@);
            }
            if next == i + 2 {
                assert(cur.skip(2) =~= tv.skip(next as int));
            } else {
                assert(cur.skip(1) =~= tv.skip(next as int));
            }
        }
        match &toks[i] {
            SegmentToken::Literal(s) => {
                out.push(SegmentKind::Literal(s.clone()));
            },
            SegmentToken::Ident(s) => {
                out.push(SegmentKind::Dynamic(s.clone()));
            },
            _ => {
                return Err(DefinitionError::UnexpectedSegmentToken);
            },
        }
        proof {
            assert(kinds_view(out@) =~= before.push(out@.last()@));
            match read_segment_tokens(tv.skip(next as int)) {
                Ok(ks) => {
                    assert(before + (seq![out@.last()@] + ks) =~= kinds_view(out@) + ks);
                },
                Err(e) => {},
            }
        }
        i = next;
    }
    assert(tv.skip(i as int) =~= Seq::<TokenView>::empty());
    assert(kinds_view(out@) + Seq::<KindView>::empty() =~= kinds_view(out@));
    Ok(out)
}

/// Parses the tokens of `segments(...)`: literals and field names, separated
/// by optional commas; at least one entry.
pub fn parse_segments(toks: &Vec<SegmentToken>) -> (r: Result<Vec<SegmentKind>, DefinitionError>)
    ensures
        match r {
            Ok(ks) => parse_segments_spec(tokens_view(toks@)) == Ok::<Seq<KindView>, ErrorKind>(
                kinds_view(ks@),
            ),
            Err(e) => parse_segments_spec(tokens_view(toks@)) == Err::<Seq<KindView>, ErrorKind>(
                e@,
            ),
        },
{
    let segments = read_segment_tokens_exec(toks)?;
    if segments.len() == 0 {
        return Err(DefinitionError::EmptySegments);
    }
    Ok(segments)
}

/// Whether `s` is exactly `word`.
fn is_word(s: &String, word: &str) -> (r: bool)
    ensures
        r == (s@ == word@),
{
    chars_eq(str_to_chars(s.as_str()).as_slice(), str_to_chars(word).as_slice())
}

/// Whether a field carries `#[payload]`.
pub open spec fn has_payload_attr_spec(attrs: Seq<String>) -> bool {
    exists|i: int| 0 <= i < attrs.len() && (#[trigger] attrs[i])@ == "payload"@
}

/// Whether any of the attribute paths is `payload`.
pub fn has_payload_attr(attrs: &Vec<String>) -> (r: bool)
    ensures
        r == has_payload_attr_spec(attrs@),
{
    let mut i: usize = 0;
    while i < attrs.len()
        invariant
            0 <= i <= attrs@.len(),
            forall|j: int| 0 <= j < i ==> (#[trigger] attrs@[j])@ != "payload"@,
        decreases attrs@.len() - i,
    {
        if is_word(&attrs[i], "payload") {
            return true;
        }
        i = i + 1;
    }
    false
}

/// The segments and encoding that the `#[topic(...)]` attributes declare,
/// later declarations replacing earlier ones; attributes with another path
/// are ignored.
pub open spec fn topic_attrs_from(
    attrs: Seq<Attribute>,
    i: nat,
    j: nat,
    segments: Option<Seq<KindView>>,
    encoding: Option<Seq<char>>,
) -> Result<(Option<Seq<KindView>>, Option<Seq<char>>), ErrorKind>
    decreases attrs.len() - i, (if i < attrs.len() {
        attrs[i as int].metas@.len() - j
    } else {
        0
    }),
{
    if i >= attrs.len() {
        Ok((segments, encoding))
    } else if attrs[i as int].path@ != "topic"@ || j >= attrs[i as int].metas@.len() {
        topic_attrs_from(attrs, i + 1, 0, segments, encoding)
    } else {
        match attrs[i as int].metas@[j as int] {
            TopicMeta::Segments(toks) => match parse_segments_spec(tokens_view(toks@)) {
                Ok(ks) => topic_attrs_from(attrs, i, j + 1, Some(ks), encoding),
                Err(e) => Err(e),
            },
            TopicMeta::Encoding(path) => topic_attrs_from(attrs, i, j + 1, segments, Some(path@)),
            TopicMeta::Other(_) => Err(ErrorKind::UnknownAttribute),
        }
    }
}

/// Reads the `#[topic(...)]` attributes: the declared segments and encoding.
pub fn parse_topic_attrs(attrs: &Vec<Attribute>) -> (r: Result<
    (Option<Vec<SegmentKind>>, Option<String>),
    DefinitionError,
>)
    ensures
        match r {
            Ok((s, e)) => topic_attrs_from(attrs@, 0, 0, None, None) == Ok::<
                (Option<Seq<KindView>>, Option<Seq<char>>),
                ErrorKind,
            >(
                (
                    match s {
                        Some(ks) => Some(kinds_view(ks@)),
                        None => None,
                    },
                    match e {
                        Some(p) => Some(p@),
                        None => None,
                    },
                ),
            ),
            Err(e) => topic_attrs_from(attrs@, 0, 0, None, None) == Err::<
                (Option<Seq<KindView>>, Option<Seq<char>>),
                ErrorKind,
            >(e@),
        },
{
    let mut segments: Option<Vec<SegmentKind>> = None;
    let mut encoding: Option<String> = None;
    let mut i: usize = 0;
    while i < attrs.len()
        invariant
            0 <= i <= attrs@.len(),
            topic_attrs_from(attrs@, 0, 0, None, None) == topic_attrs_from(
                attrs@,
                i as nat,
                0,
                match segments {
                    Some(ks) => Some(kinds_view(ks@)),
                    None => None,
                },
                match encoding {
                    Some(p) => Some(p@),
                    None => None,
                },
            ),
        decreases attrs@.len() - i,
    {
        let attr = &attrs[i];
        if is_word(&attr.path, "topic") {
            let mut j: usize = 0;
            while j < attr.metas.len()
                invariant
                    0 <= i < attrs@.len(),
                    *attr == attrs@[i as int],
                    attr.path@ == "topic"@,
                    0 <= j <= attr.metas@.len(),
                    topic_attrs_from(attrs@, 0, 0, None, None) == topic_attrs_from(
                        attrs@,
                        i as nat,
                        j as nat,
                        match segments {
                            Some(ks) => Some(kinds_view(ks@)),
                            None => None,
                        },
                        match encoding {
                            Some(p) => Some(p@),
                            None => None,
                        },
                    ),
                decreases attr.metas@.len() - j,
            {
                match &attr.metas[j] {
                    TopicMeta::Segments(toks) => {
                        let ks = parse_segments(toks)?;
                        segments = Some(ks);
                    },
                    TopicMeta::Encoding(path) => {
                        encoding = Some(path.clone());
                    },
                    TopicMeta::Other(_) => {
                        return Err(DefinitionError::UnknownAttribute);
                    },
                }
                j = j + 1;
            }
        }
        i = i + 1;
    }
    Ok((segments, encoding))
}

/// A field's name and type.
pub type FieldView = (Seq<char>, Seq<char>);

/// The mathematical model of a checked topic declaration.
pub struct TopicInputView {
    pub name: Seq<char>,
    pub segments: Seq<KindView>,
    pub payload: FieldView,
    pub encoding: Option<Seq<char>>,
    pub fields: Seq<FieldView>,
}

/// Sorts the fields from position `i` on into the payload field and the
/// others, in order: a field without a name, or a second `#[payload]`
/// field, is refused where it stands.
pub open spec fn fields_from(
    fields: Seq<FieldDecl>,
    i: nat,
    payload: Option<FieldView>,
    others: Seq<FieldView>,
) -> Result<(Option<FieldView>, Seq<FieldView>), ErrorKind>
    decreases fields.len() - i,
{
    if i >= fields.len() {
        Ok((payload, others))
    } else {
        match fields[i as int].name {
            None => Err(ErrorKind::UnnamedField),
            Some(n) => {
                let f = (n@, fields[i as int].ty@);
                if has_payload_attr_spec(fields[i as int].attrs@) {
                    if payload is Some {
                        Err(ErrorKind::DuplicatePayload)
                    } else {
                        fields_from(fields, i + 1, Some(f), others)
                    }
                } else {
                    fields_from(fields, i + 1, payload, others.push(f))
                }
            },
        }
    }
}

/// Some non-payload field is named `name`.
pub open spec fn names_field(others: Seq<FieldView>, name: Seq<char>) -> bool {
    exists|j: int| 0 <= j < others.len() && (#[trigger] others[j]).0 == name
}

/// The first dynamic segment, from position `i` on, that names no
/// non-payload field.
pub open spec fn first_unknown_from(segs: Seq<KindView>, others: Seq<FieldView>, i: nat) -> Option<
    Seq<char>,
>
    decreases segs.len() - i,
{
    if i >= segs.len() {
        None
    } else {
        match segs[i as int] {
            KindView::Dynamic(name) => if names_field(others, name) {
                first_unknown_from(segs, others, i + 1)
            } else {
                Some(name)
            },
            KindView::Literal(_) => first_unknown_from(segs, others, i + 1),
        }
    }
}

/// What checking a topic declaration gives: a struct with named fields, a
/// `segments(...)` declaration, exactly one `#[payload]` field, and dynamic
/// segments that all name non-payload fields; the first failing check
/// decides the error.
pub open spec fn topic_input_spec(input: DeriveInput) -> Result<TopicInputView, ErrorKind> {
    match input.data {
        DeriveData::NotStruct => Err(ErrorKind::NotStruct),
        DeriveData::OtherStruct => Err(ErrorKind::NotNamedStruct),
        DeriveData::NamedStruct(fields) => match topic_attrs_from(
            input.attrs@,
            0,
            0,
            None,
            None,
        ) {
            Err(e) => Err(e),
            Ok((segs, enc)) => match segs {
                None => Err(ErrorKind::MissingSegments),
                Some(segs) => match fields_from(fields@, 0, None, Seq::<FieldView>::empty()) {
                    Err(e) => Err(e),
                    Ok((payload, others)) => match payload {
                        None => Err(ErrorKind::MissingPayload),
                        Some(p) => match first_unknown_from(segs, others, 0) {
                            Some(name) => Err(ErrorKind::UnknownSegmentField(name)),
                            None => Ok(
                                TopicInputView {
                                    name: input.name@,
                                    segments: segs,
                                    payload: p,
                                    encoding: enc,
                                    fields: others,
                                },
                            ),
                        },
                    },
                },
            },
        },
    }
}

impl TopicInput {
    pub open spec fn view_of(&self) -> TopicInputView {
        TopicInputView {
            name: self.name@,
            segments: kinds_view(self.segments@),
            payload: (self.payload.name@, self.payload.ty@),
            encoding: match self.encoding {
                Some(p) => Some(p@),
                None => None,
            },
            fields: self.fields@.map_values(|f: TopicField| (f.name@, f.ty@)),
        }
    }
}

/// Whether some non-payload field is named `name`.
fn has_field(fields: &Vec<TopicField>, name: &String) -> (r: bool)
    ensures
        r == names_field(fields@.map_values(|f: TopicField| (f.name@, f.ty@)), name@),
{
    let ghost fv = fields@.map_values(|f: TopicField| (f.name@, f.ty@));
    let mut j: usize = 0;
    while j < fields.len()
        invariant
            fv == fields@.map_values(|f: TopicField| (f.name@, f.ty@)),
            0 <= j <= fields@.len(),
            forall|k: int| 0 <= k < j ==> (#[trigger] fv[k]).0 != name@,
        decreases fields@.len() - j,
    {
        if chars_eq(
            str_to_chars(fields[j].name.as_str()).as_slice(),
            str_to_chars(name.as_str()).as_slice(),
        ) {
            assert(fv[j as int].0 == name@);
            return true;
        }
        j = j + 1;
    }
    false
}

/// Checks a topic declaration and collects what it declares.
#[verifier::loop_isolation(false)]
pub fn parse_topic_input(input: &DeriveInput) -> (r: Result<TopicInput, DefinitionError>)
    ensures
        match r {
            Ok(t) => topic_input_spec(*input) == Ok::<TopicInputView, ErrorKind>(t.view_of()),
            Err(e) => topic_input_spec(*input) == Err::<TopicInputView, ErrorKind>(e@),
        },
{
    // only named structs are supported
    let fields = match &input.data {
        DeriveData::NamedStruct(fields) => fields,
        DeriveData::OtherStruct => {
            return Err(DefinitionError::NotNamedStruct);
        },
        DeriveData::NotStruct => {
            return Err(DefinitionError::NotStruct);
        },
    };
    let (segments, encoding) = parse_topic_attrs(&input.attrs)?;
    let segments = match segments {
        Some(s) => s,
        None => {
            return Err(DefinitionError::MissingSegments);
        },
    };
    let mut payload: Option<PayloadField> = None;
    let mut topic_fields: Vec<TopicField> = Vec::new();
    assert(topic_fields@.map_values(|f: TopicField| (f.name@, f.ty@)) =~= Seq::<FieldView>::empty());
    let mut i: usize = 0;
    while i < fields.len()
        invariant
            0 <= i <= fields@.len(),
            fields_from(fields@, 0, None, Seq::<FieldView>::empty()) == fields_from(
                fields@,
                i as nat,
                match payload {
                    Some(p) => Some((p.name@, p.ty@)),
                    None => None,
                },
                topic_fields@.map_values(|f: TopicField| (f.name@, f.ty@)),
            ),
        decreases fields@.len() - i,
    {
        let field = &fields[i];
        let field_name = match &field.name {
            Some(n) => n.clone(),
            None => {
                return Err(DefinitionError::UnnamedField);
            },
        };
        let is_payload = has_payload_attr(&field.attrs);
        if is_payload {
            if payload.is_some() {
                // a payload field was already found
                return Err(DefinitionError::DuplicatePayload);
            }
            payload = Some(PayloadField { name: field_name, ty: field.ty.clone() });
        } else {
            let ghost before = topic_fields@.map_values(|f: TopicField| (f.name@, f.ty@));
            topic_fields.push(TopicField { name: field_name, ty: field.ty.clone() });
            assert(topic_fields@.map_values(|f: TopicField| (f.name@, f.ty@)) =~= before.push(
                (field.name.unwrap()@, field.ty@),
            ));
        }
        i = i + 1;
    }
    let payload = match payload {
        Some(p) => p,
        None => {
            return Err(DefinitionError::MissingPayload);
        },
    };
    // every dynamic segment must name a field
    let ghost others = topic_fields@.map_values(|f: TopicField| (f.name@, f.ty@));
    let mut k: usize = 0;
    while k < segments.len()
        invariant
            0 <= k <= segments@.len(),
            others == topic_fields@.map_values(|f: TopicField| (f.name@, f.ty@)),
            first_unknown_from(kinds_view(segments@), others, 0) == first_unknown_from(
                kinds_view(segments@),
                others,
                k as nat,
            ),
        decreases segments@.len() - k,
    {
        assert(kinds_view(segments@)[k as int] == segments@[k as int]@);
        if let SegmentKind::Dynamic(ident) = &segments[k] {
            if !has_field(&topic_fields, ident) {
                return Err(DefinitionError::UnknownSegmentField(ident.clone()));
            }
        }
        k = k + 1;
    }
    Ok(TopicInput { name: input.name.clone(), segments, payload, encoding, fields: topic_fields })
}

impl DefinitionError {
    /// The error message of the derive.
    pub fn message(&self) -> (m: String)
        ensures
            m@ == match self {
                DefinitionError::NotNamedStruct => "Topic can only be derived on structs with named fields"@,
                DefinitionError::NotStruct => "Topic can only be derived on structs, not enums or unions"@,
                DefinitionError::MissingSegments => "missing #[topic(segments(...))] attribute"@,
                DefinitionError::UnnamedField => "Topic fields must be named"@,
                DefinitionError::DuplicatePayload => "only one field can be marked #[payload]"@,
                DefinitionError::MissingPayload => "one field must be marked #[payload]"@,
                DefinitionError::UnknownSegmentField(name) => "segment '"@ + name@
                    + "' does not match any field on the struct"@,
                DefinitionError::UnknownAttribute => "unknown topic attribute — expected segments(...) or encoding = ..."@,
                DefinitionError::UnexpectedSegmentToken => "expected a string literal or field name in segments(...)"@,
                DefinitionError::EmptySegments => "segments(...) cannot be empty"@,
            },
    {
        let mut m = String::new();
        match self {
            DefinitionError::NotNamedStruct => push_str(
                &mut m,
                "Topic can only be derived on structs with named fields",
            ),
            DefinitionError::NotStruct => push_str(
                &mut m,
                "Topic can only be derived on structs, not enums or unions",
            ),
            DefinitionError::MissingSegments => push_str(
                &mut m,
                "missing #[topic(segments(...))] attribute",
            ),
            DefinitionError::UnnamedField => push_str(&mut m, "Topic fields must be named"),
            DefinitionError::DuplicatePayload => push_str(
                &mut m,
                "only one field can be marked #[payload]",
            ),
            DefinitionError::MissingPayload => push_str(&mut m, "one field must be marked #[payload]"),
            DefinitionError::UnknownSegmentField(name) => {
                push_str(&mut m, "segment '");
                push_str(&mut m, name.as_str());
                push_str(&mut m, "' does not match any field on the struct");
            },
            DefinitionError::UnknownAttribute => push_str(
                &mut m,
                "unknown topic attribute — expected segments(...) or encoding = ...",
            ),
            DefinitionError::UnexpectedSegmentToken => push_str(
                &mut m,
                "expected a string literal or field name in segments(...)",
            ),
            DefinitionError::EmptySegments => push_str(&mut m, "segments(...) cannot be empty"),
        }
        m
    }
}

} // verus!
