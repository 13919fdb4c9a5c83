//! Groups of topic definitions handled through one subscriber (what
//! `#[derive(TopicEnum)]` declares): one subscription pattern per variant,
//! and parsing of an incoming message into the first variant it fits.
use vstd::prelude::*;
use crate::error::{TopikError, ErrorView};
use crate::message::{
    TopicDefinition, TopicMessage, PayloadView, decoded_payload, decode_payload, encoded_payload,
    payload_fits, encoding_readable, lemma_payload_round_trip,
};
use crate::payload::bytes_copy_from_slice;
use crate::text::push_str;
use crate::topic::{
    ValueView, values_view, wildcard_topic, parse_topic, render_topic, values_fit,
    rendered_parts,
};

verus! {

/// A group of topic definitions, in variant order.
pub struct TopicEnum {
    variants: Vec<TopicDefinition>,
}

/// The reason given when no variant's topic parses.
pub open spec fn no_match_reason() -> Seq<char> {
    "topic does not match any variant"@
}

/// What parsing a message against the variants from `i` on gives: the first
/// variant whose topic parses decides, with its payload decoding's outcome;
/// when none parses, a parse error naming the topic.
pub open spec fn enum_parse_from(
    defs: Seq<TopicDefinition>,
    topic: Seq<char>,
    payload: Seq<u8>,
    sep: char,
    i: nat,
) -> Result<(nat, Seq<ValueView>, PayloadView), ErrorView>
    decreases defs.len() - i,
{
    if i >= defs.len() {
        Err(ErrorView::ParseError { topic: topic, reason: no_match_reason() })
    } else {
        match parse_topic(defs[i as int].schema.spec_segments(), topic, sep) {
            Ok(key) => match decoded_payload(defs[i as int].encoding@, payload) {
                Ok(p) => Ok((i, key, p)),
                Err(e) => Err(e),
            },
            Err(_) => enum_parse_from(defs, topic, payload, sep, i + 1),
        }
    }
}

impl TopicEnum {
    pub closed spec fn spec_variants(&self) -> Seq<TopicDefinition> {
        self.variants@
    }

    /// A group with the given variants, in order.
    pub fn new(variants: Vec<TopicDefinition>) -> (e: Self)
        ensures
            e.spec_variants() == variants@,
    {
        TopicEnum { variants }
    }

    /// The variants, in order.
    pub fn variants(&self) -> (v: &Vec<TopicDefinition>)
        ensures
            v@ == self.spec_variants(),
    {
        &self.variants
    }

    /// The wildcard subscription pattern of every variant, in order.
    pub fn patterns(&self, sep: char, single: &str, multi: &str) -> (p: Vec<String>)
        ensures
            p@.len() == self.spec_variants().len(),
            forall|i: int|
                0 <= i < p@.len() ==> #[trigger] p@[i]@ == wildcard_topic(
                    self.spec_variants()[i].schema.spec_segments(),
                    sep,
                    single@,
                ),
    {
        let mut p: Vec<String> = Vec::new();
        let mut i: usize = 0;
        while i < self.variants.len()
            invariant
                0 <= i <= self.variants@.len(),
                p@.len() == i,
                forall|j: int|
                    0 <= j < i ==> #[trigger] p@[j]@ == wildcard_topic(
                        self.variants@[j].schema.spec_segments(),
                        sep,
                        single@,
                    ),
            decreases self.variants@.len() - i,
        {
            p.push(self.variants[i].schema.wildcard_pattern(sep, single, multi));
            i = i + 1;
        }
        p
    }

    /// Parses an incoming message into the first variant whose topic parses
    /// (its index and message); that variant's payload decoding error is
    /// returned as it is; when no variant's topic parses, a parse error.
    pub fn try_parse(&self, topic: &str, payload: &[u8], sep: char) -> (r: Result<
        (usize, TopicMessage),
        TopikError,
    >)
        ensures
            match r {
                Ok((i, m)) => enum_parse_from(self.spec_variants(), topic@, payload@, sep, 0)
                    == Ok::<(nat, Seq<ValueView>, PayloadView), ErrorView>(
                    (i as nat, values_view(m.key@), m.payload@),
                ),
                Err(e) => enum_parse_from(self.spec_variants(), topic@, payload@, sep, 0) == Err::<
                    (nat, Seq<ValueView>, PayloadView),
                    ErrorView,
                >(e@),
            },
    {
        let ghost defs = self.variants@;
        let mut i: usize = 0;
        while i < self.variants.len()
            invariant
                defs == self.variants@,
                0 <= i <= defs.len(),
                enum_parse_from(defs, topic@, payload@, sep, 0) == enum_parse_from(
                    defs,
                    topic@,
                    payload@,
                    sep,
                    i as nat,
                ),
            decreases defs.len() - i,
        {
            match self.variants[i].schema.parse(topic, sep) {
                Ok(key) => {
                    let bytes = bytes_copy_from_slice(payload);
                    return match decode_payload(&self.variants[i].encoding, bytes) {
                        Ok(p) => Ok((i, TopicMessage { key, payload: p })),
                        Err(e) => Err(e),
                    };
                },
                Err(_) => {},
            }
            i = i + 1;
        }
        let mut topic_text = String::new();
        push_str(&mut topic_text, topic);
        let mut reason = String::new();
        push_str(&mut reason, "topic does not match any variant");
        Err(TopikError::ParseError { topic: topic_text, reason })
    }
}

proof fn lemma_enum_skip(
    defs: Seq<TopicDefinition>,
    topic: Seq<char>,
    payload: Seq<u8>,
    sep: char,
    i: nat,
    target: nat,
)
    requires
        i <= target < defs.len(),
        forall|j: int|
            i <= j < target ==> #[trigger] parse_topic(
                defs[j].schema.spec_segments(),
                topic,
                sep,
            ) is Err,
    ensures
        enum_parse_from(defs, topic, payload, sep, i) == enum_parse_from(
            defs,
            topic,
            payload,
            sep,
            target,
        ),
    decreases target - i,
{
    if i < target {
        assert(parse_topic(defs[i as int].schema.spec_segments(), topic, sep) is Err);
        lemma_enum_skip(defs, topic, payload, sep, i + 1, target);
    }
}

/// A message published by variant `i` is parsed back as variant `i` with its
/// key and payload when no earlier variant's topic parses it.
pub proof fn lemma_try_parse_published(
    defs: Seq<TopicDefinition>,
    i: nat,
    vals: Seq<ValueView>,
    p: PayloadView,
    sep: char,
)
    requires
        i < defs.len(),
        defs[i as int].schema.spec_segments().len() >= 1,
        values_fit(defs[i as int].schema.spec_segments(), vals),
        crate::topic_laws::fields_readable(defs[i as int].schema.spec_segments()),
        crate::text::all_free_of(
            rendered_parts(defs[i as int].schema.spec_segments(), vals),
            sep,
        ),
        payload_fits(defs[i as int].encoding@, p),
        encoding_readable(defs[i as int].encoding@),
        forall|j: int|
            0 <= j < i ==> #[trigger] parse_topic(
                defs[j].schema.spec_segments(),
                render_topic(defs[i as int].schema.spec_segments(), vals, sep),
                sep,
            ) is Err,
    ensures
        enum_parse_from(
            defs,
            render_topic(defs[i as int].schema.spec_segments(), vals, sep),
            encoded_payload(defs[i as int].encoding@, p),
            sep,
            0,
        ) == Ok::<(nat, Seq<ValueView>, PayloadView), ErrorView>((i, vals, p)),
{
    let segs = defs[i as int].schema.spec_segments();
    let topic = render_topic(segs, vals, sep);
    let bytes = encoded_payload(defs[i as int].encoding@, p);
    lemma_enum_skip(defs, topic, bytes, sep, 0, i);
    crate::topic_laws::lemma_parse_render(segs, vals, sep);
    lemma_payload_round_trip(defs[i as int].encoding@, p);
}

proof fn lemma_enum_parse_from_cases(
    defs: Seq<TopicDefinition>,
    topic: Seq<char>,
    payload: Seq<u8>,
    sep: char,
    s: nat,
)
    ensures
        ({
            let r = enum_parse_from(defs, topic, payload, sep, s);
            r is Ok ==> {
                let (i, key, p) = r->Ok_0;
                &&& s <= i < defs.len()
                &&& parse_topic(defs[i as int].schema.spec_segments(), topic, sep) == Ok::<
                    Seq<ValueView>,
                    ErrorView,
                >(key)
                &&& decoded_payload(defs[i as int].encoding@, payload) == Ok::<
                    PayloadView,
                    ErrorView,
                >(p)
                &&& forall|j: int|
                    s <= j < i ==> #[trigger] parse_topic(
                        defs[j].schema.spec_segments(),
                        topic,
                        sep,
                    ) is Err
            }
        }),
        (forall|j: int|
            s <= j < defs.len() ==> #[trigger] parse_topic(
                defs[j].schema.spec_segments(),
                topic,
                sep,
            ) is Err) ==> enum_parse_from(defs, topic, payload, sep, s) == Err::<
            (nat, Seq<ValueView>, PayloadView),
            ErrorView,
        >(ErrorView::ParseError { topic: topic, reason: no_match_reason() }),
    decreases defs.len() - s,
{
    if s < defs.len() {
        lemma_enum_parse_from_cases(defs, topic, payload, sep, s + 1);
    }
}

/// `try_parse` picks the first variant whose topic parses: when it gives
/// variant `i`, the topic parses against variant `i` as the returned key,
/// the payload decodes with variant `i`'s encoding as the returned payload,
/// and no earlier variant's topic parses; when no variant's topic parses,
/// the result is the parse error naming the topic.
pub proof fn lemma_try_parse_first_variant(
    defs: Seq<TopicDefinition>,
    topic: Seq<char>,
    payload: Seq<u8>,
    sep: char,
)
    ensures
        ({
            let r = enum_parse_from(defs, topic, payload, sep, 0);
            r is Ok ==> {
                let (i, key, p) = r->Ok_0;
                &&& i < defs.len()
                &&& parse_topic(defs[i as int].schema.spec_segments(), topic, sep) == Ok::<
                    Seq<ValueView>,
                    ErrorView,
                >(key)
                &&& decoded_payload(defs[i as int].encoding@, payload) == Ok::<
                    PayloadView,
                    ErrorView,
                >(p)
                &&& forall|j: int|
                    0 <= j < i ==> #[trigger] parse_topic(
                        defs[j].schema.spec_segments(),
                        topic,
                        sep,
                    ) is Err
            }
        }),
        (forall|j: int|
            0 <= j < defs.len() ==> #[trigger] parse_topic(
                defs[j].schema.spec_segments(),
                topic,
                sep,
            ) is Err) ==> enum_parse_from(defs, topic, payload, sep, 0) == Err::<
            (nat, Seq<ValueView>, PayloadView),
            ErrorView,
        >(ErrorView::ParseError { topic: topic, reason: no_match_reason() }),
{
    lemma_enum_parse_from_cases(defs, topic, payload, sep, 0);
}

} // verus!
