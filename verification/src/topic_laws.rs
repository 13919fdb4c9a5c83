//! Properties that tie rendering, parsing and subscription patterns of a
//! topic definition together.
use vstd::prelude::*;
use crate::decimal::lemma_parse_signed_decimal;
use crate::matching::{pattern_matches, segments_match, segment_accepts};
use crate::text::{split, join, free_of, all_free_of, lemma_split_join};
use crate::uuid_text::lemma_uuid_read_back;
use crate::topic::{
    SegmentSpec, FieldSpec, ValueView, field_index, value_fits, value_text,
    parse_value, values_fit, rendered_parts, render_topic, pattern_parts, no_pins,
    wildcard_topic, pins_agree, parse_from, parse_topic, lemma_field_index_step,
    lemma_field_index_full, lemma_field_index_monotone,
};

verus! {

/// A field type as the library builds them: integer ranges hold zero and
/// only signed types go below it.
pub open spec fn field_wf(ty: FieldSpec) -> bool {
    match ty {
        FieldSpec::Integer { signed, min, max, .. } => min <= 0 <= max && (min < 0 ==> signed),
        _ => true,
    }
}

/// Every field type is well formed, and every boolean field has two
/// different texts.
pub open spec fn fields_readable(segs: Seq<SegmentSpec>) -> bool {
    forall|i: int|
        #![trigger segs[i]]
        0 <= i < segs.len() ==> (segs[i] matches SegmentSpec::Field { ty, .. } ==> {
            &&& field_wf(ty)
            &&& ty matches FieldSpec::Flag { true_text, false_text } ==> true_text != false_text
        })
}

/// Every literal segment is free of `sep`.
pub open spec fn literals_free_of(segs: Seq<SegmentSpec>, sep: char) -> bool {
    forall|i: int|
        #![trigger segs[i]]
        0 <= i < segs.len() ==> (segs[i] matches SegmentSpec::Literal(l) ==> free_of(l, sep))
}

proof fn lemma_value_round_trip(ty: FieldSpec, v: ValueView)
    requires
        value_fits(ty, v),
        field_wf(ty),
        ty matches FieldSpec::Flag { true_text, false_text } ==> true_text != false_text,
    ensures
        parse_value(ty, value_text(ty, v)) == Ok::<ValueView, crate::error::ErrorView>(v),
{
    match ty {
        FieldSpec::Integer { signed, min, max, .. } => {
            if let ValueView::Int(_, i) = v {
                lemma_parse_signed_decimal(i, signed, min, max);
            }
        },
        FieldSpec::Uuid => {
            if let ValueView::Uuid(x) = v {
                lemma_uuid_read_back(x);
            }
        },
        _ => {},
    }
}

proof fn lemma_parse_rendered_from(
    segs: Seq<SegmentSpec>,
    vals: Seq<ValueView>,
    topic: Seq<char>,
    i: nat,
)
    requires
        values_fit(segs, vals),
        fields_readable(segs),
        i <= segs.len(),
    ensures
        parse_from(segs, rendered_parts(segs, vals), topic, i) == Ok::<
            Seq<ValueView>,
            crate::error::ErrorView,
        >(vals.subrange(field_index(segs, i as int) as int, vals.len() as int)),
    decreases segs.len() - i,
{
    let parts = rendered_parts(segs, vals);
    if i == segs.len() {
        lemma_field_index_full(segs);
        assert(vals.subrange(vals.len() as int, vals.len() as int) =~= Seq::<ValueView>::empty());
    } else {
        lemma_parse_rendered_from(segs, vals, topic, i + 1);
        lemma_field_index_step(segs, i as int);
        let k = field_index(segs, i as int);
        match segs[i as int] {
            SegmentSpec::Literal(l) => {},
            SegmentSpec::Field { ty, .. } => {
                lemma_field_index_monotone(segs, i as int + 1, segs.len() as int);
                lemma_field_index_full(segs);
                assert(k < vals.len());
                lemma_value_round_trip(ty, vals[k as int]);
                assert(seq![vals[k as int]] + vals.subrange(k as int + 1, vals.len() as int)
                    =~= vals.subrange(k as int, vals.len() as int));
            },
        }
    }
}

/// Parsing the topic rendered from a key gives the key back, provided no
/// segment text holds the separator and every boolean field has two
/// different texts.
pub proof fn lemma_parse_render(segs: Seq<SegmentSpec>, vals: Seq<ValueView>, sep: char)
    requires
        segs.len() >= 1,
        values_fit(segs, vals),
        fields_readable(segs),
        all_free_of(rendered_parts(segs, vals), sep),
    ensures
        parse_topic(segs, render_topic(segs, vals, sep), sep) == Ok::<
            Seq<ValueView>,
            crate::error::ErrorView,
        >(vals),
{
    let parts = rendered_parts(segs, vals);
    lemma_split_join(parts, sep);
    lemma_parse_rendered_from(segs, vals, render_topic(segs, vals, sep), 0);
    assert(segs.take(0) =~= Seq::<SegmentSpec>::empty());
    assert(vals.subrange(0, vals.len() as int) =~= vals);
}

/// A topic rendered from a key matches every subscription pattern whose pins
/// agree with the key (the wildcard pattern among them), provided no segment
/// text and not the wildcard holds the separator.
pub proof fn lemma_render_matches_pattern(
    segs: Seq<SegmentSpec>,
    vals: Seq<ValueView>,
    pins: Seq<Option<ValueView>>,
    sep: char,
    single: Seq<char>,
    multi: Seq<char>,
)
    requires
        segs.len() >= 1,
        values_fit(segs, vals),
        pins_agree(segs, pins, vals),
        all_free_of(rendered_parts(segs, vals), sep),
        free_of(single, sep),
    ensures
        pattern_matches(
            render_topic(segs, vals, sep),
            join(pattern_parts(segs, pins, single), sep),
            sep,
            single,
            multi,
        ),
{
    let t = rendered_parts(segs, vals);
    let p = pattern_parts(segs, pins, single);
    lemma_split_join(t, sep);
    assert forall|i: int| 0 <= i < p.len() implies free_of(#[trigger] p[i], sep) by {
        assert(free_of(t[i], sep));
        match segs[i] {
            SegmentSpec::Literal(l) => {},
            SegmentSpec::Field { ty, .. } => {
                if pins[i] is Some {
                    assert(pins[i] == Some(vals[field_index(segs, i) as int]));
                }
            },
        }
    }
    lemma_split_join(p, sep);
    assert forall|i: int| 0 <= i < p.len() implies segment_accepts(#[trigger] p[i], t[i], single) by {
        match segs[i] {
            SegmentSpec::Literal(l) => {},
            SegmentSpec::Field { ty, .. } => {
                if pins[i] is Some {
                    assert(pins[i] == Some(vals[field_index(segs, i) as int]));
                }
            },
        }
    }
    assert(segments_match(t, p, single, multi));
}

/// A topic rendered from a key matches the definition's wildcard pattern.
pub proof fn lemma_render_matches_wildcard(
    segs: Seq<SegmentSpec>,
    vals: Seq<ValueView>,
    sep: char,
    single: Seq<char>,
    multi: Seq<char>,
)
    requires
        segs.len() >= 1,
        values_fit(segs, vals),
        all_free_of(rendered_parts(segs, vals), sep),
        free_of(single, sep),
    ensures
        pattern_matches(
            render_topic(segs, vals, sep),
            wildcard_topic(segs, sep, single),
            sep,
            single,
            multi,
        ),
{
    lemma_render_matches_pattern(segs, vals, no_pins(segs.len()), sep, single, multi);
}

/// Every pinned value has the type of its field and its text is neither
/// wildcard.
pub open spec fn pins_fit(
    segs: Seq<SegmentSpec>,
    pins: Seq<Option<ValueView>>,
    single: Seq<char>,
    multi: Seq<char>,
) -> bool {
    forall|i: int|
        #![trigger pins[i]]
        0 <= i < segs.len() ==> (segs[i] matches SegmentSpec::Field { ty, .. } ==> (
        pins[i] matches Some(v) ==> {
            &&& value_fits(ty, v)
            &&& value_text(ty, v) != single
            &&& value_text(ty, v) != multi
        }))
}

/// A topic rendered from a key matches a subscription pattern exactly when
/// every pin of the pattern agrees with the key: a pinned subscription
/// receives the topics of its pinned values and no others. This holds
/// provided no segment text, pattern text or wildcard holds the separator,
/// no pinned text is a wildcard, and every boolean field has two different
/// texts.
pub proof fn lemma_pinned_pattern_exact(
    segs: Seq<SegmentSpec>,
    vals: Seq<ValueView>,
    pins: Seq<Option<ValueView>>,
    sep: char,
    single: Seq<char>,
    multi: Seq<char>,
)
    requires
        segs.len() >= 1,
        values_fit(segs, vals),
        fields_readable(segs),
        pins.len() == segs.len(),
        pins_fit(segs, pins, single, multi),
        all_free_of(rendered_parts(segs, vals), sep),
        all_free_of(pattern_parts(segs, pins, single), sep),
        free_of(single, sep),
    ensures
        pattern_matches(
            render_topic(segs, vals, sep),
            join(pattern_parts(segs, pins, single), sep),
            sep,
            single,
            multi,
        ) <==> pins_agree(segs, pins, vals),
{
    let t = rendered_parts(segs, vals);
    let p = pattern_parts(segs, pins, single);
    if pins_agree(segs, pins, vals) {
        lemma_render_matches_pattern(segs, vals, pins, sep, single, multi);
    }
    if pattern_matches(join(t, sep), join(p, sep), sep, single, multi) {
        lemma_split_join(t, sep);
        lemma_split_join(p, sep);
        assert forall|i: int|
            #![trigger pins[i]]
            0 <= i < segs.len() && segs[i] is Field && pins[i] is Some implies pins[i] == Some(
                vals[field_index(segs, i) as int],
            ) by {
            if let SegmentSpec::Field { ty, .. } = segs[i] {
                let v = pins[i]->0;
                let k = field_index(segs, i);
                lemma_field_index_step(segs, i);
                lemma_field_index_monotone(segs, i + 1, segs.len() as int);
                lemma_field_index_full(segs);
                assert(k < vals.len());
                assert(p[i] == value_text(ty, v));
                assert(t[i] == value_text(ty, vals[k as int]));
                if join(t, sep) != join(p, sep) {
                    assert(segments_match(t, p, single, multi));
                    if p.len() > 0 && p.last() == multi {
                        assert(i != p.len() - 1);
                    }
                    assert(segment_accepts(p[i], t[i], single));
                }
                assert(p[i] == t[i]);
                lemma_value_round_trip(ty, v);
                lemma_value_round_trip(ty, vals[k as int]);
            }
        }
    }
}

proof fn lemma_parse_ok_shape(
    segs: Seq<SegmentSpec>,
    parts: Seq<Seq<char>>,
    topic: Seq<char>,
    i: nat,
)
    requires
        i <= segs.len(),
        parse_from(segs, parts, topic, i) is Ok,
    ensures
        parts.len() <= segs.len(),
        i < segs.len() ==> parts.len() == segs.len(),
        forall|j: int|
            #![trigger segs[j]]
            i <= j < segs.len() ==> (segs[j] matches SegmentSpec::Literal(l) ==> parts[j] == l),
    decreases segs.len() - i,
{
    if i < segs.len() {
        lemma_parse_ok_shape(segs, parts, topic, i + 1);
    }
}

/// A topic that parses against a definition has exactly the definition's
/// number of segments, and its literal segments are the definition's
/// literals at the same positions.
pub proof fn lemma_parsed_topic_shape(segs: Seq<SegmentSpec>, topic: Seq<char>, sep: char)
    requires
        segs.len() >= 1,
        parse_topic(segs, topic, sep) is Ok,
    ensures
        split(topic, sep).len() == segs.len(),
        forall|j: int|
            #![trigger segs[j]]
            0 <= j < segs.len() ==> (segs[j] matches SegmentSpec::Literal(l) ==> split(
                topic,
                sep,
            )[j] == l),
{
    lemma_parse_ok_shape(segs, split(topic, sep), topic, 0);
}

/// Every topic that parses against a definition matches the definition's
/// wildcard pattern, provided no literal and not the wildcard holds the
/// separator.
pub proof fn lemma_parsed_matches_wildcard(
    segs: Seq<SegmentSpec>,
    topic: Seq<char>,
    sep: char,
    single: Seq<char>,
    multi: Seq<char>,
)
    requires
        segs.len() >= 1,
        parse_topic(segs, topic, sep) is Ok,
        literals_free_of(segs, sep),
        free_of(single, sep),
    ensures
        pattern_matches(topic, wildcard_topic(segs, sep, single), sep, single, multi),
{
    let t = split(topic, sep);
    let p = pattern_parts(segs, no_pins(segs.len()), single);
    lemma_parse_ok_shape(segs, t, topic, 0);
    assert forall|i: int| 0 <= i < p.len() implies free_of(#[trigger] p[i], sep) by {
        match segs[i] {
            SegmentSpec::Literal(l) => {},
            SegmentSpec::Field { .. } => {},
        }
    }
    lemma_split_join(p, sep);
    assert forall|i: int| 0 <= i < p.len() implies segment_accepts(#[trigger] p[i], t[i], single) by {
        match segs[i] {
            SegmentSpec::Literal(l) => {},
            SegmentSpec::Field { .. } => {},
        }
    }
    assert(segments_match(t, p, single, multi));
}

} // verus!
