//! Subscription builders: pin some dynamic segments of a topic definition to
//! concrete values and leave the others as single-level wildcards.
use vstd::prelude::*;
use crate::text::{join, str_to_chars, chars_eq};
use crate::topic::{
    TopicSchema, TopicSegment, SegmentValue, SegmentSpec, ValueView, pattern_parts, pins_view,
    no_pins, segments_view, value_text, copy_segments, build_pattern_text, unpinned,
};

verus! {

/// Trait for typed subscription builders.
///
/// Dynamic segments that have been pinned use their concrete value; the
/// others use the `single` wildcard.
pub trait SubscribeBuilder: Send + 'static {
    /// The pattern the builder stands for.
    spec fn spec_build_pattern(&self, sep: char, single: Seq<char>) -> Seq<char>;

    /// Build the subscription pattern string.
    fn build_pattern(&self, sep: char, single: &'static str) -> (s: String)
        ensures
            s@ == self.spec_build_pattern(sep, single@),
    ;
}

/// A subscription builder for a [`TopicSchema`]: one optional pin per segment.
pub struct PatternBuilder {
    segments: Vec<TopicSegment>,
    pins: Vec<Option<SegmentValue>>,
}

/// The pins after pinning every dynamic segment named `field` to `v`.
pub open spec fn pin_field(
    segs: Seq<SegmentSpec>,
    pins: Seq<Option<ValueView>>,
    field: Seq<char>,
    v: ValueView,
) -> Seq<Option<ValueView>> {
    Seq::new(
        pins.len(),
        |i: int|
            if segs[i] matches SegmentSpec::Field { name, .. } && name == field {
                Some(v)
            } else {
                pins[i]
            },
    )
}

impl PatternBuilder {
    /// One pin per segment.
    #[verifier::type_invariant]
    spec fn inv(&self) -> bool {
        self.pins@.len() == self.segments@.len()
    }

    pub closed spec fn spec_segments(&self) -> Seq<SegmentSpec> {
        segments_view(self.segments@)
    }

    pub closed spec fn spec_pins(&self) -> Seq<Option<ValueView>> {
        pins_view(self.pins@)
    }

    /// Pins every dynamic segment that takes its value from `field` to
    /// `value`; the other pins stay as they are.
    pub fn pin(self, field: &str, value: SegmentValue) -> (b: Self)
        ensures
            b.spec_segments() == self.spec_segments(),
            b.spec_pins() == pin_field(self.spec_segments(), self.spec_pins(), field@, value@),
    {
        proof {
            use_type_invariant(&self);
        }
        let ghost segs = self.spec_segments();
        let ghost old_pins = self.spec_pins();
        let PatternBuilder { segments, mut pins } = self;
        let name = str_to_chars(field);
        let mut i: usize = 0;
        while i < segments.len()
            invariant
                segs == segments_view(segments@),
                pins@.len() == segments@.len(),
                old_pins.len() == segments@.len(),
                name@ == field@,
                0 <= i <= segments@.len(),
                forall|j: int|
                    0 <= j < i ==> #[trigger] pins_view(pins@)[j] == pin_field(
                        segs,
                        old_pins,
                        field@,
                        value@,
                    )[j],
                forall|j: int| i <= j < pins@.len() ==> #[trigger] pins_view(pins@)[j] == old_pins[j],
            decreases segments@.len() - i,
        {
            assert(segs[i as int] == segments@[i as int]@);
            let hit = match &segments[i] {
                TopicSegment::Field { name: field_name, .. } => chars_eq(
                    str_to_chars(field_name.as_str()).as_slice(),
                    name.as_slice(),
                ),
                TopicSegment::Literal(_) => false,
            };
            let ghost before = pins@;
            if hit {
                let v = value.clone();
                pins.set(i, Some(v));
                assert(pins_view(pins@) =~= pins_view(before).update(i as int, Some(value@)));
            }
            i = i + 1;
        }
        assert(pins_view(pins@) =~= pin_field(segs, old_pins, field@, value@));
        PatternBuilder { segments, pins }
    }
}

impl SubscribeBuilder for PatternBuilder {
    open spec fn spec_build_pattern(&self, sep: char, single: Seq<char>) -> Seq<char> {
        join(pattern_parts(self.spec_segments(), self.spec_pins(), single), sep)
    }

    fn build_pattern(&self, sep: char, single: &'static str) -> (s: String) {
        proof {
            use_type_invariant(self);
        }
        build_pattern_text(&self.segments, &self.pins, sep, single)
    }
}

impl TopicSchema {
    /// A subscription builder with nothing pinned.
    pub fn subscribe_builder(&self) -> (b: PatternBuilder)
        ensures
            b.spec_segments() == self.spec_segments(),
            b.spec_pins() == no_pins(self.spec_segments().len()),
    {
        let segments = copy_segments(self.segments());
        let pins = unpinned(segments.len());
        PatternBuilder { segments, pins }
    }
}

/// Pinning a field sets the pin of every dynamic segment named `field` to
/// `v` and leaves every other pin, and the number of pins, as it was.
pub proof fn lemma_pin_sets_only_its_field(
    segs: Seq<SegmentSpec>,
    pins: Seq<Option<ValueView>>,
    field: Seq<char>,
    v: ValueView,
)
    requires
        pins.len() == segs.len(),
    ensures
        pin_field(segs, pins, field, v).len() == pins.len(),
        forall|i: int|
            0 <= i < segs.len() ==> (#[trigger] pin_field(segs, pins, field, v)[i] == if segs[i] matches SegmentSpec::Field { name, .. } && name == field {
                Some(v)
            } else {
                pins[i]
            }),
{
}

/// Pins accumulate: after pinning `f1` to `v1` and then another field `f2`
/// to `v2`, the segments named `f1` keep `v1`, those named `f2` hold `v2`,
/// and every other segment keeps its earlier pin.
pub proof fn lemma_pins_accumulate(
    segs: Seq<SegmentSpec>,
    pins: Seq<Option<ValueView>>,
    f1: Seq<char>,
    v1: ValueView,
    f2: Seq<char>,
    v2: ValueView,
)
    requires
        pins.len() == segs.len(),
        f1 != f2,
    ensures
        ({
            let after = pin_field(segs, pin_field(segs, pins, f1, v1), f2, v2);
            &&& after.len() == pins.len()
            &&& forall|i: int|
                0 <= i < segs.len() ==> (#[trigger] after[i] == if segs[i] matches SegmentSpec::Field { name, .. } && name == f1 {
                    Some(v1)
                } else if segs[i] matches SegmentSpec::Field { name, .. } && name == f2 {
                    Some(v2)
                } else {
                    pins[i]
                })
        }),
{
}

/// The pattern a builder gives: literal segments as they are, pinned
/// dynamic segments as the text of their pinned value, and unpinned ones as
/// the single-level wildcard, joined with `sep`.
pub proof fn lemma_pattern_segments(
    segs: Seq<SegmentSpec>,
    pins: Seq<Option<ValueView>>,
    single: Seq<char>,
)
    requires
        pins.len() == segs.len(),
    ensures
        pattern_parts(segs, pins, single).len() == segs.len(),
        forall|i: int|
            0 <= i < segs.len() ==> (#[trigger] pattern_parts(segs, pins, single)[i] == match segs[i] {
                SegmentSpec::Literal(l) => l,
                SegmentSpec::Field { ty, .. } => match pins[i] {
                    Some(v) => value_text(ty, v),
                    None => single,
                },
            }),
{
}

} // verus!
