//! Matching a concrete topic against a subscription pattern with single- and
//! multi-level wildcards (MQTT `+`/`#`, NATS `*`/`>`, Redis `*`/`*`).
use vstd::prelude::*;
use crate::text::{split, chars_eq, split_chars, str_to_chars, lemma_split_nonempty};

verus! {

/// One pattern segment accepts one topic segment when it is the single-level
/// wildcard or the very same text.
pub open spec fn segment_accepts(p: Seq<char>, t: Seq<char>, single: Seq<char>) -> bool {
    p == single || p == t
}

/// The pattern segments accept the topic segments.
///
/// A pattern whose last segment is the multi-level wildcard matches every
/// topic with at least as many segments whose leading segments are accepted
/// one by one; the wildcard stands for one or more trailing segments.
/// Any other pattern matches topics of exactly its length whose segments are
/// accepted one by one.
pub open spec fn segments_match(
    topic: Seq<Seq<char>>,
    pattern: Seq<Seq<char>>,
    single: Seq<char>,
    multi: Seq<char>,
) -> bool {
    if pattern.len() > 0 && pattern.last() == multi {
        &&& topic.len() >= pattern.len()
        &&& forall|i: int|
            0 <= i < pattern.len() - 1 ==> segment_accepts(
                #[trigger] pattern[i],
                topic[i],
                single,
            )
    } else {
        &&& topic.len() == pattern.len()
        &&& forall|i: int|
            0 <= i < pattern.len() ==> segment_accepts(#[trigger] pattern[i], topic[i], single)
    }
}

/// `topic` matches `pattern`: the two are equal, or their segments (split at
/// `sep`) match.
pub open spec fn pattern_matches(
    topic: Seq<char>,
    pattern: Seq<char>,
    sep: char,
    single: Seq<char>,
    multi: Seq<char>,
) -> bool {
    topic == pattern || segments_match(split(topic, sep), split(pattern, sep), single, multi)
}

/// Match a concrete topic string against a subscription pattern.
///
/// | Protocol | Separator | Single | Multi |
/// |----------|-----------|--------|-------|
/// | MQTT     | `/`       | `+`    | `#`   |
/// | NATS     | `.`       | `*`    | `>`   |
/// | Redis    | `:`       | `*`    | `*`   |
pub fn matches_pattern(topic: &str, pattern: &str, sep: char, single: &str, multi: &str) -> (r:
    bool)
    ensures
        r == pattern_matches(topic@, pattern@, sep, single@, multi@),
{
    let t = str_to_chars(topic);
    let p = str_to_chars(pattern);
    // fast path: exact match
    if chars_eq(t.as_slice(), p.as_slice()) {
        return true;
    }
    let topic_segments = split_chars(t.as_slice(), sep);
    let pattern_segments = split_chars(p.as_slice(), sep);
    let s = str_to_chars(single);
    let m = str_to_chars(multi);
    match_segments(topic_segments.as_slice(), pattern_segments.as_slice(), s.as_slice(), m.as_slice())
}

/// Walks topic and pattern segments side by side.
fn match_segments(topic: &[Vec<char>], pattern: &[Vec<char>], single: &[char], multi: &[char]) -> (r:
    bool)
    ensures
        r == segments_match(
            topic@.map_values(|s: Vec<char>| s@),
            pattern@.map_values(|s: Vec<char>| s@),
            single@,
            multi@,
        ),
{
    let ghost tv = topic@.map_values(|s: Vec<char>| s@);
    let ghost pv = pattern@.map_values(|s: Vec<char>| s@);
    let mut i: usize = 0;
    loop
        invariant
            tv == topic@.map_values(|s: Vec<char>| s@),
            pv == pattern@.map_values(|s: Vec<char>| s@),
            i <= topic@.len(),
            i <= pattern@.len(),
            forall|j: int| 0 <= j < i ==> segment_accepts(#[trigger] pv[j], tv[j], single@),
            (i == pattern@.len() && i > 0) ==> pv.last() != multi@,
        decreases pattern@.len() - i,
    {
        let topic_left = topic.len() - i;
        let pattern_left = pattern.len() - i;
        if topic_left == 0 && pattern_left == 0 {
            // both exhausted: full match
            return true;
        }
        if pattern_left == 1 && chars_eq(pattern[i].as_slice(), multi) {
            // multi wildcard as last pattern segment: matches what remains, if anything
            assert(pv.last() == pv[i as int]);
            return topic_left > 0;
        }
        if topic_left > 0 && pattern_left > 0 {
            let head_matches = chars_eq(pattern[i].as_slice(), single) || chars_eq(
                pattern[i].as_slice(),
                topic[i].as_slice(),
            );
            if !head_matches {
                assert(!segment_accepts(pv[i as int], tv[i as int], single@));
                return false;
            }
            i = i + 1;
        } else {
            // lengths differ and no multi wildcard
            return false;
        }
    }
}

/// Every topic matches itself as a pattern.
pub proof fn lemma_matches_itself(topic: Seq<char>, sep: char, single: Seq<char>, multi: Seq<char>)
    ensures
        pattern_matches(topic, topic, sep, single, multi),
{
}

/// Turning one pattern segment into the single-level wildcard never loses a
/// match, unless that segment is the trailing multi-level wildcard.
pub proof fn lemma_single_wildcard_widens(
    topic: Seq<Seq<char>>,
    pattern: Seq<Seq<char>>,
    single: Seq<char>,
    multi: Seq<char>,
    i: int,
)
    requires
        0 <= i < pattern.len(),
        !(i == pattern.len() - 1 && pattern[i] == multi),
        segments_match(topic, pattern, single, multi),
    ensures
        segments_match(topic, pattern.update(i, single), single, multi),
{
    let q = pattern.update(i, single);
    assert forall|j: int| 0 <= j < q.len() && (j != i) implies #[trigger] q[j] == pattern[j] by {}
    assert(q[i] == single);
}

/// The matching rule, segment by segment (`t` and `p` the topic and pattern
/// split at `sep`): a topic matches a pattern when it is the very same text,
/// or when
/// - the pattern ends in the multi-level wildcard, the topic has at least as
///   many segments, and each pattern segment before the wildcard is the
///   single-level wildcard or the topic's segment at its position; or
/// - the pattern does not end so, the topic has exactly as many segments, and
///   each pattern segment is the single-level wildcard or the topic's segment
///   at its position.
pub proof fn lemma_match_rule(
    topic: Seq<char>,
    pattern: Seq<char>,
    sep: char,
    single: Seq<char>,
    multi: Seq<char>,
)
    ensures
        ({
            let t = split(topic, sep);
            let p = split(pattern, sep);
            pattern_matches(topic, pattern, sep, single, multi) <==> {
                ||| topic == pattern
                ||| {
                    &&& p.last() == multi
                    &&& t.len() >= p.len()
                    &&& forall|i: int|
                        0 <= i < p.len() - 1 ==> #[trigger] p[i] == single || p[i] == t[i]
                }
                ||| {
                    &&& p.last() != multi
                    &&& t.len() == p.len()
                    &&& forall|i: int| 0 <= i < p.len() ==> #[trigger] p[i] == single || p[i] == t[i]
                }
            }
        }),
{
    lemma_split_nonempty(pattern, sep);
}

/// A pattern that does not end in the multi-level wildcard never matches a
/// topic with another number of segments: a deeper or shallower topic is not
/// received.
pub proof fn lemma_exact_length_without_multi(
    topic: Seq<char>,
    pattern: Seq<char>,
    sep: char,
    single: Seq<char>,
    multi: Seq<char>,
)
    requires
        split(pattern, sep).last() != multi,
        split(topic, sep).len() != split(pattern, sep).len(),
    ensures
        !pattern_matches(topic, pattern, sep, single, multi),
{
    lemma_split_nonempty(pattern, sep);
}

/// Under a trailing multi-level wildcard, a matching topic has at least as
/// many segments as the pattern, and every pattern segment before the
/// wildcard is the single-level wildcard or equals the topic's segment at
/// its position.
pub proof fn lemma_multi_checks_prefix(
    topic: Seq<char>,
    pattern: Seq<char>,
    sep: char,
    single: Seq<char>,
    multi: Seq<char>,
)
    requires
        split(pattern, sep).last() == multi,
        pattern_matches(topic, pattern, sep, single, multi),
    ensures
        split(topic, sep).len() >= split(pattern, sep).len(),
        forall|i: int|
            0 <= i < split(pattern, sep).len() - 1 ==> #[trigger] split(pattern, sep)[i] == single
                || split(pattern, sep)[i] == split(topic, sep)[i],
{
    lemma_split_nonempty(pattern, sep);
}

} // verus!
