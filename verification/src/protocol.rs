//! Wire conventions of the supported pub/sub protocols: the topic separator
//! and the single- and multi-level wildcard tokens.
use vstd::prelude::*;
use crate::text::free_of;

verus! {

/// Defines the wire format conventions for a pub/sub protocol.
///
/// ```text
/// MQTT  -> '/'  "+"  "#"    sensors/+/temperature, sensors/#
/// NATS  -> '.'  "*"  ">"    sensors.*.temperature, sensors.>
/// Redis -> ':'  "*"  "*"    sensors:*:temperature
/// ```
pub trait Protocol: Send + Sync + 'static {
    /// The character used to separate topic segments on the wire.
    const SEPARATOR: char;

    /// The wildcard token matching exactly one topic segment.
    const SINGLE_WILDCARD: &'static str;

    /// The wildcard token matching one or more trailing segments.
    const MULTI_WILDCARD: &'static str;
}

/// MQTT protocol marker: `/` separator, `+` single-level and `#`
/// multi-level wildcards (MQTT 3.1.1 and 5.0).
pub struct Mqtt;

impl Protocol for Mqtt {
    const SEPARATOR: char = '/';
    const SINGLE_WILDCARD: &'static str = "+";
    const MULTI_WILDCARD: &'static str = "#";
}

/// NATS protocol marker: `.` separator, `*` single-token and `>`
/// multi-token wildcards.
pub struct Nats;

impl Protocol for Nats {
    const SEPARATOR: char = '.';
    const SINGLE_WILDCARD: &'static str = "*";
    const MULTI_WILDCARD: &'static str = ">";
}

/// Redis pub/sub protocol marker: `:` separator; `*` serves as both the
/// single and the multi wildcard (glob matching, no true multi-level).
pub struct Redis;

impl Protocol for Redis {
    const SEPARATOR: char = ':';
    const SINGLE_WILDCARD: &'static str = "*";
    const MULTI_WILDCARD: &'static str = "*";
}

/// The wildcard tokens of the shipped protocols hold no separator, so
/// subscription patterns split into segments exactly where topics do.
pub proof fn lemma_wildcards_free_of_separator()
    ensures
        free_of(Mqtt::SINGLE_WILDCARD@, Mqtt::SEPARATOR),
        free_of(Mqtt::MULTI_WILDCARD@, Mqtt::SEPARATOR),
        free_of(Nats::SINGLE_WILDCARD@, Nats::SEPARATOR),
        free_of(Nats::MULTI_WILDCARD@, Nats::SEPARATOR),
        free_of(Redis::SINGLE_WILDCARD@, Redis::SEPARATOR),
        free_of(Redis::MULTI_WILDCARD@, Redis::SEPARATOR),
{
    reveal_strlit("+");
    reveal_strlit("#");
    reveal_strlit("*");
    reveal_strlit(">");
}

} // verus!
