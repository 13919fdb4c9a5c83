//! Messages as a transport carries them, and the decision a subscription
//! stream takes for each event of its transport.
use vstd::prelude::*;
use bytes::Bytes;
use crate::matching::{matches_pattern, pattern_matches};
use crate::payload::bytes_content;

verus! {

/// A raw message received from the broker: the topic string as received and
/// the raw payload bytes.
#[derive(Debug, Clone)]
pub struct RawMessage {
    pub topic: String,
    pub payload: Bytes,
}

/// What a subscription stream's transport hands it next.
#[derive(Debug)]
pub enum StreamEvent {
    /// A published message.
    Message(RawMessage),
    /// Messages were dropped because the stream fell behind.
    Lagged,
    /// The transport is closed.
    Closed,
}

/// What a subscription stream does with an event.
#[derive(Debug)]
pub enum StreamStep {
    /// Hand the message to the subscriber.
    Deliver(RawMessage),
    /// Wait for the next event.
    Skip,
    /// The stream is over.
    End,
}

/// A stream subscribed to `pattern` delivers the messages whose topic matches
/// the pattern, skips the others and lag notices, and ends when its
/// transport closes.
pub fn stream_step(event: StreamEvent, pattern: &str, sep: char, single: &str, multi: &str) -> (s:
    StreamStep)
    ensures
        match event {
            StreamEvent::Message(m) => if pattern_matches(m.topic@, pattern@, sep, single@, multi@) {
                s matches StreamStep::Deliver(d) && d.topic@ == m.topic@ && bytes_content(d.payload)
                    == bytes_content(m.payload)
            } else {
                s is Skip
            },
            StreamEvent::Lagged => s is Skip,
            StreamEvent::Closed => s is End,
        },
{
    match event {
        StreamEvent::Message(m) => {
            if matches_pattern(m.topic.as_str(), pattern, sep, single, multi) {
                StreamStep::Deliver(m)
            } else {
                StreamStep::Skip
            }
        },
        StreamEvent::Lagged => StreamStep::Skip,
        StreamEvent::Closed => StreamStep::End,
    }
}

} // verus!
