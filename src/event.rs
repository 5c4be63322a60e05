//! Raw protocol events as they reach the timeline, their classification and
//! the event-type filter.

use vstd::prelude::*;

verus! {

/// The protocol type of an event.
#[derive(PartialEq, Eq, Structural, Clone, Copy, Debug)]
pub enum TimelineEventType {
    RoomMessage,
    Reaction,
    RoomRedaction,
    RoomMember,
    RoomName,
    RoomTopic,
}

/// The content of a raw event. A field that the protocol requires and that
/// is missing is `None`: such an event fails to parse.
#[derive(Clone, Debug)]
pub enum RawContent {
    /// A message; `body` is absent when the content lacks its required fields.
    Message { body: Option<String> },
    /// A message whose content was already removed by a redaction.
    RedactedMessage,
    /// A message that replaces the body of the earlier message `target`.
    Edit { target: String, body: String },
    /// An annotation `key` attached to the event `target`.
    Reaction { target: String, key: String },
    /// Removal of the content of the event `target`.
    Redaction { target: String },
    /// A membership change of the user `state_key`.
    Member { state_key: String, membership: Option<String> },
    /// A new room name.
    RoomName { name: Option<String> },
    /// A new room topic.
    RoomTopic { topic: Option<String> },
}

/// A protocol event, already decrypted.
#[derive(Clone, Debug)]
pub struct RawEvent {
    pub event_id: String,
    pub sender: String,
    pub origin_server_ts: u64,
    /// The transaction id of a local send that this event echoes back.
    pub transaction_id: Option<String>,
    pub content: RawContent,
}

/// Which event types a timeline shows.
#[derive(Clone, Debug)]
pub enum TimelineEventTypeFilter {
    /// Only the listed types pass.
    Include(Vec<TimelineEventType>),
    /// All but the listed types pass.
    Exclude(Vec<TimelineEventType>),
}

pub open spec fn content_type(c: RawContent) -> TimelineEventType {
    match c {
        RawContent::Message { .. } => TimelineEventType::RoomMessage,
        RawContent::RedactedMessage => TimelineEventType::RoomMessage,
        RawContent::Edit { .. } => TimelineEventType::RoomMessage,
        RawContent::Reaction { .. } => TimelineEventType::Reaction,
        RawContent::Redaction { .. } => TimelineEventType::RoomRedaction,
        RawContent::Member { .. } => TimelineEventType::RoomMember,
        RawContent::RoomName { .. } => TimelineEventType::RoomName,
        RawContent::RoomTopic { .. } => TimelineEventType::RoomTopic,
    }
}

/// An event whose content lacks a required field.
pub open spec fn content_is_malformed(c: RawContent) -> bool {
    match c {
        RawContent::Message { body } => body is None,
        RawContent::Member { membership, .. } => membership is None,
        RawContent::RoomName { name } => name is None,
        RawContent::RoomTopic { topic } => topic is None,
        _ => false,
    }
}

/// An event that refers to another one instead of standing on its own.
pub open spec fn content_is_relation(c: RawContent) -> bool {
    c is Edit || c is Reaction || c is Redaction
}

pub open spec fn filter_passes(f: TimelineEventTypeFilter, t: TimelineEventType) -> bool {
    match f {
        TimelineEventTypeFilter::Include(ts) => ts@.contains(t),
        TimelineEventTypeFilter::Exclude(ts) => !ts@.contains(t),
    }
}

impl RawContent {
    /// The protocol type of this content.
    pub fn event_type(&self) -> (r: TimelineEventType)
        ensures
            r == content_type(*self),
    {
        match self {
            RawContent::Message { .. } => TimelineEventType::RoomMessage,
            RawContent::RedactedMessage => TimelineEventType::RoomMessage,
            RawContent::Edit { .. } => TimelineEventType::RoomMessage,
            RawContent::Reaction { .. } => TimelineEventType::Reaction,
            RawContent::Redaction { .. } => TimelineEventType::RoomRedaction,
            RawContent::Member { .. } => TimelineEventType::RoomMember,
            RawContent::RoomName { .. } => TimelineEventType::RoomName,
            RawContent::RoomTopic { .. } => TimelineEventType::RoomTopic,
        }
    }

    /// Whether a required field of this content is missing.
    pub fn is_malformed(&self) -> (r: bool)
        ensures
            r == content_is_malformed(*self),
    {
        match self {
            RawContent::Message { body } => body.is_none(),
            RawContent::Member { membership, .. } => membership.is_none(),
            RawContent::RoomName { name } => name.is_none(),
            RawContent::RoomTopic { topic } => topic.is_none(),
            _ => false,
        }
    }
}

impl TimelineEventTypeFilter {
    /// Whether an event of type `t` passes this filter.
    pub fn filter(&self, t: TimelineEventType) -> (r: bool)
        ensures
            r == filter_passes(*self, t),
    {
        let (ts, listed_pass) = match self {
            TimelineEventTypeFilter::Include(ts) => (ts, true),
            TimelineEventTypeFilter::Exclude(ts) => (ts, false),
        };
        let mut i: usize = 0;
        while i < ts.len()
            invariant
                0 <= i <= ts@.len(),
                forall|j: int| 0 <= j < i ==> ts@[j] != t,
                filter_passes(*self, t) == (if listed_pass {
                    ts@.contains(t)
                } else {
                    !ts@.contains(t)
                }),
            decreases ts@.len() - i,
        {
            if ts[i] == t {
                assert(ts@.contains(t));
                return listed_pass;
            }
            i = i + 1;
        }
        assert(!ts@.contains(t));
        !listed_pass
    }
}

} // verus!
