use matrix_timeline::event::{RawContent, RawEvent, TimelineEventType, TimelineEventTypeFilter};
use matrix_timeline::item::{OtherStateContent, TimelineItem, TimelineItemContent, VectorDiff};
use matrix_timeline::timeline::{Timeline, TimelineSettings};

const ALICE: &str = "@alice:server.name";
const BOB: &str = "@bob:other.server";

fn default_settings() -> TimelineSettings {
    TimelineSettings {
        add_failed_to_parse: true,
        event_type_filter: TimelineEventTypeFilter::Exclude(vec![]),
    }
}

fn event(id: &str, sender: &str, ts: u64, content: RawContent) -> RawEvent {
    RawEvent {
        event_id: id.to_string(),
        sender: sender.to_string(),
        origin_server_ts: ts,
        transaction_id: None,
        content,
    }
}

fn text_msg(id: &str, sender: &str, body: &str) -> RawEvent {
    event(id, sender, 1, RawContent::Message { body: Some(body.to_string()) })
}

fn room_name(id: &str, name: &str) -> RawEvent {
    event(id, ALICE, 2, RawContent::RoomName { name: Some(name.to_string()) })
}

fn room_topic(id: &str, topic: &str) -> RawEvent {
    event(id, ALICE, 3, RawContent::RoomTopic { topic: Some(topic.to_string()) })
}

fn member_join(id: &str) -> RawEvent {
    event(
        id,
        ALICE,
        4,
        RawContent::Member { state_key: ALICE.to_string(), membership: Some("join".to_string()) },
    )
}

/// The acceptance predicate of a timeline that keeps message-like events only.
fn is_message_like(ev: &RawEvent) -> bool {
    !matches!(
        ev.content,
        RawContent::Member { .. } | RawContent::RoomName { .. } | RawContent::RoomTopic { .. }
    )
}

fn is_text_message_item(item: &TimelineItem) -> bool {
    matches!(item.content, TimelineItemContent::Message { .. })
}

fn is_room_name_item(item: &TimelineItem) -> bool {
    matches!(
        item.content,
        TimelineItemContent::OtherState { content: OtherStateContent::RoomName(_) }
    )
}

fn is_room_topic_item(item: &TimelineItem) -> bool {
    matches!(
        item.content,
        TimelineItemContent::OtherState { content: OtherStateContent::RoomTopic(_) }
    )
}

#[test]
fn test_default_filter() {
    let mut timeline = Timeline::new(default_settings());

    // Edits work.
    let d = timeline.handle_live_event(&text_msg("$1", ALICE, "The first message"), true);
    assert!(matches!(d, Some(VectorDiff::PushBack { .. })));
    let edit = event(
        "$2",
        ALICE,
        5,
        RawContent::Edit { target: "$1".to_string(), body: "The _edited_ first message".to_string() },
    );
    match timeline.handle_live_event(&edit, true) {
        Some(VectorDiff::SetAt { index: 0, value }) => match value.content {
            TimelineItemContent::Message { body, edited, .. } => {
                assert_eq!(body, "The _edited_ first message");
                assert!(edited);
            }
            _ => panic!("not a message"),
        },
        _ => panic!("expected a SetAt diff"),
    }

    // Redactions work.
    let d = timeline.handle_live_event(&text_msg("$3", ALICE, "The second message"), true);
    assert!(matches!(d, Some(VectorDiff::PushBack { .. })));
    let redaction = event("$4", BOB, 6, RawContent::Redaction { target: "$3".to_string() });
    match timeline.handle_live_event(&redaction, true) {
        Some(VectorDiff::SetAt { index: 1, value }) => assert!(value.content.is_redacted()),
        _ => panic!("expected a SetAt diff"),
    }

    // Reactions work.
    let d = timeline.handle_live_event(&text_msg("$5", ALICE, "The third message"), true);
    assert!(matches!(d, Some(VectorDiff::PushBack { .. })));
    let reaction = event(
        "$6",
        BOB,
        7,
        RawContent::Reaction { target: "$5".to_string(), key: "+1".to_string() },
    );
    match timeline.handle_live_event(&reaction, true) {
        Some(VectorDiff::SetAt { index: 2, value }) => assert_eq!(value.content.reaction_count(), 1),
        _ => panic!("expected a SetAt diff"),
    }
    // Redacting the second message again does not touch the third one.
    let again = event("$7", BOB, 8, RawContent::Redaction { target: "$3".to_string() });
    assert!(timeline.handle_live_event(&again, true).is_none());
    assert_eq!(timeline.items()[2].content.reaction_count(), 1);

    assert_eq!(timeline.len(), 3);
}

#[test]
fn test_filter_always_false() {
    let mut timeline = Timeline::new(default_settings());

    timeline.handle_live_event(&text_msg("$1", ALICE, "The first message"), false);
    timeline.handle_live_event(&event("$2", ALICE, 2, RawContent::RedactedMessage), false);
    timeline.handle_live_event(&member_join("$3"), false);
    timeline.handle_live_event(&room_name("$4", "Alice's room"), false);

    assert_eq!(timeline.len(), 0);
}

#[test]
fn test_custom_filter() {
    let mut timeline = Timeline::new(default_settings());

    let ev = text_msg("$1", ALICE, "The first message");
    let d = timeline.handle_live_event(&ev, is_message_like(&ev));
    assert!(matches!(d, Some(VectorDiff::PushBack { .. })));

    let ev = event("$2", ALICE, 2, RawContent::RedactedMessage);
    let d = timeline.handle_live_event(&ev, is_message_like(&ev));
    assert!(matches!(d, Some(VectorDiff::PushBack { .. })));

    let ev = member_join("$3");
    assert!(timeline.handle_live_event(&ev, is_message_like(&ev)).is_none());

    let ev = room_name("$4", "Alice's room");
    assert!(timeline.handle_live_event(&ev, is_message_like(&ev)).is_none());

    assert_eq!(timeline.len(), 2);
}

#[test]
fn test_hide_failed_to_parse() {
    let mut timeline = Timeline::new(TimelineSettings {
        add_failed_to_parse: false,
        event_type_filter: TimelineEventTypeFilter::Exclude(vec![]),
    });

    // A message without its required fields.
    let msg = event("$eeG0HA0FAZ37wP8kXlNkxx3I", "@alice:example.org", 10, RawContent::Message {
        body: None,
    });
    assert!(timeline.handle_live_event(&msg, true).is_none());

    // A membership change without its required fields.
    let member = event("$d5G0HA0FAZ37wP8kXlNkxx3I", "@alice:example.org", 2179, RawContent::Member {
        state_key: "@alice:example.org".to_string(),
        membership: None,
    });
    assert!(timeline.handle_live_event(&member, true).is_none());

    assert_eq!(timeline.len(), 0);
}

#[test]
fn test_event_type_filter_include_only_room_names() {
    let mut timeline = Timeline::new(TimelineSettings {
        add_failed_to_parse: true,
        event_type_filter: TimelineEventTypeFilter::Include(vec![TimelineEventType::RoomName]),
    });

    timeline.handle_live_event(&text_msg("$1", ALICE, "The first message"), true);
    timeline.handle_live_event(&room_name("$2", "A new room name"), true);
    timeline.handle_live_event(&room_name("$3", "A new room name (again)"), true);
    timeline.handle_live_event(&room_topic("$4", "A new room topic"), true);

    let items = timeline.items();
    assert_eq!(items.len(), 2);
    assert_eq!(items.iter().filter(|i| is_text_message_item(i)).count(), 0);
    assert_eq!(items.iter().filter(|i| is_room_name_item(i)).count(), 2);
    assert_eq!(items.iter().filter(|i| is_room_topic_item(i)).count(), 0);
}

#[test]
fn test_event_type_filter_exclude_messages() {
    let mut timeline = Timeline::new(TimelineSettings {
        add_failed_to_parse: true,
        event_type_filter: TimelineEventTypeFilter::Exclude(vec![TimelineEventType::RoomMessage]),
    });

    timeline.handle_live_event(&text_msg("$1", ALICE, "The first message"), true);
    timeline.handle_live_event(&room_name("$2", "A new room name"), true);
    timeline.handle_live_event(&room_name("$3", "A new room name (again)"), true);
    timeline.handle_live_event(&room_topic("$4", "A new room topic"), true);

    let items = timeline.items();
    assert_eq!(items.len(), 3);
    assert_eq!(items.iter().filter(|i| is_text_message_item(i)).count(), 0);
    assert_eq!(items.iter().filter(|i| is_room_name_item(i)).count(), 2);
    assert_eq!(items.iter().filter(|i| is_room_topic_item(i)).count(), 1);
}

#[test]
fn test_show_failed_to_parse() {
    let mut timeline = Timeline::new(default_settings());
    let msg = event("$bad", ALICE, 10, RawContent::Message { body: None });
    // A malformed event is not judged by the acceptance predicate.
    match timeline.handle_live_event(&msg, false) {
        Some(VectorDiff::PushBack { value }) => assert!(matches!(
            value.content,
            TimelineItemContent::FailedToParse { event_type: TimelineEventType::RoomMessage }
        )),
        _ => panic!("expected a PushBack diff"),
    }
    assert_eq!(timeline.len(), 1);
}
