use matrix_timeline::event::{RawContent, RawEvent, TimelineEventTypeFilter};
use matrix_timeline::item::{apply_diff, SendState, TimelineItem, TimelineItemContent, VectorDiff};
use matrix_timeline::timeline::{Timeline, TimelineSettings};

fn settings() -> TimelineSettings {
    TimelineSettings {
        add_failed_to_parse: true,
        event_type_filter: TimelineEventTypeFilter::Exclude(vec![]),
    }
}

fn ev(id: &str, sender: &str, content: RawContent) -> RawEvent {
    RawEvent {
        event_id: id.to_string(),
        sender: sender.to_string(),
        origin_server_ts: 1000,
        transaction_id: None,
        content,
    }
}

fn msg(id: &str, sender: &str, body: &str) -> RawEvent {
    ev(id, sender, RawContent::Message { body: Some(body.to_string()) })
}

fn edit(id: &str, sender: &str, target: &str, body: &str) -> RawEvent {
    ev(id, sender, RawContent::Edit { target: target.to_string(), body: body.to_string() })
}

fn redact(id: &str, target: &str) -> RawEvent {
    ev(id, "@mod:x", RawContent::Redaction { target: target.to_string() })
}

fn react(id: &str, sender: &str, target: &str, key: &str) -> RawEvent {
    ev(id, sender, RawContent::Reaction { target: target.to_string(), key: key.to_string() })
}

fn body_of(item: &TimelineItem) -> String {
    match &item.content {
        TimelineItemContent::Message { body, .. } => body.clone(),
        _ => panic!("not a message"),
    }
}

#[test]
fn scenario_send_then_edit() {
    let mut t = Timeline::new(settings());
    match t.handle_live_event(&msg("$a", "@a:x", "hello"), true) {
        Some(VectorDiff::PushBack { value }) => assert_eq!(body_of(&value), "hello"),
        _ => panic!("expected PushBack"),
    }
    match t.handle_live_event(&edit("$b", "@a:x", "$a", "hello!"), true) {
        Some(VectorDiff::SetAt { index, value }) => {
            assert_eq!(index, 0);
            assert_eq!(body_of(&value), "hello!");
        }
        _ => panic!("expected SetAt"),
    }
    assert_eq!(t.len(), 1);
}

#[test]
fn scenario_send_then_redact() {
    let mut t = Timeline::new(settings());
    assert!(matches!(
        t.handle_live_event(&msg("$m2", "@a:x", "msg2"), true),
        Some(VectorDiff::PushBack { .. })
    ));
    match t.handle_live_event(&redact("$r", "$m2"), true) {
        Some(VectorDiff::SetAt { index, value }) => {
            assert_eq!(index, 0);
            assert!(value.content.is_redacted());
        }
        _ => panic!("expected SetAt"),
    }
}

#[test]
fn scenario_react_then_unrelated_redaction() {
    let mut t = Timeline::new(settings());
    t.handle_live_event(&msg("$m1", "@a:x", "earlier"), true);
    assert!(matches!(
        t.handle_live_event(&msg("$m3", "@a:x", "msg3"), true),
        Some(VectorDiff::PushBack { .. })
    ));
    match t.handle_live_event(&react("$re", "@b:x", "$m3", "+1"), true) {
        Some(VectorDiff::SetAt { index, value }) => {
            assert_eq!(index, 1);
            match &value.content {
                TimelineItemContent::Message { reactions, .. } => {
                    assert_eq!(reactions.len(), 1);
                    assert_eq!(reactions[0].key, "+1");
                    assert_eq!(reactions[0].sender, "@b:x");
                }
                _ => panic!("not a message"),
            }
        }
        _ => panic!("expected SetAt"),
    }
    let d = t.handle_live_event(&redact("$r", "$m1"), true);
    assert!(matches!(d, Some(VectorDiff::SetAt { index: 0, .. })));
    assert_eq!(t.items()[1].content.reaction_count(), 1);
}

#[test]
fn redacting_twice_emits_one_diff() {
    let mut t = Timeline::new(settings());
    t.handle_live_event(&msg("$m", "@a:x", "x"), true);
    assert!(t.handle_live_event(&redact("$r1", "$m"), true).is_some());
    assert!(t.handle_live_event(&redact("$r2", "$m"), true).is_none());
    assert!(t.items()[0].content.is_redacted());
}

#[test]
fn same_edit_twice_changes_nothing_more() {
    let mut t = Timeline::new(settings());
    t.handle_live_event(&msg("$m", "@a:x", "x"), true);
    let e = edit("$e", "@a:x", "$m", "y");
    assert!(t.handle_live_event(&e, true).is_some());
    let before = t.items();
    assert!(t.handle_live_event(&e, true).is_none());
    assert_eq!(t.len(), 1);
    assert_eq!(body_of(&t.items()[0]), "y");
    assert_eq!(body_of(&before[0]), "y");
}

#[test]
fn edit_by_another_sender_is_dropped() {
    let mut t = Timeline::new(settings());
    t.handle_live_event(&msg("$m", "@a:x", "x"), true);
    assert!(t.handle_live_event(&edit("$e", "@b:x", "$m", "y"), true).is_none());
    assert_eq!(body_of(&t.items()[0]), "x");
}

#[test]
fn relations_to_missing_targets_are_dropped() {
    let mut t = Timeline::new(settings());
    t.handle_live_event(&msg("$m", "@a:x", "x"), true);
    assert!(t.handle_live_event(&edit("$e", "@a:x", "$nope", "y"), true).is_none());
    assert!(t.handle_live_event(&react("$re", "@a:x", "$nope", "+1"), true).is_none());
    assert!(t.handle_live_event(&redact("$r", "$nope"), true).is_none());
    assert_eq!(t.len(), 1);
}

#[test]
fn duplicate_event_is_ignored() {
    let mut t = Timeline::new(settings());
    assert!(t.handle_live_event(&msg("$m", "@a:x", "x"), true).is_some());
    assert!(t.handle_live_event(&msg("$m", "@a:x", "x"), true).is_none());
    assert_eq!(t.len(), 1);
}

#[test]
fn redacting_a_reaction_removes_only_that_entry() {
    let mut t = Timeline::new(settings());
    t.handle_live_event(&msg("$m", "@a:x", "x"), true);
    t.handle_live_event(&react("$r1", "@b:x", "$m", "+1"), true);
    t.handle_live_event(&react("$r2", "@c:x", "$m", "+1"), true);
    assert_eq!(t.items()[0].content.reaction_count(), 2);
    match t.handle_live_event(&redact("$x", "$r1"), true) {
        Some(VectorDiff::SetAt { index: 0, value }) => match &value.content {
            TimelineItemContent::Message { reactions, .. } => {
                assert_eq!(reactions.len(), 1);
                assert_eq!(reactions[0].event_id, "$r2");
            }
            _ => panic!("not a message"),
        },
        _ => panic!("expected SetAt"),
    }
    assert_eq!(body_of(&t.items()[0]), "x");
}

#[test]
fn redaction_clears_reactions() {
    let mut t = Timeline::new(settings());
    t.handle_live_event(&msg("$m", "@a:x", "x"), true);
    t.handle_live_event(&react("$r1", "@b:x", "$m", "+1"), true);
    t.handle_live_event(&redact("$x", "$m"), true);
    assert_eq!(t.items()[0].content.reaction_count(), 0);
    assert!(t.items()[0].content.is_redacted());
}

#[test]
fn local_echo_is_confirmed_in_place() {
    let mut t = Timeline::new(settings());
    t.handle_live_event(&msg("$0", "@b:x", "first"), true);
    let d = t.send_local("@a:x".to_string(), "hi".to_string(), "txn1".to_string(), 5);
    match d {
        VectorDiff::PushBack { value } => {
            assert_eq!(value.send_state, SendState::Sending);
            assert!(value.event_id.is_none());
        }
        _ => panic!("expected PushBack"),
    }
    let mut echo = msg("$e", "@a:x", "hi");
    echo.transaction_id = Some("txn1".to_string());
    match t.handle_live_event(&echo, true) {
        Some(VectorDiff::SetAt { index, value }) => {
            assert_eq!(index, 1);
            assert_eq!(value.send_state, SendState::Sent);
            assert_eq!(value.event_id, Some("$e".to_string()));
        }
        _ => panic!("expected SetAt"),
    }
    assert_eq!(t.len(), 2);
    // The echo again: already known.
    assert!(t.handle_live_event(&echo, true).is_none());
    assert_eq!(t.len(), 2);
}

#[test]
fn failed_send_stays_visible() {
    let mut t = Timeline::new(settings());
    t.send_local("@a:x".to_string(), "hi".to_string(), "txn1".to_string(), 5);
    match t.mark_send_failed(&"txn1".to_string()) {
        Some(VectorDiff::SetAt { index: 0, value }) => assert_eq!(value.send_state, SendState::SendError),
        _ => panic!("expected SetAt"),
    }
    assert!(t.mark_send_failed(&"txn1".to_string()).is_none());
    assert!(t.mark_send_failed(&"other".to_string()).is_none());
    assert_eq!(t.len(), 1);
}

#[test]
fn back_pagination_prepends() {
    let mut t = Timeline::new(settings());
    t.handle_live_event(&msg("$2", "@a:x", "new"), true);
    match t.handle_back_paginated_event(&msg("$1", "@a:x", "old"), true) {
        Some(VectorDiff::PushFront { value }) => assert_eq!(body_of(&value), "old"),
        _ => panic!("expected PushFront"),
    }
    let items = t.items();
    assert_eq!(body_of(&items[0]), "old");
    assert_eq!(body_of(&items[1]), "new");
}

#[test]
fn subscriber_mirror_follows_diffs() {
    let mut t = Timeline::new(settings());
    t.handle_live_event(&msg("$1", "@a:x", "one"), true);
    let mut mirror: Vec<TimelineItem> = Vec::new();
    apply_diff(&mut mirror, t.subscribe());
    let events = vec![
        msg("$2", "@a:x", "two"),
        edit("$3", "@a:x", "$1", "uno"),
        react("$4", "@b:x", "$2", "+1"),
        redact("$5", "$4"),
        redact("$6", "$2"),
    ];
    for e in &events {
        if let Some(d) = t.handle_live_event(e, true) {
            apply_diff(&mut mirror, d);
        }
    }
    if let Some(d) = t.handle_back_paginated_event(&msg("$0", "@a:x", "zero"), true) {
        apply_diff(&mut mirror, d);
    }
    let items = t.items();
    assert_eq!(mirror.len(), items.len());
    assert_eq!(items.len(), 3);
    for (a, b) in mirror.iter().zip(items.iter()) {
        assert_eq!(a.internal_id, b.internal_id);
        assert_eq!(a.event_id, b.event_id);
        assert_eq!(a.content.is_redacted(), b.content.is_redacted());
    }
    assert_eq!(body_of(&mirror[1]), "uno");
}

#[test]
fn apply_diff_operations() {
    let mut t = Timeline::new(settings());
    t.handle_live_event(&msg("$1", "@a:x", "one"), true);
    t.handle_live_event(&msg("$2", "@a:x", "two"), true);
    let items = t.items();
    let mut list: Vec<TimelineItem> = Vec::new();
    apply_diff(&mut list, VectorDiff::Insert { index: 0, value: items[1].clone() });
    apply_diff(&mut list, VectorDiff::Insert { index: 0, value: items[0].clone() });
    assert_eq!(body_of(&list[0]), "one");
    apply_diff(&mut list, VectorDiff::Remove { index: 0 });
    assert_eq!(list.len(), 1);
    assert_eq!(body_of(&list[0]), "two");
    apply_diff(&mut list, VectorDiff::Clear);
    assert!(list.is_empty());
}

#[test]
fn internal_ids_are_distinct() {
    let mut t = Timeline::new(settings());
    t.handle_live_event(&msg("$1", "@a:x", "one"), true);
    t.send_local("@a:x".to_string(), "two".to_string(), "t".to_string(), 1);
    t.handle_back_paginated_event(&msg("$0", "@a:x", "zero"), true);
    let items = t.items();
    assert_ne!(items[0].internal_id, items[1].internal_id);
    assert_ne!(items[1].internal_id, items[2].internal_id);
    assert_ne!(items[0].internal_id, items[2].internal_id);
    assert!(t.can_add_item());
}

#[test]
fn rebuild_applies_new_settings_to_history() {
    let history = vec![
        msg("$1", "@a:x", "one"),
        ev("$2", "@a:x", RawContent::RoomName { name: Some("n".to_string()) }),
        edit("$3", "@a:x", "$1", "uno"),
        ev("$4", "@a:x", RawContent::RoomTopic { topic: Some("t".to_string()) }),
    ];
    let verdicts = vec![true, true, true, true];
    let only_messages = TimelineSettings {
        add_failed_to_parse: true,
        event_type_filter: matrix_timeline::event::TimelineEventTypeFilter::Include(vec![
            matrix_timeline::event::TimelineEventType::RoomMessage,
        ]),
    };
    let t = Timeline::rebuild(only_messages, &history, &verdicts);
    assert_eq!(t.len(), 1);
    assert_eq!(body_of(&t.items()[0]), "uno");

    let t = Timeline::rebuild(settings(), &history, &vec![true, false, true, true]);
    assert_eq!(t.len(), 2);
}
