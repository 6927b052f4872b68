use imessage_collate::contacts::{Contact, ContactMap};
use imessage_collate::grouping::{chat_key_of, direct_chat_key, group_messages_by_chat, participants};
use imessage_collate::identity::ResolvedHandle;
use imessage_collate::message::{resolve_chat_name, ChatInfo, CleanMessage, CollateError, MessageRow, RowKind};
use imessage_collate::reaction::{Reaction, ReactionAction, TapbackEmoji};
use imessage_collate::store::MessageStore;
use std::collections::HashMap;

const LOVED: &str = "\u{1FA77}";

fn handles() -> HashMap<i32, String> {
    let mut h = HashMap::new();
    h.insert(3, "+15555550101".to_string());
    h.insert(7, "seven@example.com".to_string());
    h
}

fn directory() -> ContactMap {
    ContactMap::from_contacts(&vec![Contact {
        given_name: "Alice".to_string(),
        family_name: String::new(),
        phone_numbers: vec!["(555) 555-0101".to_string()],
        email_addresses: vec![],
    }])
}

fn chats() -> HashMap<i32, ChatInfo> {
    let mut c = HashMap::new();
    c.insert(1, ChatInfo { display_name: Some("Family".to_string()), chat_identifier: "chat1".to_string() });
    c.insert(2, ChatInfo { display_name: Some(String::new()), chat_identifier: "+15555550101".to_string() });
    c.insert(3, ChatInfo { display_name: None, chat_identifier: "chat3".to_string() });
    c
}

fn row(guid: &str, from_me: bool, handle: Option<i32>, chat: Option<i32>, kind: RowKind) -> MessageRow {
    MessageRow {
        guid: guid.to_string(),
        text: Some(format!("text of {}", guid)),
        is_from_me: from_me,
        handle_id: handle,
        chat_id: chat,
        date: 0,
        date_read: 0,
        date_delivered: 0,
        attachments: vec![],
        kind,
    }
}

fn normal(guid: &str, from_me: bool, handle: Option<i32>, chat: Option<i32>, delivered: i64) -> MessageRow {
    let mut r = row(guid, from_me, handle, chat, RowKind::Normal);
    r.date_delivered = delivered;
    r
}

fn reaction(target: Option<&str>, action: ReactionAction, r: Reaction, handle: i32) -> MessageRow {
    row(
        "reaction-row",
        false,
        Some(handle),
        None,
        RowKind::Reaction { action, reaction: r, target: target.map(|t| t.to_string()) },
    )
}

fn ingest(store: &mut MessageStore, r: MessageRow) -> Result<(), CollateError> {
    store.ingest(r, &handles(), &directory(), &chats(), None, None, &vec![])
}

fn message(guid: &str, from_me: bool, handle: Option<i32>, chat_id: Option<i32>, name: Option<&str>, date: i64) -> CleanMessage {
    let mut r = normal(guid, from_me, handle, chat_id, date);
    r.chat_id = chat_id;
    CleanMessage::from_message_on_day(&handles(), &directory(), name.map(|n| n.to_string()), r, date, 730500)
}

#[test]
fn scenario_reaction_attaches_to_message() {
    let mut store = MessageStore::new();
    let mut r = normal("m1", false, Some(7), None, 100);
    r.text = Some("hi".to_string());
    ingest(&mut store, r).unwrap();
    ingest(&mut store, reaction(Some("m1"), ReactionAction::Added, Reaction::Loved, 7)).unwrap();
    let out = store.drain_to_sorted_vector();
    assert_eq!(out.len(), 1);
    assert_eq!(out[0].text, "hi");
    let reactions = out[0].reactions();
    assert_eq!(reactions.len(), 1);
    assert_eq!(reactions[0].0.id(), 7);
    assert_eq!(reactions[0].0.display(), "seven@example.com");
    assert_eq!(reactions[0].1.as_string(), LOVED);
}

#[test]
fn scenario_unnamed_conversation_keyed_by_other_participant() {
    let messages = vec![
        message("a", false, Some(3), Some(42), None, 10),
        message("b", true, None, Some(42), None, 20),
    ];
    assert_eq!(chat_key_of(&messages, 0), "Direct: Alice");
    assert_eq!(chat_key_of(&messages, 1), "Direct: Alice");
    let groups = group_messages_by_chat(&messages);
    assert_eq!(groups.len(), 1);
    assert_eq!(groups[0].key, "Direct: Alice");
    assert_eq!(groups[0].members, vec![0, 1]);
}

#[test]
fn scenario_orphan_reaction_is_dropped() {
    let mut store = MessageStore::new();
    ingest(&mut store, normal("m1", false, Some(7), None, 100)).unwrap();
    ingest(&mut store, reaction(Some("nope"), ReactionAction::Added, Reaction::Liked, 7)).unwrap();
    ingest(&mut store, reaction(None, ReactionAction::Added, Reaction::Liked, 7)).unwrap();
    assert_eq!(store.len(), 1);
    let out = store.drain_to_sorted_vector();
    assert_eq!(out[0].reactions().len(), 0);
}

#[test]
fn reaction_before_its_target_is_lost() {
    let mut store = MessageStore::new();
    ingest(&mut store, reaction(Some("m1"), ReactionAction::Added, Reaction::Liked, 7)).unwrap();
    ingest(&mut store, normal("m1", false, Some(7), None, 100)).unwrap();
    let out = store.drain_to_sorted_vector();
    assert_eq!(out.len(), 1);
    assert_eq!(out[0].reactions().len(), 0);
}

#[test]
fn replayed_addition_keeps_one_entry() {
    let mut store = MessageStore::new();
    ingest(&mut store, normal("m1", false, Some(7), None, 100)).unwrap();
    for _ in 0..3 {
        ingest(&mut store, reaction(Some("m1"), ReactionAction::Added, Reaction::Liked, 3)).unwrap();
    }
    ingest(&mut store, reaction(Some("m1"), ReactionAction::Added, Reaction::Laughed, 3)).unwrap();
    ingest(&mut store, reaction(Some("m1"), ReactionAction::Added, Reaction::Loved, 7)).unwrap();
    let out = store.drain_to_sorted_vector();
    let reactions = out[0].reactions();
    assert_eq!(reactions.len(), 2);
    let alice: Vec<_> = reactions.iter().filter(|(h, _)| h.id() == 3).collect();
    assert_eq!(alice.len(), 1);
    assert_eq!(alice[0].0.display(), "Alice");
    assert_eq!(alice[0].1.as_string(), "\u{1F602}");
}

#[test]
fn removal_clears_the_authors_entry() {
    let mut store = MessageStore::new();
    ingest(&mut store, normal("m1", false, Some(7), None, 100)).unwrap();
    ingest(&mut store, reaction(Some("m1"), ReactionAction::Removed, Reaction::Liked, 3)).unwrap();
    ingest(&mut store, reaction(Some("m1"), ReactionAction::Added, Reaction::Liked, 3)).unwrap();
    ingest(&mut store, reaction(Some("m1"), ReactionAction::Added, Reaction::Disliked, 7)).unwrap();
    ingest(&mut store, reaction(Some("m1"), ReactionAction::Removed, Reaction::Loved, 3)).unwrap();
    let out = store.drain_to_sorted_vector();
    let reactions = out[0].reactions();
    assert_eq!(reactions.len(), 1);
    assert_eq!(reactions[0].0.id(), 7);
    assert_eq!(reactions[0].1.as_string(), "\u{1F44E}");
}

#[test]
fn message_tapback_directly() {
    let mut m = message("x", true, None, None, None, 5);
    m.tapback(ReactionAction::Added, ResolvedHandle::unknown(), Reaction::Emoji(Some("\u{1F525}".to_string())));
    m.tapback(ReactionAction::Added, ResolvedHandle::me(), Reaction::Emoji(None));
    assert_eq!(m.reactions().len(), 2);
    assert_eq!(m.reactions()[0].1.as_string(), "\u{1F525}");
    assert_eq!(m.reactions()[1].1.as_string(), "");
    m.tapback(ReactionAction::Removed, ResolvedHandle::unknown(), Reaction::Sticker);
    assert_eq!(m.reactions().len(), 1);
    assert!(m.reactions()[0].0.is_me());
}

#[test]
fn emoji_for_each_kind() {
    assert_eq!(TapbackEmoji::from_message_tapback(Reaction::Loved).as_string(), LOVED);
    assert_eq!(TapbackEmoji::from_message_tapback(Reaction::Liked).as_string(), "\u{1F44D}");
    assert_eq!(TapbackEmoji::from_message_tapback(Reaction::Disliked).as_string(), "\u{1F44E}");
    assert_eq!(TapbackEmoji::from_message_tapback(Reaction::Laughed).as_string(), "\u{1F602}");
    assert_eq!(TapbackEmoji::from_message_tapback(Reaction::Emphasized).as_string(), "\u{203C}\u{FE0F}");
    assert_eq!(TapbackEmoji::from_message_tapback(Reaction::Questioned).as_string(), "\u{2753}");
    assert_eq!(TapbackEmoji::from_message_tapback(Reaction::Sticker).as_string(), "\u{1F3A8}");
}

#[test]
fn timestamp_priority() {
    let mut r = normal("t", false, Some(7), None, 0);
    r.date = 1000;
    r.date_read = 2000;
    r.date_delivered = 3000;
    let m = CleanMessage::from_message(&handles(), &directory(), None, r).unwrap();
    assert_eq!(m.date, 3000);

    let mut r = normal("t", false, Some(7), None, 0);
    r.date = 1000;
    r.date_read = 2000;
    let m = CleanMessage::from_message(&handles(), &directory(), None, r).unwrap();
    assert_eq!(m.date, 2000);

    let mut r = normal("t", false, Some(7), None, 0);
    r.date = 1000;
    let m = CleanMessage::from_message(&handles(), &directory(), None, r).unwrap();
    assert_eq!(m.date, 1000);
}

#[test]
fn missing_timestamp_is_an_error() {
    let r = normal("t", false, Some(7), None, 0);
    assert_eq!(
        CleanMessage::from_message(&handles(), &directory(), None, r).err(),
        Some(CollateError::MissingTimestamp)
    );
    let mut store = MessageStore::new();
    assert_eq!(ingest(&mut store, normal("t", false, Some(7), None, 0)), Err(CollateError::MissingTimestamp));
    assert_eq!(store.len(), 0);
}

#[test]
fn timestamp_out_of_range_is_an_error() {
    let mut r = normal("t", false, Some(7), None, 0);
    r.date = i64::MIN;
    assert_eq!(
        CleanMessage::from_message(&handles(), &directory(), None, r).err(),
        Some(CollateError::InvalidTimestamp(i64::MIN))
    );
}

#[test]
fn local_day_of_a_known_instant() {
    // 2001-01-11 12:00 UTC, stored as seconds since the database epoch.
    let r = normal("t", false, Some(7), None, 10 * 86_400 + 43_200);
    let m = CleanMessage::from_message(&handles(), &directory(), None, r).unwrap();
    // 2001-01-11 is day 730496 counted from 0001-01-01; local time may differ by one day.
    assert!((m.day - 730_496).abs() <= 1);
    // Nanosecond timestamps of the same instant give the same day.
    let r = normal("t", false, Some(7), None, (10 * 86_400 + 43_200) * 1_000_000_000);
    let m2 = CleanMessage::from_message(&handles(), &directory(), None, r).unwrap();
    assert_eq!(m.day, m2.day);
}

#[test]
fn default_text_is_empty() {
    let mut r = normal("t", false, Some(7), None, 5);
    r.text = None;
    let m = CleanMessage::from_message(&handles(), &directory(), None, r).unwrap();
    assert_eq!(m.text, "");
}

#[test]
fn filter_by_day_and_chat() {
    let m = message("m", false, Some(3), Some(1), Some("Family"), 5);
    let none: Vec<String> = vec![];
    assert!(m.matches(None, None, &none));
    assert!(m.matches(Some(730500), Some(730501), &none));
    assert!(!m.matches(Some(730501), None, &none));
    assert!(!m.matches(None, Some(730500), &none));
    assert!(m.matches(None, None, &vec!["Work".to_string(), "Family".to_string()]));
    assert!(!m.matches(None, None, &vec!["Work".to_string()]));
    let unnamed = message("u", false, Some(3), None, None, 5);
    assert!(!unnamed.matches(None, None, &vec!["Family".to_string()]));
    assert!(unnamed.matches(None, None, &none));
}

#[test]
fn chat_names_resolved() {
    assert_eq!(resolve_chat_name(None, &chats(), &directory()), None);
    assert_eq!(resolve_chat_name(Some(1), &chats(), &directory()), Some("Family".to_string()));
    assert_eq!(resolve_chat_name(Some(2), &chats(), &directory()), Some("Alice".to_string()));
    assert_eq!(resolve_chat_name(Some(3), &chats(), &directory()), Some("chat3".to_string()));
}

#[test]
fn filtered_ingest_leaves_out_other_chats() {
    let mut store = MessageStore::new();
    let names = vec!["Family".to_string()];
    store.ingest(normal("a", false, Some(3), Some(1), 5), &handles(), &directory(), &chats(), None, None, &names).unwrap();
    store.ingest(normal("b", false, Some(3), Some(3), 6), &handles(), &directory(), &chats(), None, None, &names).unwrap();
    store.ingest(normal("c", false, Some(3), None, 7), &handles(), &directory(), &chats(), None, None, &names).unwrap();
    assert_eq!(store.len(), 1);
}

#[test]
fn other_rows_are_ignored() {
    let mut store = MessageStore::new();
    ingest(&mut store, row("e", false, Some(3), None, RowKind::Edited)).unwrap();
    ingest(&mut store, row("o", false, Some(3), None, RowKind::Other)).unwrap();
    assert_eq!(store.len(), 0);
}

#[test]
fn insert_replaces_same_identifier() {
    let mut store = MessageStore::new();
    store.insert(message("a", false, Some(3), None, None, 5));
    store.insert(message("b", false, Some(3), None, None, 6));
    store.insert(message("a", true, None, None, None, 9));
    assert_eq!(store.len(), 2);
    let out = store.drain_to_sorted_vector();
    assert_eq!(out[0].guid, "b");
    assert_eq!(out[1].guid, "a");
    assert!(out[1].from.is_me());
}

#[test]
fn drain_sorts_by_timestamp() {
    let mut store = MessageStore::new();
    for (g, d) in [("a", 50), ("b", 10), ("c", 30), ("d", 10), ("e", 70), ("f", 20)] {
        ingest(&mut store, normal(g, false, Some(3), None, d)).unwrap();
    }
    let out = store.drain_to_sorted_vector();
    let dates: Vec<i64> = out.iter().map(|m| m.date).collect();
    assert_eq!(dates, vec![10, 10, 20, 30, 50, 70]);
    for w in out.windows(2) {
        assert!(w[0].date <= w[1].date);
    }
    let guids: Vec<&str> = out.iter().map(|m| m.guid.as_str()).collect();
    assert_eq!(guids, vec!["b", "d", "f", "c", "a", "e"]);
}

#[test]
fn drain_of_empty_store() {
    assert!(MessageStore::new().drain_to_sorted_vector().is_empty());
}

#[test]
fn unnamed_conversation_of_owner_alone() {
    let messages = vec![
        message("a", true, None, Some(9), None, 1),
        message("b", true, None, Some(9), None, 2),
    ];
    assert_eq!(direct_chat_key(&messages, 9), "Direct: Unknown (9)");
    assert_eq!(chat_key_of(&messages, 1), "Direct: Unknown (9)");
}

#[test]
fn grouping_by_name_id_and_sender() {
    let messages = vec![
        message("a", false, Some(3), Some(1), Some("Family"), 1),
        message("b", true, None, Some(42), None, 2),
        message("c", false, Some(7), None, None, 3),
        message("d", false, Some(7), Some(42), None, 4),
        message("e", true, None, Some(1), Some("Family"), 5),
        message("f", false, None, None, None, 6),
    ];
    let groups = group_messages_by_chat(&messages);
    let keys: Vec<&str> = groups.iter().map(|g| g.key.as_str()).collect();
    assert_eq!(
        keys,
        vec!["Family", "Direct: seven@example.com", "Direct: Unknown"]
    );
    assert_eq!(groups[0].members, vec![0, 4]);
    assert_eq!(groups[1].members, vec![1, 2, 3]);
    assert_eq!(groups[2].members, vec![5]);
}

#[test]
fn participants_exclude_owner_and_repeat() {
    let messages = vec![
        message("a", false, Some(7), Some(1), Some("Family"), 1),
        message("b", true, None, Some(1), Some("Family"), 2),
        message("c", false, Some(3), Some(1), Some("Family"), 3),
        message("d", false, Some(7), Some(1), Some("Family"), 4),
    ];
    assert_eq!(
        participants(&messages, &vec![0, 1, 2, 3]),
        vec!["seven@example.com".to_string(), "Alice".to_string()]
    );
    assert_eq!(participants(&messages, &vec![1]), Vec::<String>::new());
}
