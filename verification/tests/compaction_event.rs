use goose::compaction_event::{
    ensure_message_ids, identify_messages, newly_archived_ids, CompactionEvent, CompactionTrigger,
};
use goose::conversation::{Conversation, Message};
use goose::ids::message_id_from;

fn message(id: &str, agent_visible: bool) -> Message {
    Message::user()
        .with_id(id)
        .with_text(id)
        .with_visibility(true, agent_visible)
}

#[test]
fn newly_archived_ids_finds_the_messages_that_became_invisible() {
    let before = Conversation::new_unvalidated(vec![
        message("a", true),
        message("b", true),
        message("kept", true),
    ]);
    let after = Conversation::new_unvalidated(vec![
        message("a", false),
        message("b", false),
        message("kept", true),
    ]);

    assert_eq!(newly_archived_ids(&before, &after), vec!["a", "b"]);
}

#[test]
fn newly_archived_ids_ignores_messages_that_were_already_hidden() {
    let before = Conversation::new_unvalidated(vec![message("old", false), message("now", true)]);
    let after = Conversation::new_unvalidated(vec![message("old", false), message("now", false)]);

    assert_eq!(newly_archived_ids(&before, &after), vec!["now"]);
}

#[test]
fn clearing_archives_everything_the_agent_could_see() {
    let before =
        Conversation::new_unvalidated(vec![message("a", true), message("user-only", false)]);
    let after = Conversation::empty();

    let event = CompactionEvent::new(CompactionTrigger::Clear, None, &before, &after, None, None);

    assert_eq!(event.archived_message_ids, vec!["a"]);
    assert_eq!(event.archived_message_count(), 1);
}

#[test]
fn ensure_message_ids_leaves_existing_ids_alone() {
    let conversation = Conversation::new_unvalidated(vec![
        message("mine", true),
        Message::user().with_text("new"),
    ]);

    let conversation = ensure_message_ids(conversation);

    assert_eq!(conversation.messages()[0].id.as_deref(), Some("mine"));
    assert!(conversation.messages()[1].id.is_some());
}

#[test]
fn generated_ids_are_not_repeated() {
    let conversation = Conversation::new_unvalidated(vec![
        Message::user().with_text("one"),
        Message::user().with_text("two"),
    ]);

    let conversation = ensure_message_ids(conversation);
    let first = conversation.messages()[0].id.clone().unwrap();
    let second = conversation.messages()[1].id.clone().unwrap();

    assert!(first.starts_with("msg_"));
    assert_ne!(first, second);
    assert_eq!(conversation.messages()[1].as_concat_text(), "two");
    let again = ensure_message_ids(conversation.clone());
    assert_eq!(again, conversation);
}

#[test]
fn each_message_gets_the_id_of_its_own_draw() {
    let conversation = Conversation::new_unvalidated(vec![
        Message::user().with_text("one"),
        message("mine", false),
        Message::user().with_text("two"),
    ]);

    let identified = identify_messages(&conversation, &vec![(1, 2), (3, 4), (12, 0)]);

    let ids: Vec<&str> = identified
        .messages()
        .iter()
        .map(|message| message.id.as_deref().unwrap())
        .collect();
    assert_eq!(ids, vec!["msg_1_2", "mine", "msg_12_0"]);
    assert_eq!(identified.messages()[1], conversation.messages()[1]);
    // Where the numbers end is part of the id.
    assert_ne!(message_id_from(1, 12), message_id_from(11, 2));
}

#[test]
fn an_id_is_made_of_both_draws() {
    assert_eq!(message_id_from(7, 0), "msg_7_0");
    assert_eq!(
        message_id_from(0, u64::MAX),
        "msg_0_18446744073709551615"
    );
}

#[test]
fn a_conversation_that_stays_visible_has_nothing_archived() {
    let before = Conversation::new_unvalidated(vec![message("a", true), message("b", true)]);
    let mut after = before.clone();
    after.push(message("c", true));

    assert!(newly_archived_ids(&before, &after).is_empty());
    assert!(newly_archived_ids(&before, &before).is_empty());
}

#[test]
fn a_message_without_an_id_is_never_archived() {
    let before = Conversation::new_unvalidated(vec![Message::user().with_text("x")]);

    assert!(newly_archived_ids(&before, &Conversation::empty()).is_empty());
}

#[test]
fn an_id_that_is_archived_twice_is_listed_twice() {
    let before = Conversation::new_unvalidated(vec![message("a", true), message("a", true)]);

    assert_eq!(
        newly_archived_ids(&before, &Conversation::empty()),
        vec!["a", "a"]
    );
}

#[test]
fn triggers_are_stored_under_their_names() {
    let named = [
        (CompactionTrigger::Threshold, "threshold"),
        (CompactionTrigger::Recovery, "recovery"),
        (CompactionTrigger::Manual, "manual"),
        (CompactionTrigger::Model, "model"),
        (CompactionTrigger::Clear, "clear"),
        (CompactionTrigger::Eviction, "eviction"),
    ];
    for (trigger, name) in named {
        assert_eq!(trigger.as_str(), name);
        assert_eq!(CompactionTrigger::parse(name), Some(trigger));
    }
    for other in ["", "Manual", "manual ", "none"] {
        assert_eq!(CompactionTrigger::parse(other), None);
    }
}

#[test]
fn an_event_keeps_what_it_is_told() {
    let before = Conversation::new_unvalidated(vec![message("a", true)]);
    let event = CompactionEvent::new(
        CompactionTrigger::Model,
        Some("done".to_string()),
        &before,
        &Conversation::empty(),
        Some(10),
        Some(2),
    );

    assert_eq!(event.trigger, CompactionTrigger::Model);
    assert_eq!(event.reason.as_deref(), Some("done"));
    assert_eq!((event.before_tokens, event.after_tokens), (Some(10), Some(2)));
    assert_eq!(event.carry, None);

    let event = event.with_carry(Some("note".to_string()));
    assert_eq!(event.carry.as_deref(), Some("note"));
    assert_eq!(event.archived_message_ids, vec!["a"]);
}
