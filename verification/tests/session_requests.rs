use goose::capabilities::{SessionPermissions, SESSION_MODIFICATION};
use goose::conversation::{Conversation, Message, MessageContent, MessageMetadata, Role};
use goose::extension_data::ExtensionData;
use goose::json::Json;
use goose::session::{Session, Usage};
use goose::session_requests::{
    applied_notice, carry_message, carry_not_kept, decide, denied_notice, needs_context_count,
    outstanding_prompt_is_carried, refusal_message, session_modification_permitted,
    validate_carry, with_carry, CompactionDecision, CompactionRequest, SessionRequestState,
    MAX_CARRY_CHARS, MIN_CONTEXT_GROWTH_TO_COMPACT,
};

fn message(id: &str) -> Message {
    Message::user().with_id(id).with_text(id)
}

fn conversation_of(count: usize) -> Conversation {
    Conversation::new_unvalidated((0..count).map(|i| message(&format!("m{i}"))).collect())
}

fn session(with_grant: bool) -> Session {
    let mut extension_data = ExtensionData::new();
    let mut permissions = SessionPermissions::default();
    if with_grant {
        permissions.grant(SESSION_MODIFICATION);
    }
    permissions.write_into(&mut extension_data).unwrap();
    Session {
        id: "requests".to_string(),
        provider_name: None,
        goose_mode: "auto".to_string(),
        usage: Usage::new(None, None, None),
        accumulated_usage: Usage::new(None, None, None),
        extension_data,
        conversation: None,
    }
}

/// An estimate of the size of a conversation, about four characters to a token.
fn count_context_tokens(conversation: &Conversation) -> i32 {
    let chars: usize = conversation
        .agent_visible_messages()
        .iter()
        .map(|message| message.as_concat_text().chars().count())
        .sum();
    (chars / 4) as i32
}

fn decide_counting(session: &Session, conversation: &Conversation) -> CompactionDecision {
    let counted = if needs_context_count(session, conversation) {
        Some(count_context_tokens(conversation))
    } else {
        None
    };
    decide(session, conversation, counted)
}

#[test]
fn a_request_needs_the_capability() {
    let session = session(false);

    assert!(matches!(
        decide_counting(&session, &conversation_of(10)),
        CompactionDecision::Denied
    ));
}

#[test]
fn session_requests_a_granted_request_on_a_short_conversation_is_refused() {
    let session = session(true);

    assert!(matches!(
        decide_counting(&session, &conversation_of(2)),
        CompactionDecision::Refused(_)
    ));
    assert!(matches!(
        decide_counting(&session, &conversation_of(10)),
        CompactionDecision::Apply
    ));
}

/// The conversation a compaction produces: the summary, the continuation
/// that tells the model to carry on, the prompt the compaction carried
/// forward, and the note it kept.
fn conversation_after_a_compaction(prompt_user_visible: bool) -> Conversation {
    let mut prompt = Message::user()
        .with_id("prompt")
        .with_text("update the client and compact");
    if !prompt_user_visible {
        prompt = prompt.with_metadata(MessageMetadata::agent_only());
    }

    Conversation::new_unvalidated(vec![
        Message::user()
            .with_id("summary")
            .with_text("# Conversation Summary")
            .with_metadata(MessageMetadata::agent_only()),
        Message::assistant()
            .with_id("continuation")
            .with_text("Your context was compacted.")
            .with_metadata(MessageMetadata::agent_only()),
        prompt,
        Message::assistant()
            .with_id("carry")
            .with_text("Note kept verbatim across the compaction: ..."),
    ])
}

/// The task carrying on, which is what the context does under the prompt a
/// compaction carried forward.
fn with_work(mut conversation: Conversation, chars: usize) -> Conversation {
    conversation.push(
        Message::assistant()
            .with_id("work")
            .with_text(&"step output ".repeat(chars / 12)),
    );
    conversation
}

fn session_compacted_at(tokens: i32) -> Session {
    let mut session = session(true);
    let mut state = SessionRequestState::read(&session);
    state.last_applied_context_tokens = Some(tokens);
    state.write_into(&mut session.extension_data).unwrap();
    session
}

#[test]
fn a_repeat_of_the_prompt_the_last_compaction_carried_is_refused() {
    let conversation = conversation_after_a_compaction(false);
    let tokens = count_context_tokens(&conversation);
    let session = session_compacted_at(tokens);

    assert!(
        matches!(
            decide_counting(&session, &conversation),
            CompactionDecision::Refused(_)
        ),
        "a request against the conversation the last compaction produced must be refused"
    );
}

#[test]
fn a_repeat_with_only_a_turn_of_new_context_is_refused() {
    let conversation = conversation_after_a_compaction(false);
    let tokens = count_context_tokens(&conversation);
    let session = session_compacted_at(tokens);
    // The verify-and-ask turn the model adds between compactions.
    let conversation = with_work(conversation, 12_000);

    assert!(
        matches!(
            decide_counting(&session, &conversation),
            CompactionDecision::Refused(_)
        ),
        "a turn's worth of context is not enough to pay for another summary"
    );
}

#[test]
fn a_repeat_is_applied_once_the_context_has_grown() {
    let base = conversation_after_a_compaction(false);
    let tokens = count_context_tokens(&base);
    let session = session_compacted_at(tokens);
    let conversation = with_work(base, 48_000);

    let grown = count_context_tokens(&conversation);
    assert!(
        grown - tokens >= MIN_CONTEXT_GROWTH_TO_COMPACT,
        "the fixture must grow past the bar to be worth asserting on: {tokens} -> {grown}"
    );
    assert!(matches!(
        decide_counting(&session, &conversation),
        CompactionDecision::Apply
    ));
}

#[test]
fn a_repeat_is_refused_until_the_context_regrows_past_what_it_left() {
    // A compaction that left a large context: a summary of it is on the
    // order of that size, so a turn of new context cannot pay for another.
    let conversation = with_work(conversation_after_a_compaction(false), 48_000);
    let tokens = count_context_tokens(&conversation);
    let session = session_compacted_at(tokens);

    assert!(matches!(
        decide_counting(&session, &conversation),
        CompactionDecision::Refused(_)
    ));

    let session = session_compacted_at(tokens / 4);
    assert!(matches!(
        decide_counting(&session, &conversation),
        CompactionDecision::Apply
    ));
}

#[test]
fn a_prompt_the_user_has_just_sent_is_applied_without_growth() {
    let conversation = conversation_after_a_compaction(true);
    let tokens = count_context_tokens(&conversation);
    let session = session_compacted_at(tokens);

    assert!(matches!(
        decide_counting(&session, &conversation),
        CompactionDecision::Apply
    ));
}

#[test]
fn state_round_trips_through_extension_data() {
    let mut extension_data = ExtensionData::new();
    let state = SessionRequestState {
        pending_compaction: Some(CompactionRequest {
            reason: "the tool output is no longer needed".to_string(),
            carry: Some("step 3 of 7: inputs are in /tmp/step3.json".to_string()),
            requested_at: 42,
        }),
        denied_compaction: None,
        requested_compaction_count: 3,
        applied_compaction_count: 1,
        last_applied_context_tokens: Some(4_321),
    };

    state.write_into(&mut extension_data).unwrap();

    let reloaded = SessionRequestState::from_extension_data(&extension_data).unwrap_or_default();
    assert_eq!(reloaded, state);
    assert!(!SessionPermissions::read(&extension_data).is_granted(SESSION_MODIFICATION));
}

fn notification_text(message: &Message) -> String {
    message
        .content
        .iter()
        .find_map(|content| match content {
            MessageContent::SystemNotification(notification) => Some(notification.msg.clone()),
            _ => None,
        })
        .unwrap_or_default()
}

#[test]
fn notices_name_the_reason_and_the_way_to_allow_it() {
    let request = CompactionRequest {
        reason: "finished reading the logs".to_string(),
        carry: None,
        requested_at: 0,
    };

    let denied = notification_text(&denied_notice(&request));
    assert!(denied.contains("finished reading the logs"));
    assert!(denied.contains("/permit session-modification"));
    assert!(denied_notice(&request).is_user_visible());
    assert!(!denied_notice(&request).is_agent_visible());

    let applied = notification_text(&applied_notice(&request, Some(100), Some(20), 7));
    assert!(applied.contains("100 → 20 tokens"));
    assert!(applied.contains("7 message(s) archived"));

    assert!(refusal_message("only 2 message(s) are in your context")
        .as_concat_text()
        .contains("No compaction this time"));
}

#[test]
fn a_carry_is_added_after_the_compacted_history_and_visible_to_both() {
    let conversation = with_carry(conversation_of(2), Some("step 3 of 7"));

    let carried = conversation.messages().last().unwrap();
    assert!(carried.as_concat_text().contains("step 3 of 7"));
    assert!(carried.is_agent_visible());
    assert!(carried.is_user_visible());
    assert!(carried.id.is_some());
    assert!(conversation
        .messages()
        .iter()
        .filter(|message| message.as_concat_text().contains("step 3 of 7"))
        .all(|message| message.role == Role::Assistant));
}

#[test]
fn no_carry_leaves_the_conversation_alone() {
    let before = conversation_of(2);

    assert_eq!(with_carry(before.clone(), None).messages().len(), 2);
    assert_eq!(
        with_carry(before.clone(), Some("  \n ")).messages().len(),
        2
    );
}

#[test]
fn a_carry_is_trimmed_and_bounded() {
    assert_eq!(
        validate_carry(Some("  keep this  ")).unwrap(),
        Some("keep this".to_string())
    );
    assert_eq!(validate_carry(Some("   ")).unwrap(), None);
    assert_eq!(validate_carry(None).unwrap(), None);

    let long = "x".repeat(MAX_CARRY_CHARS + 1);
    let error = validate_carry(Some(&long)).unwrap_err();
    assert!(error.contains(&MAX_CARRY_CHARS.to_string()));
    assert!(validate_carry(Some(&"x".repeat(MAX_CARRY_CHARS))).is_ok());
}

#[test]
fn a_request_that_is_not_applied_says_its_note_was_not_kept() {
    let mut request = CompactionRequest {
        reason: "done with the logs".to_string(),
        carry: None,
        requested_at: 0,
    };
    assert!(carry_not_kept(&request).is_empty());

    request.carry = Some("step 3 of 7".to_string());
    assert!(carry_not_kept(&request).contains("was not kept"));
}

#[test]
fn refusals_say_why() {
    assert_eq!(
        decide(&session(true), &conversation_of(3), None),
        CompactionDecision::Refused("only 3 message(s) are in your context".to_string())
    );
    assert_eq!(
        decide(
            &session_compacted_at(5_000),
            &conversation_after_a_compaction(false),
            Some(9_999)
        ),
        CompactionDecision::Refused(
            "the context has not grown since the last compaction (9999 tokens, 5000 when it was compacted)"
                .to_string()
        )
    );
}

#[test]
fn the_growth_that_is_asked_for_is_exact() {
    let conversation = conversation_after_a_compaction(false);
    let applied = |last: i32, current: i32| {
        decide(&session_compacted_at(last), &conversation, Some(current))
            == CompactionDecision::Apply
    };

    // Small contexts have to grow by the least there is.
    assert!(!applied(100, 100 + MIN_CONTEXT_GROWTH_TO_COMPACT - 1));
    assert!(applied(100, 100 + MIN_CONTEXT_GROWTH_TO_COMPACT));
    // Large ones by what the last compaction left.
    assert!(!applied(10_000, 19_999));
    assert!(applied(10_000, 20_000));
    // The extremes do not wrap around.
    assert!(!applied(i32::MAX, i32::MIN));
    assert!(applied(i32::MIN, i32::MAX));
}

#[test]
fn a_context_that_cannot_be_measured_does_not_stop_a_compaction() {
    let conversation = conversation_after_a_compaction(false);
    let session = session_compacted_at(10);

    assert!(needs_context_count(&session, &conversation));
    assert_eq!(
        decide(&session, &conversation, None),
        CompactionDecision::Apply
    );
}

#[test]
fn the_context_is_measured_only_where_it_matters() {
    let carried = conversation_after_a_compaction(false);
    assert!(!needs_context_count(&session(true), &carried));
    assert!(!needs_context_count(
        &session_compacted_at(10),
        &conversation_after_a_compaction(true)
    ));
    assert!(!needs_context_count(
        &session_compacted_at(10),
        &conversation_of(3)
    ));
    let mut denied = session_compacted_at(10);
    SessionPermissions::default()
        .write_into(&mut denied.extension_data)
        .unwrap();
    assert!(!session_modification_permitted(&denied));
    assert!(!needs_context_count(&denied, &carried));
}

#[test]
fn a_note_does_not_pass_for_a_prompt() {
    assert!(!carry_message("step 3").is_preservable_prompt());
    let carried = with_carry(conversation_after_a_compaction(false), Some("note"));
    assert!(outstanding_prompt_is_carried(&carried));
    assert!(!outstanding_prompt_is_carried(&Conversation::empty()));
}

#[test]
fn a_note_reads_as_documented() {
    assert_eq!(
        carry_message("  step 3\n").as_concat_text(),
        "Note kept verbatim across the compaction:\n\nstep 3"
    );
    assert_eq!(
        validate_carry(Some(&"é".repeat(5_000))).unwrap_err(),
        "The note is 5000 characters; the limit is 4096. Keep only what you cannot re-derive, and write the rest somewhere durable."
    );
    assert_eq!(
        validate_carry(Some(&"é".repeat(4_096))).unwrap(),
        Some("é".repeat(4_096))
    );
}

#[test]
fn notices_read_as_documented() {
    let request = CompactionRequest {
        reason: "done".to_string(),
        carry: None,
        requested_at: 0,
    };
    assert_eq!(
        notification_text(&denied_notice(&request)),
        "goose asked to compact this conversation (done). Session modification is not permitted; run /permit session-modification to allow it."
    );
    assert_eq!(
        notification_text(&applied_notice(&request, Some(-1), Some(20), 0)),
        "Compacted at goose's request (done): -1 → 20 tokens, 0 message(s) archived — /archive lists them."
    );
    assert_eq!(
        notification_text(&applied_notice(&request, None, Some(20), 2)),
        "Compacted at goose's request (done), 2 message(s) archived — /archive lists them."
    );
    assert_eq!(
        refusal_message("why").as_concat_text(),
        "No compaction this time: why."
    );
    assert!(refusal_message("why").is_agent_visible());
}

fn object(fields: Vec<(&str, Json)>) -> Json {
    Json::Object(
        fields
            .into_iter()
            .map(|(name, value)| (name.to_string(), value))
            .collect(),
    )
}

#[test]
fn what_is_absent_or_zero_is_not_recorded() {
    assert_eq!(SessionRequestState::default().to_value(), object(vec![]));
    let state = SessionRequestState {
        pending_compaction: None,
        denied_compaction: Some(CompactionRequest {
            reason: "r".to_string(),
            carry: None,
            requested_at: -3,
        }),
        requested_compaction_count: 2,
        applied_compaction_count: 0,
        last_applied_context_tokens: Some(0),
    };
    assert_eq!(
        state.to_value(),
        object(vec![
            (
                "denied_compaction",
                object(vec![
                    ("reason", Json::text("r")),
                    ("requested_at", Json::NegInt(-3)),
                ])
            ),
            ("requested_compaction_count", Json::PosInt(2)),
            ("last_applied_context_tokens", Json::PosInt(0)),
        ])
    );
}

#[test]
fn records_are_read_with_what_is_missing_and_what_is_unknown() {
    assert_eq!(
        SessionRequestState::from_value(&object(vec![
            ("pending_compaction", Json::Null),
            ("last_applied_context_tokens", Json::Null),
            ("later", Json::Bool(true)),
        ])),
        Some(SessionRequestState::default())
    );
    let request = Json::Array(vec![Json::text("r"), Json::Null, Json::PosInt(5)]);
    let state =
        SessionRequestState::from_value(&Json::Array(vec![request, Json::Null, Json::PosInt(4)]))
            .unwrap();
    assert_eq!(
        state.pending_compaction,
        Some(CompactionRequest {
            reason: "r".to_string(),
            carry: None,
            requested_at: 5
        })
    );
    assert_eq!(state.requested_compaction_count, 4);
    assert_eq!(state.last_applied_context_tokens, None);
}

#[test]
fn records_that_are_wrong_anywhere_are_not_read() {
    let request = |fields: Vec<(&str, Json)>| CompactionRequest::from_value(&object(fields));
    assert_eq!(request(vec![("reason", Json::text("r"))]), None);
    assert_eq!(request(vec![("requested_at", Json::PosInt(1))]), None);
    assert_eq!(
        request(vec![
            ("reason", Json::text("r")),
            ("requested_at", Json::PosInt(u64::MAX)),
        ]),
        None
    );
    assert_eq!(
        request(vec![
            ("reason", Json::text("r")),
            ("carry", Json::Bool(false)),
            ("requested_at", Json::PosInt(1)),
        ]),
        None
    );

    let state = |name: &str, value: Json| {
        SessionRequestState::from_value(&object(vec![(name, value)])).is_some()
    };
    assert!(!state("requested_compaction_count", Json::Null));
    assert!(!state("requested_compaction_count", Json::NegInt(-1)));
    assert!(!state("applied_compaction_count", Json::PosInt(1 << 32)));
    assert!(state("applied_compaction_count", Json::PosInt(u32::MAX as u64)));
    assert!(!state("last_applied_context_tokens", Json::PosInt(1 << 31)));
    assert!(state("last_applied_context_tokens", Json::NegInt(i32::MIN as i64)));
    assert!(!state("last_applied_context_tokens", Json::Float(0)));
    assert!(!state("pending_compaction", Json::text("soon")));
    assert!(SessionRequestState::from_value(&Json::Array(vec![
        Json::Null,
        Json::Null,
        Json::PosInt(0),
        Json::PosInt(0),
        Json::Null,
        Json::Null,
    ]))
    .is_none());
    assert!(SessionRequestState::from_value(&Json::Null).is_none());
}

#[test]
fn an_unreadable_record_of_requests_counts_as_none() {
    let mut session = session(true);
    session
        .extension_data
        .set_extension_state("session-manager", "v0", Json::text("broken"));

    assert_eq!(
        SessionRequestState::read(&session),
        SessionRequestState::default()
    );
    assert!(session_modification_permitted(&session));
}

#[test]
fn writing_requests_leaves_the_grants_alone_and_the_other_way_round() {
    let mut session = session(true);
    let mut state = SessionRequestState::default();
    state.requested_compaction_count = 9;
    state.write_into(&mut session.extension_data).unwrap();
    assert!(session_modification_permitted(&session));

    SessionPermissions::default()
        .write_into(&mut session.extension_data)
        .unwrap();
    assert!(!session_modification_permitted(&session));
    assert_eq!(SessionRequestState::read(&session), state);
}

#[test]
fn the_slots_of_the_state_are_taken_and_filled() {
    let request = CompactionRequest {
        reason: "r".to_string(),
        carry: None,
        requested_at: 1,
    };
    let mut state = SessionRequestState {
        pending_compaction: Some(request.clone()),
        denied_compaction: None,
        requested_compaction_count: 1,
        applied_compaction_count: u32::MAX,
        last_applied_context_tokens: None,
    };

    assert_eq!(state.take_pending(), Some(request.clone()));
    assert_eq!(state.take_pending(), None);
    state.pending_compaction = Some(request.clone());
    state.defer_denied(request.clone());
    assert_eq!(state.pending_compaction, None);
    assert_eq!(state.denied_compaction, Some(request.clone()));
    state.mark_applied(&request, 77);
    assert_eq!(state.denied_compaction, None);
    assert_eq!(state.applied_compaction_count, u32::MAX);
    assert_eq!(state.last_applied_context_tokens, Some(77));
    state.denied_compaction = Some(request.clone());
    assert_eq!(state.take_denied(), Some(request));
    assert_eq!(state.denied_compaction, None);
}
