use goose::capabilities::{SessionPermissions, SESSION_MODIFICATION};
use goose::compaction_event::{CompactionEvent, CompactionTrigger};
use goose::conversation::{
    Conversation, ErrorContent, Message, MessageContent, MessageErrorKind, Role,
};
use goose::events::LlmStage;
use goose::extension_data::ExtensionData;
use goose::ops_archive::ArchiveOperation;
use goose::ops_capabilities::CapabilityOperation;
use goose::ops_request_size::RequestSizeOperation;
use goose::ops_session_request::{CompactionResult, RequestStep, SessionRequestOperation};
use goose::ops_status::{pending_request, StatusOperation};
use goose::session::{ProviderUsage, Session, Usage};
use goose::session_requests::{CompactionRequest, SessionRequestState};
use goose::state_machine::{Effect, OperationResult, Plan, SlashCommand};

/// A session in memory, with what was shown and recorded along the way.
struct Store {
    session: Session,
    conversation: Conversation,
    shown: Vec<Message>,
    events: Vec<CompactionEvent>,
}

fn store(messages: Vec<Message>) -> Store {
    Store {
        session: Session {
            id: "session".to_string(),
            provider_name: Some("acme".to_string()),
            goose_mode: "auto".to_string(),
            usage: Usage::new(None, None, Some(500)),
            accumulated_usage: Usage::new(None, None, Some(1_500)),
            extension_data: ExtensionData::new(),
            conversation: None,
        },
        conversation: Conversation::new_unvalidated(messages),
        shown: Vec::new(),
        events: Vec::new(),
    }
}

/// Shows what a plan shows and makes its changes.
fn carry_out(store: &mut Store, plan: Plan) -> bool {
    for message in &plan.shown {
        store.shown.push(message.clone());
    }
    let reply = plan
        .reply
        .as_ref()
        .map(|reply| reply.clone().with_generated_id_if_missing());
    if let Some(reply) = &reply {
        store.shown.push(reply.clone());
    }
    let (effects, yielded) = match plan.complete(reply) {
        OperationResult::NotApplicable => unreachable!(),
        OperationResult::Applied(effects) => (effects, false),
        OperationResult::Yielded(effects) => (effects, true),
    };
    for effect in effects {
        match effect {
            Effect::SetMessageVisibility {
                message_id,
                user_visible,
                agent_visible,
            } => {
                let messages = store
                    .conversation
                    .messages()
                    .iter()
                    .map(|message| {
                        if message.id.as_deref() == Some(message_id.as_str()) {
                            message.clone().with_visibility(user_visible, agent_visible)
                        } else {
                            message.clone()
                        }
                    })
                    .collect();
                store.conversation = Conversation::new_unvalidated(messages);
            }
            Effect::SetExtensionData(data) => store.session.extension_data = data,
            Effect::AppendMessage(message) => store.conversation.push(message),
            Effect::CompactConversation {
                conversation,
                event,
                ..
            } => {
                store.conversation = conversation;
                store.events.push(event);
            }
        }
    }
    yielded
}

/// Runs what there is to do about the session's requests until nothing is left,
/// with a summarizer that answers `outcome`.
fn run_requests(store: &mut Store, outcome: Result<&str, &str>) {
    let operation = SessionRequestOperation::new();
    loop {
        let plan = match operation.run(&store.session, &store.conversation, None) {
            RequestStep::NotApplicable => return,
            RequestStep::Settle(plan) => plan,
            RequestStep::Compact { request, state } => {
                let outcome = match outcome {
                    Ok(summary) => Ok(CompactionResult {
                        conversation: Conversation::new_unvalidated(vec![Message::user()
                            .with_id("summary")
                            .with_text(summary)]),
                        usage: ProviderUsage {
                            model: "m".to_string(),
                            usage: Usage::new(Some(1), Some(2), Some(3)),
                        },
                        retained_context_tokens: 40,
                    }),
                    Err(error) => Err(error.to_string()),
                };
                operation.finish(&store.session, &store.conversation, request, state, outcome)
            }
        };
        assert!(!carry_out(store, plan));
    }
}

fn run_command(store: &mut Store, command: &str, params_str: &str) -> String {
    let kickoff = Message::user()
        .with_id("command")
        .with_text(&format!("/{command} {params_str}"));
    store.conversation.push(kickoff.clone());
    let command = SlashCommand {
        command,
        params_str,
    };
    let plan = CapabilityOperation
        .run_command(&command, &store.session, &vec![kickoff])
        .unwrap()
        .unwrap();
    assert!(carry_out(store, plan));
    store.shown.last().unwrap().as_concat_text()
}

fn granted(store: &Store) -> bool {
    SessionPermissions::read(&store.session.extension_data).is_granted(SESSION_MODIFICATION)
}

fn set_pending_compaction_request_carrying(
    store: &mut Store,
    reason: &str,
    granted: bool,
    carry: Option<&str>,
) {
    let data = &mut store.session.extension_data;
    let mut permissions = SessionPermissions::read(data);
    if granted {
        permissions.grant(SESSION_MODIFICATION);
    } else {
        permissions.revoke(SESSION_MODIFICATION);
    }
    permissions.write_into(data).unwrap();
    let state = SessionRequestState {
        pending_compaction: Some(CompactionRequest {
            reason: reason.to_string(),
            carry: carry.map(str::to_string),
            requested_at: 0,
        }),
        ..Default::default()
    };
    state.write_into(data).unwrap();
}

fn four_message_history() -> Vec<Message> {
    vec![
        Message::user().with_id("m1").with_text("first question"),
        Message::assistant().with_id("m2").with_text("first answer"),
        Message::user().with_id("m3").with_text("second question"),
        Message::assistant().with_id("m4").with_text("second answer"),
    ]
}

fn notices(messages: &[Message]) -> String {
    messages
        .iter()
        .flat_map(|message| message.content.iter())
        .filter_map(|content| match content {
            MessageContent::SystemNotification(notification) => Some(notification.msg.clone()),
            _ => None,
        })
        .collect::<Vec<_>>()
        .join("\n")
}

fn texts(messages: &[Message]) -> String {
    messages
        .iter()
        .map(|message| message.as_concat_text())
        .collect::<Vec<_>>()
        .join("\n")
}

#[test]
fn a_denied_compaction_request_is_reported_and_changes_nothing() {
    let mut store = store(four_message_history());
    set_pending_compaction_request_carrying(
        &mut store,
        "the logs are no longer needed",
        false,
        None,
    );

    run_requests(&mut store, Ok("summary"));

    let told = notices(&store.shown);
    assert!(told.contains("goose asked to compact this conversation"));
    assert!(told.contains("the logs are no longer needed"));
    assert!(told.contains("/permit session-modification"));
    assert!(
        notices(store.conversation.messages())
            .contains("goose asked to compact this conversation"),
        "the notice must be on record, not only on screen"
    );
    assert!(store.events.is_empty());
    let state = SessionRequestState::read(&store.session);
    assert!(state.pending_compaction.is_none());
    assert!(state.denied_compaction.is_none());
}

#[test]
fn a_permitted_compaction_request_compacts_at_the_next_boundary() {
    let mut store = store(four_message_history());
    set_pending_compaction_request_carrying(
        &mut store,
        "the first exchange is done",
        true,
        None,
    );

    run_requests(&mut store, Ok("summary"));

    let told = notices(&store.shown);
    assert!(told.contains("Compacted at goose's request"));
    assert!(told.contains("the first exchange is done"));
    assert!(
        notices(store.conversation.messages()).contains("Compacted at goose's request"),
        "the notice must be on record, not only on screen"
    );
    assert_eq!(store.events.len(), 1);
    assert_eq!(store.events[0].trigger, CompactionTrigger::Model);
    assert_eq!(
        store.events[0].reason.as_deref(),
        Some("the first exchange is done")
    );
}

#[test]
fn a_note_that_is_carried_is_in_context_and_on_record() {
    let mut store = store(four_message_history());
    let note = "step 3 of 7: resume with /tmp/step3.json, key abc123";
    set_pending_compaction_request_carrying(&mut store, "the step is done", true, Some(note));

    run_requests(&mut store, Ok("summary"));

    assert!(texts(&store.conversation.agent_visible_messages()).contains(note));
    assert_eq!(store.events.len(), 1);
    let event = &store.events[0];
    assert_eq!(event.carry.as_deref(), Some(note));
    assert_eq!(event.archived_message_ids, vec!["m1", "m2", "m3", "m4"]);
    assert_eq!((event.before_tokens, event.after_tokens), (Some(500), Some(40)));
    assert_eq!(
        notices(&store.shown),
        "Compacted at goose's request (the step is done): 500 → 40 tokens, 4 message(s) archived — /archive lists them."
    );
    let state = SessionRequestState::read(&store.session);
    assert_eq!(state.applied_compaction_count, 1);
    assert_eq!(state.last_applied_context_tokens, Some(40));
    assert!(granted(&store));
}

#[test]
fn a_refused_request_drops_its_note() {
    let mut store = store(vec![Message::user()
        .with_id("m1")
        .with_text("only one message")]);
    set_pending_compaction_request_carrying(
        &mut store,
        "too early",
        true,
        Some("must not survive"),
    );

    run_requests(&mut store, Ok("summary"));

    let text = texts(&store.shown);
    assert!(text.contains("No compaction this time"));
    assert!(text.contains("was not kept"));
    assert!(!text.contains("must not survive"));
    assert!(store.events.is_empty());
    assert_eq!(
        text,
        "No compaction this time: only 1 message(s) are in your context The note you attached was not kept.."
    );
}

#[test]
fn compaction_a_granted_request_on_a_short_conversation_is_refused() {
    let mut store = store(vec![Message::user()
        .with_id("m1")
        .with_text("only one message")]);
    set_pending_compaction_request_carrying(&mut store, "too early", true, None);

    run_requests(&mut store, Ok("summary"));

    assert!(texts(&store.shown).contains("No compaction this time"));
    assert!(store.events.is_empty());
}

#[test]
fn a_compaction_that_fails_drops_the_request() {
    let mut store = store(four_message_history());
    set_pending_compaction_request_carrying(&mut store, "done", true, None);

    run_requests(&mut store, Err("no summary"));

    assert_eq!(
        texts(&store.shown),
        "No compaction this time: compaction failed (no summary); ask again if you still need it."
    );
    assert!(store.events.is_empty());
    assert_eq!(
        SessionRequestState::read(&store.session),
        SessionRequestState::default()
    );
    assert_eq!(store.conversation.messages().len(), 5);
}

#[test]
fn a_compaction_that_fails_says_that_the_note_was_not_kept() {
    let mut store = store(four_message_history());
    set_pending_compaction_request_carrying(&mut store, "done", true, Some("must not survive"));

    run_requests(&mut store, Err("x"));

    assert_eq!(
        texts(&store.shown),
        "No compaction this time: compaction failed (x); ask again if you still need it The note you attached was not kept.."
    );
    assert!(texts(store.conversation.messages()).contains("was not kept"));
    assert!(!texts(store.conversation.messages()).contains("must not survive"));
    assert!(store.events.is_empty());
    let state = SessionRequestState::read(&store.session);
    assert_eq!(state.pending_compaction, None);
    assert_eq!(state.applied_compaction_count, 0);
    assert!(granted(&store));
}

#[test]
fn the_context_is_measured_only_for_a_request_that_is_decided() {
    let mut store = store(four_message_history());
    let operation = SessionRequestOperation::new();
    store.conversation = Conversation::new_unvalidated(
        store
            .conversation
            .messages()
            .iter()
            .map(|message| message.clone().with_visibility(false, true))
            .collect(),
    );
    set_pending_compaction_request_carrying(&mut store, "done", true, None);
    let mut state = SessionRequestState::read(&store.session);
    state.last_applied_context_tokens = Some(10);
    let mut needed = |state: &SessionRequestState| {
        state.write_into(&mut store.session.extension_data).unwrap();
        operation.needs_context_count(&store.session, &store.conversation)
    };

    assert!(needed(&state));
    state.denied_compaction = state.pending_compaction.clone();
    assert!(!needed(&state));
    state.denied_compaction = None;
    state.pending_compaction = None;
    assert!(!needed(&state));
}

#[test]
fn a_pending_request_that_is_denied_is_reported_and_reported_again() {
    let mut store = store(four_message_history());
    set_pending_compaction_request_carrying(&mut store, "done", false, None);

    run_requests(&mut store, Ok("summary"));

    assert_eq!(store.shown.len(), 2);
    assert_eq!(
        notices(&store.shown)
            .matches("goose asked to compact this conversation (done)")
            .count(),
        2
    );
}

#[test]
fn nothing_is_done_where_nothing_was_asked() {
    let store = store(four_message_history());
    let operation = SessionRequestOperation::new();
    assert_eq!(operation.name(), "session_request");
    assert_eq!(
        operation.run(&store.session, &store.conversation, None),
        RequestStep::NotApplicable
    );
}

#[test]
fn permit_and_deny_are_the_only_way_to_grant_a_session_capability() {
    let mut store = store(vec![Message::user()
        .with_id("m1")
        .with_text("Remember this")]);

    let listing = run_command(&mut store, "permit", "");
    assert!(listing.contains("session-modification"));
    assert!(listing.contains("[denied]"));
    assert!(!granted(&store));

    let unknown = run_command(&mut store, "permit", "nonsense");
    assert!(unknown.contains("is not a capability"));

    let granted_text = run_command(&mut store, "permit", "session-modification");
    assert!(granted_text.contains("`session-modification` is permitted for this session"));
    assert!(granted(&store));

    let again = run_command(&mut store, "permit", "session-modification");
    assert!(again.contains("already in effect"));

    let denied_text = run_command(&mut store, "deny", "session-modification");
    assert!(denied_text.contains("`session-modification` is denied for this session"));
    assert!(!granted(&store));
}

#[test]
fn grants_do_not_leak_into_another_session() {
    let mut first = store(vec![Message::user()
        .with_id("m1")
        .with_text("Remember this")]);
    let second = store(vec![Message::user()
        .with_id("m1")
        .with_text("Remember this")]);

    run_command(&mut first, "permit", "session-modification");

    assert!(granted(&first));
    assert!(!granted(&second));
}

#[test]
fn the_capability_commands_read_as_documented() {
    let mut store = store(vec![]);
    assert_eq!(
        run_command(&mut store, "permit", "  "),
        "**Capabilities** (use `/permit <name>`)\n- `session-modification` — Let the model compact the conversation when it judges the work needs it [denied]"
    );
    assert_eq!(
        run_command(&mut store, "permit", " session-modification\n"),
        "`session-modification` is permitted for this session."
    );
    assert_eq!(
        run_command(&mut store, "deny", ""),
        "**Capabilities** (use `/deny <name>`)\n- `session-modification` — Let the model compact the conversation when it judges the work needs it [permitted]"
    );
    assert_eq!(
        run_command(&mut store, "deny", "x"),
        "`x` is not a capability. Available: `session-modification`."
    );
    assert!(granted(&store));
    run_command(&mut store, "deny", "session-modification");
    assert_eq!(
        run_command(&mut store, "deny", "session-modification"),
        "`session-modification` is denied for this session (already in effect)."
    );
    assert!(store.conversation.agent_visible_messages().is_empty());
}

#[test]
fn a_command_needs_a_message_to_answer_to() {
    let store = store(vec![]);
    let session = &store.session;
    let command = |command| SlashCommand {
        command,
        params_str: "",
    };
    let run = |what: &str, turn: &Vec<Message>| {
        let answer = match what {
            "capability" => CapabilityOperation.run_command(&command("permit"), session, turn),
            "archive" => ArchiveOperation::new().run_command(&command("archive"), "report", turn),
            _ => StatusOperation::new("p".to_string(), "m".to_string()).run_command(
                &command("status"),
                session,
                1,
                1,
                &None,
                turn,
            ),
        };
        answer.unwrap().unwrap_err()
    };

    for what in ["capability", "archive", "status"] {
        assert_eq!(
            run(what, &vec![]),
            format!("{what} command conversation has no kickoff message")
        );
        assert_eq!(
            run(what, &vec![Message::user().with_text("/x")]),
            "Persisted slash command message has no id"
        );
    }
}

#[test]
fn a_command_of_another_operation_is_left_alone() {
    let store = store(vec![]);
    let other = SlashCommand {
        command: "compact",
        params_str: "",
    };
    let turn = vec![Message::user().with_id("c").with_text("/compact")];
    assert_eq!(
        CapabilityOperation.run_command(&other, &store.session, &turn),
        None
    );
    assert_eq!(ArchiveOperation::new().run_command(&other, "", &turn), None);
    let status = StatusOperation::new("p".to_string(), "m".to_string());
    assert_eq!(
        status.run_command(&other, &store.session, 1, 1, &None, &turn),
        None
    );
    assert_eq!(CapabilityOperation.name(), "capabilities");
    assert_eq!(ArchiveOperation::new().name(), "archive");
    assert_eq!(status.name(), "status");
}

#[test]
fn the_archive_is_shown_to_the_user_alone() {
    let mut store = store(vec![]);
    let kickoff = Message::user().with_id("c").with_text("/archive last");
    store.conversation.push(kickoff.clone());
    let command = SlashCommand {
        command: "archive",
        params_str: "last",
    };
    let operation = ArchiveOperation::new();
    assert!(operation.answers_to(&command));

    let plan = operation
        .run_command(&command, "the report", &vec![kickoff])
        .unwrap()
        .unwrap();
    assert_eq!(plan.reply.as_ref().unwrap().role, Role::Assistant);
    assert!(carry_out(&mut store, plan));

    assert_eq!(texts(&store.shown), "/archive last\nthe report");
    assert_eq!(store.conversation.messages().len(), 2);
    assert!(store.conversation.agent_visible_messages().is_empty());
}

#[test]
fn the_status_reads_as_documented() {
    let mut store = store(vec![]);
    let turn = vec![Message::user().with_id("c").with_text("/status")];
    let command = SlashCommand {
        command: "status",
        params_str: "",
    };
    let operation = StatusOperation::new("acme".to_string(), "m-1".to_string());
    let text = |store: &Store, limit, percent, archive: Option<&str>| {
        operation
            .run_command(
                &command,
                &store.session,
                limit,
                percent,
                &archive.map(str::to_string),
                &turn,
            )
            .unwrap()
            .unwrap()
            .reply
            .unwrap()
            .as_concat_text()
    };

    assert_eq!(
        text(&store, 1_000, 50, None),
        "**Session status**\n\n- Model: m-1\n- Provider: acme\n- Mode: auto\n- Tokens (lifetime): 1500\n- Context: 500 / 1000 tokens (50%)"
    );

    store.session.usage = Usage::new(None, None, None);
    store.session.accumulated_usage = Usage::new(None, None, Some(-2));
    set_pending_compaction_request_carrying(&mut store, "done", true, Some("höher"));
    assert_eq!(
        text(&store, 0, 0, Some("2 message(s)")),
        "**Session status**\n\n- Model: m-1\n- Provider: acme\n- Mode: auto\n- Tokens (lifetime): -2\n- Context: 0 / 0 tokens (N/A)\n- Archived history: 2 message(s)\n- Compaction: requested (done), carrying 5 character(s) of note; applied at the next turn boundary"
    );
}

#[test]
fn a_request_that_waits_shows_in_the_status() {
    let mut store = store(vec![]);
    assert_eq!(pending_request(&store.session), "");

    let mut state = SessionRequestState::default();
    state.denied_compaction = Some(CompactionRequest {
        reason: "r".to_string(),
        carry: None,
        requested_at: 0,
    });
    state.write_into(&mut store.session.extension_data).unwrap();
    assert_eq!(
        pending_request(&store.session),
        "\n- Compaction: requested while not permitted; nothing was applied"
    );

    state.pending_compaction = state.denied_compaction.clone();
    state.write_into(&mut store.session.extension_data).unwrap();
    assert_eq!(
        pending_request(&store.session),
        "\n- Compaction: requested (r); applied at the next turn boundary"
    );
}

fn refusal(message: &str) -> Message {
    Message::assistant()
        .with_content(MessageContent::Error(ErrorContent {
            kind: MessageErrorKind::RequestTooLarge,
            message: message.to_string(),
        }))
        .with_visibility(true, false)
}

/// The size of each message, counted by its text alone.
fn sizes(conversation: &Conversation) -> Vec<usize> {
    conversation
        .messages()
        .iter()
        .map(|message| message.as_concat_text().len())
        .collect()
}

/// Sends the turn to a provider that refuses it `times` times and answers what
/// the operation did each time it was refused.
fn refuse(store: &mut Store, kickoff: &str, times: usize) -> Vec<bool> {
    let operation = RequestSizeOperation::new(false, None);
    let start = store.conversation.messages().len();
    store
        .conversation
        .push(Message::user().with_id("kickoff").with_text(kickoff));
    let mut acted = Vec::new();
    for _ in 0..times {
        store.conversation.push(refusal("Request body is too large"));
        let turn: Vec<Message> = store.conversation.messages()[start..].to_vec();
        let sizes = sizes(&store.conversation);
        match operation.run(&store.conversation, &turn, &sizes) {
            Some(plan) => {
                assert!(!carry_out(store, plan));
                acted.push(true);
            }
            None => acted.push(false),
        }
    }
    acted
}

#[test]
fn the_model_is_asked_twice_to_shrink_a_refused_request() {
    let mut store = store(vec![]);
    assert_eq!(refuse(&mut store, "hello", 2), vec![true, true]);

    let seen = texts(&store.conversation.agent_visible_messages());
    assert_eq!(seen.matches("rejected as too large").count(), 2);
    assert!(seen.contains("Request body is too large"));
    assert!(store.events.is_empty());
    assert!(notices(&store.shown).contains("Asking the model to reduce it..."));
}

#[test]
fn a_refusal_surfaces_once_goose_stops_asking() {
    let mut store = store(vec![]);
    assert_eq!(
        refuse(&mut store, "hello", 5),
        vec![true, true, false, false, false]
    );
    assert!(store.events.is_empty());
}

#[test]
fn the_largest_message_is_evicted_when_the_model_does_not_shrink_the_request() {
    const SENTINEL: &str = "end-of-the-oversized-message";
    let oversized = format!("bigmarker {}{SENTINEL}", "x".repeat(80 * 1024));
    let mut store = store(vec![
        Message::user().with_id("big").with_text(&oversized),
        Message::assistant().with_text("ok"),
    ]);

    assert_eq!(refuse(&mut store, "hello", 3), vec![true, true, true]);

    assert_eq!(store.events.len(), 1);
    let event = &store.events[0];
    assert_eq!(event.trigger, CompactionTrigger::Eviction);
    assert_eq!(event.archived_message_ids, vec!["big"]);
    assert_eq!(event.reason.as_deref(), Some("Request body is too large"));

    let seen = texts(&store.conversation.agent_visible_messages());
    assert!(seen.contains("goose removed"));
    assert!(seen.contains("80 KiB (text) starting: \"bigmarker xxx"));
    assert!(!seen.contains(SENTINEL));
    // The content is taken from the agent, not from the record.
    assert!(texts(store.conversation.messages()).contains(SENTINEL));
    assert!(store.conversation.messages()[0].is_user_visible());
    assert!(store
        .conversation
        .messages()
        .iter()
        .take(5)
        .all(|message| message.id.is_some()));
}

#[test]
fn an_eviction_quotes_only_the_first_line() {
    let mut store = store(vec![Message::user()
        .with_id("big")
        .with_text(&format!("heading\n{}", "y".repeat(70_000)))]);
    refuse(&mut store, "hello", 3);

    let told = store
        .conversation
        .messages()
        .last()
        .unwrap()
        .as_concat_text();
    assert!(told.contains("starting: \"heading\". It stays on record"));
}

#[test]
fn evictions_go_on_while_there_is_a_culprit() {
    let big = |id: &str, n: usize| Message::user().with_id(id).with_text(&"z".repeat(n));
    let mut store = store(vec![big("a", 70_000), big("b", 90_000), big("c", 60_000)]);

    assert_eq!(
        refuse(&mut store, "hello", 6),
        vec![true, true, true, true, false, false]
    );
    let evicted: Vec<&str> = store
        .events
        .iter()
        .map(|event| event.archived_message_ids[0].as_str())
        .collect();
    assert_eq!(evicted, vec!["b", "a"]);
}

#[test]
fn only_a_refusal_for_size_is_answered() {
    let operation = RequestSizeOperation::new(false, None);
    assert_eq!(operation.name(), "request_size");
    let run = |operation: &RequestSizeOperation, messages: Vec<Message>| {
        operation.run(
            &Conversation::new_unvalidated(messages),
            &vec![],
            &vec![],
        )
    };
    let other = Message::assistant().with_content(MessageContent::Error(ErrorContent {
        kind: MessageErrorKind::ContextLengthExceeded,
        message: "long".to_string(),
    }));

    assert_eq!(run(&operation, vec![]), None);
    assert_eq!(run(&operation, vec![other]), None);
    assert_eq!(
        run(&operation, vec![refusal("r"), Message::user().with_text("x")]),
        None
    );
    assert!(run(&operation, vec![refusal("r")]).is_some());
    let own = RequestSizeOperation::new(true, None);
    assert_eq!(run(&own, vec![refusal("r")]), None);
}

#[test]
fn refusals_that_the_agent_sees_are_not_counted() {
    let operation = RequestSizeOperation::new(false, None);
    let turn = vec![
        refusal("a"),
        refusal("b").with_visibility(true, true),
        Message::user().with_text("c"),
        refusal("d"),
    ];
    assert_eq!(operation.advisories(&turn), 2);
}

#[test]
fn the_limit_of_the_provider_is_named() {
    let operation = RequestSizeOperation::new(false, Some(32 * 1024 * 1024));
    let conversation = Conversation::new_unvalidated(vec![refusal("big")]);
    let plan = operation
        .run(&conversation, &vec![refusal("big")], &vec![])
        .unwrap();
    match &plan.effects[..] {
        [Effect::AppendMessage(advisory)] => {
            assert_eq!(advisory.role, Role::User);
            assert!(advisory.is_agent_visible() && !advisory.is_user_visible());
            assert!(advisory
                .as_concat_text()
                .contains("The provider accepts about 32.0 MiB per request"));
        }
        other => panic!("{other:?}"),
    }
}

#[test]
fn a_plan_without_a_reply_appends_none() {
    let plan = Plan {
        shown: vec![],
        reply: None,
        effects: vec![],
        yields: false,
    };
    assert_eq!(plan.complete(None), OperationResult::Applied(vec![]));
}

#[test]
fn the_stages_of_a_request_differ() {
    assert_ne!(LlmStage::Prefilling, LlmStage::ToolCallReceiving);
    assert_ne!(LlmStage::ToolCallReceiving, LlmStage::RewritingContext);
}
