use std::time::{SystemTime, UNIX_EPOCH};

use goose::capabilities::{SessionPermissions, SESSION_MODIFICATION};
use goose::compaction_event::{CompactionEvent, CompactionTrigger};
use goose::conversation::{Conversation, Message};
use goose::extension_data::ExtensionData;
use goose::json::Json;
use goose::session::{Session, Usage};
use goose::session_manager_ext::{
    request_reason, AutoCompaction, SessionManagerClient, StatusFacts, ToolCall,
    REQUEST_COMPACTION_DESCRIPTION, REQUEST_COMPACTION_TOOL_NAME, SESSION_STATUS_DESCRIPTION,
    SESSION_STATUS_TOOL_NAME,
};
use goose::session_requests::SessionRequestState;

fn session_with_history() -> Session {
    Session {
        id: "status".to_string(),
        provider_name: None,
        goose_mode: "auto".to_string(),
        usage: Usage::new(Some(500), Some(0), Some(500)),
        accumulated_usage: Usage::new(None, None, None),
        extension_data: ExtensionData::new(),
        conversation: Some(Conversation::new_unvalidated(vec![Message::user()
            .with_id("m1")
            .with_text("hello")])),
    }
}

fn facts(model_name: &str) -> StatusFacts {
    StatusFacts {
        model_name: model_name.to_string(),
        context_limit: None,
        used_percent: 0,
        counted: Some(2),
        counted_percent: 0,
        auto_compaction: Some(AutoCompaction {
            percent: 80,
            tokens: 0,
        }),
        archive: None,
    }
}

/// A summary of the archive, which names the last event and when it happened.
fn archive_summary(events: &[CompactionEvent], at: &str) -> Option<String> {
    let last = events.last()?;
    let messages: usize = events
        .iter()
        .map(|event| event.archived_message_count())
        .sum();
    Some(format!(
        "{messages} message(s) in {} event(s) (last: {} at {at})",
        events.len(),
        last.trigger.as_str()
    ))
}

/// Asks for a compaction and keeps what is recorded of it.
fn request_compaction(session: &mut Session, reason: &str) -> Result<String, String> {
    let recorded = SessionManagerClient::request_compaction(&session.extension_data, reason)?;
    if let Some(extension_data) = recorded.extension_data {
        session.extension_data = extension_data;
    }
    Ok(recorded.text)
}

#[test]
fn status_reports_usage_and_the_message_counts() {
    let session = session_with_history();

    let status = SessionManagerClient::session_status(&session, &facts("some-model"));

    assert!(status.contains("context: 500 tokens as of the last request"));
    assert!(status.contains("messages: 1 visible to you, 1 on record"));
    assert!(status.contains("archived: nothing yet"));
    assert!(status.contains("session-modification: denied"));
    // The provider's number covers the whole request; the estimate does not,
    // and the output says so rather than showing two unlabelled numbers.
    assert!(status.contains("conversation: ~"));
    assert!(status.contains("messages alone, excluding the system prompt and tool definitions"));
}

#[test]
fn status_separates_the_request_total_from_the_conversation_estimate() {
    let session = session_with_history();

    let status = SessionManagerClient::session_status(&session, &facts("some-model"));

    // Without a provider the limit is unknown, but the two numbers are still
    // labelled so they cannot be read as the same measurement.
    assert!(status.contains("as of the last request"));
    assert!(status.contains("conversation: ~"));
    assert!(status.contains("excluding the system prompt and tool definitions"));
}

#[test]
fn status_reports_the_archive_once_history_is_taken_away() {
    let mut session = session_with_history();
    let conversation = session.conversation.clone().unwrap();
    let event = CompactionEvent::new(
        CompactionTrigger::Clear,
        None,
        &conversation,
        &Conversation::empty(),
        Some(500),
        Some(0),
    );
    session.conversation = Some(Conversation::new_unvalidated(
        conversation
            .messages()
            .iter()
            .map(|message| message.clone().with_visibility(true, false))
            .collect(),
    ));
    let mut facts = facts("some-model");
    facts.archive = archive_summary(&[event], "noon");

    let status = SessionManagerClient::session_status(&session, &facts);

    assert!(status.contains("archived: 1 message(s) in 1 event(s) (last: clear at"));
    assert!(status.contains("messages: 0 visible to you, 1 on record"));
}

#[test]
fn a_request_needs_a_reason() {
    let mut session = session_with_history();

    assert!(request_compaction(&mut session, "  ").is_err());
}

#[test]
fn a_denied_request_is_recorded_so_the_user_is_told() {
    let mut session = session_with_history();

    let text = request_compaction(&mut session, "the logs are done with").unwrap();

    assert!(text.contains("/permit session-modification"));
    let state = SessionRequestState::read(&session);
    assert!(state.pending_compaction.is_none());
    assert_eq!(
        state
            .denied_compaction
            .as_ref()
            .map(|request| request.reason.as_str()),
        Some("the logs are done with")
    );
    assert_eq!(state.requested_compaction_count, 1);
    assert!(
        !SessionPermissions::read(&session.extension_data).is_granted(SESSION_MODIFICATION)
    );
}

#[test]
fn a_permitted_request_is_queued_and_asks_once() {
    let mut session = session_with_history();
    let mut permissions = SessionPermissions::default();
    permissions.grant(SESSION_MODIFICATION);
    permissions
        .write_into(&mut session.extension_data)
        .unwrap();

    let text = request_compaction(&mut session, "the logs are done with").unwrap();
    assert!(text.contains("Compaction requested"));

    let state = SessionRequestState::read(&session);
    assert_eq!(
        state
            .pending_compaction
            .as_ref()
            .map(|request| request.reason.as_str()),
        Some("the logs are done with")
    );

    let again = request_compaction(&mut session, "again").unwrap();
    assert!(again.contains("already pending"));
    // The pending request stays, and so does the count of requests.
    assert_eq!(SessionRequestState::read(&session), state);
}

#[test]
fn unknown_tools_are_rejected() {
    assert_eq!(
        SessionManagerClient::tool_call("not_a_tool", None),
        ToolCall::Unknown
    );
    let result = SessionManagerClient::tool_outcome(SessionManagerClient::unknown_tool("not_a_tool"));

    assert!(result.is_error);
    assert_eq!(result.text, "Error: Unknown tool: not_a_tool");
}

#[test]
fn the_extension_lists_its_tools_in_order() {
    let tools = SessionManagerClient::get_tools();
    let names: Vec<&str> = tools.iter().map(|tool| tool.name).collect();
    assert_eq!(
        names,
        vec![SESSION_STATUS_TOOL_NAME, REQUEST_COMPACTION_TOOL_NAME]
    );

    let (status, request) = (tools[0], tools[1]);
    assert_eq!((status.title, request.title), ("Session status", "Request compaction"));
    assert!(status.read_only && status.idempotent && !status.destructive && !status.open_world);
    assert!(!request.read_only && !request.idempotent && !request.destructive && request.open_world);
    assert_eq!(status.description, SESSION_STATUS_DESCRIPTION);
    assert!(SESSION_STATUS_DESCRIPTION.starts_with("Report how full your context is"));
    assert!(SESSION_STATUS_DESCRIPTION.ends_with("still needs to be in context.\n"));
    assert_eq!(request.description, REQUEST_COMPACTION_DESCRIPTION);
    assert!(REQUEST_COMPACTION_DESCRIPTION.contains("\n\nIt only happens if the user has permitted"));
}

#[test]
fn the_server_introduces_itself() {
    let client = SessionManagerClient::new();
    let info = client.get_info().unwrap();
    assert_eq!(
        (info.name, info.version, info.title),
        ("session-manager", "1.0.0", "Session Manager")
    );
    assert!(info.instructions.contains("Use session_status to see how full"));
}

#[test]
fn the_reason_is_taken_from_the_arguments() {
    let call = |arguments: Option<&Json>| match SessionManagerClient::tool_call(
        REQUEST_COMPACTION_TOOL_NAME,
        arguments,
    ) {
        ToolCall::RequestCompaction { reason } => reason.to_string(),
        other => panic!("{other:?}"),
    };
    let object = |value: Json| Json::Object(vec![("reason".to_string(), value)]);

    assert_eq!(call(None), "");
    assert_eq!(call(Some(&Json::Object(vec![]))), "");
    assert_eq!(call(Some(&object(Json::PosInt(1)))), "");
    assert_eq!(call(Some(&object(Json::text(" done ")))), " done ");
    assert_eq!(
        SessionManagerClient::tool_call(SESSION_STATUS_TOOL_NAME, None),
        ToolCall::SessionStatus
    );
    assert_eq!(
        SessionManagerClient::tool_outcome(Ok("fine".to_string())).text,
        "fine"
    );
}

#[test]
fn a_request_is_stamped_with_the_time_it_was_made() {
    let seconds = || {
        SystemTime::now()
            .duration_since(UNIX_EPOCH)
            .unwrap()
            .as_secs() as i64
    };
    let mut session = session_with_history();
    let before = seconds();
    request_compaction(&mut session, "  now ").unwrap();
    let after = seconds();

    let request = SessionRequestState::read(&session).denied_compaction.unwrap();
    assert!(before <= request.requested_at && request.requested_at <= after);
    assert_eq!(request.reason, "now");
    assert_eq!(request.carry, None);
}

#[test]
fn what_a_request_comes_to_is_told_word_for_word() {
    assert_eq!(
        SessionManagerClient::request_compaction_at(&ExtensionData::new(), "\n", 5),
        Err("A reason is required: it is the record of the request.".to_string())
    );
    assert_eq!(request_reason(" x "), Ok("x"));

    let denied =
        SessionManagerClient::request_compaction_at(&ExtensionData::new(), "r", 5).unwrap();
    assert_eq!(
        denied.text,
        "Compaction is not permitted in this session, so nothing was done. The user has been shown your request and can run /permit session-modification to allow it; ask them if you need it now."
    );
    let state = SessionRequestState::from_extension_data(&denied.extension_data.unwrap()).unwrap();
    assert_eq!(state.denied_compaction.unwrap().requested_at, 5);

    let mut granted = ExtensionData::new();
    let mut permissions = SessionPermissions::default();
    permissions.grant(SESSION_MODIFICATION);
    permissions.write_into(&mut granted).unwrap();
    let queued = SessionManagerClient::request_compaction_at(&granted, "r", 6).unwrap();
    assert_eq!(
        queued.text,
        "Compaction requested. It will be applied at the next turn boundary, before your next request."
    );
    let queued = queued.extension_data.unwrap();
    assert_eq!(SessionPermissions::read(&queued), permissions);
    let again = SessionManagerClient::request_compaction_at(&queued, "other", 7).unwrap();
    assert_eq!(
        again.text,
        "A compaction request is already pending; it will be applied before your next turn."
    );
    assert_eq!(again.extension_data, None);
}

#[test]
fn a_full_status_reads_as_documented() {
    let mut session = session_with_history();
    session.provider_name = Some("acme".to_string());
    let mut permissions = SessionPermissions::default();
    permissions.grant(SESSION_MODIFICATION);
    permissions
        .write_into(&mut session.extension_data)
        .unwrap();
    let facts = StatusFacts {
        model_name: "m".to_string(),
        context_limit: Some(1_000),
        used_percent: 50,
        counted: Some(120),
        counted_percent: 12,
        auto_compaction: Some(AutoCompaction {
            percent: 40,
            tokens: 400,
        }),
        archive: Some("3 message(s)".to_string()),
    };
    assert_eq!(
        SessionManagerClient::session_status(&session, &facts),
        "session: status\n\
         model: m (acme)\n\
         context: 500 / 1000 tokens (50%) as of the last request; that is the whole request, including the system prompt and tool definitions\n\
         conversation: ~120 tokens (12%) counted now; messages alone, excluding the system prompt and tool definitions\n\
         auto-compaction: at 40% of the limit (400 tokens); -100 tokens to go\n\
         messages: 1 visible to you, 1 on record\n\
         archived: 3 message(s)\n\
         session-modification: permitted"
    );
}

#[test]
fn a_status_of_which_little_is_known_says_so() {
    let mut session = session_with_history();
    session.usage = Usage::new(None, None, Some(-1));
    session.conversation = None;
    let facts = StatusFacts {
        model_name: "m".to_string(),
        context_limit: Some(0),
        used_percent: 0,
        counted: Some(-5),
        counted_percent: 0,
        auto_compaction: None,
        archive: None,
    };
    assert_eq!(
        SessionManagerClient::session_status(&session, &facts),
        "session: status\n\
         model: m (unknown)\n\
         context: not reported by the provider yet\n\
         auto-compaction: disabled\n\
         messages: 0 visible to you, 0 on record\n\
         archived: nothing yet\n\
         session-modification: denied (the user can run /permit session-modification)"
    );

    session.usage = Usage::new(None, None, Some(9));
    let mut partial = facts;
    partial.auto_compaction = Some(AutoCompaction {
        percent: 80,
        tokens: 0,
    });
    let status = SessionManagerClient::session_status(&session, &partial);
    assert!(status.contains("context: 9 tokens as of the last request (limit unknown)\n"));
    assert!(status.contains("auto-compaction: at 80% of the limit\n"));
}
