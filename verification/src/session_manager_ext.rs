//! Gives the model a view of the session it is working in, so it can plan around
//! the context window instead of discovering the limit by hitting it, and lets it
//! ask for a compaction. Asking changes nothing by itself: the request is
//! recorded, and the runtime decides what becomes of it.

use vstd::prelude::*;
use vstd::string::*;

use crate::capabilities::{grants_in, SessionPermissions, SESSION_MODIFICATION};
use crate::conversation::{agent_visible, message_views, option_view, Message, MessageView};
use crate::extension_data::{ExtensionData, Key};
use crate::json::{field, Json, JsonView};
use crate::session::Session;
use crate::session_requests::{
    counted_up, recording_a_request_grants_nothing, requests_in, requests_key, state_record,
    state_round_trips, CompactionRequest, RequestStateView, RequestView, SessionRequestState,
};
use crate::text::{
    a_join_holds_every_part, decimal, four_parts_are_one, join, joined, occurs,
    occurs_is_transitive, push_decimal, push_signed, same, signed_decimal, trim, trimmed,
    trimming_takes_white_space_from_the_ends, two_parts_are_one, views, what_comes_last_occurs,
    what_occurs_stays, whitespace,
};

verus! {

pub const EXTENSION_NAME: &'static str = "session-manager";

pub const SESSION_STATUS_TOOL_NAME: &'static str = "session_status";

pub const SESSION_STATUS_TOOL_NAME_COMPLETE: &'static str = "session-manager__session_status";

pub const REQUEST_COMPACTION_TOOL_NAME: &'static str = "request_compaction";

pub const REQUEST_COMPACTION_TOOL_NAME_COMPLETE: &'static str =
    "session-manager__request_compaction";

/// What the server says of itself to the model.
pub const INSTRUCTIONS: &'static str =
    "Session management tools report on the session you are working in.\n\nUse session_status to see how full your context is before you commit to a long\nstretch of work, and when you are deciding whether history still has to be kept.\n";

pub const SESSION_STATUS_DESCRIPTION: &'static str =
    "Report how full your context is: tokens used and the model's context limit, the\nauto-compaction threshold and how much room is left before it triggers, how many\nmessages are visible to you versus kept on record, and what history has been\narchived.\n\nRead-only. Use it before starting a long run of tool calls, and when you are\ndeciding whether earlier history still needs to be in context.\n";

pub const REQUEST_COMPACTION_DESCRIPTION: &'static str =
    "Ask for the session to compact its conversation history now.\n\nCompaction replaces the conversation so far with a summary, so anything you still\nneed in detail will be gone from your context; the messages stay on record and\n/archive can show them. Ask for it when the work has moved on and earlier history\nis no longer worth its space — a long tool output you have finished with, a\nsub-task you have closed out — rather than waiting for the automatic threshold.\n\nIt only happens if the user has permitted session modification in this session, and\nit is applied at the next turn boundary, before your next request.\n";

/// What the server calls itself.
#[derive(Debug, Clone, Copy, PartialEq, Eq)]
pub struct ServerInfo {
    pub name: &'static str,
    pub version: &'static str,
    pub title: &'static str,
    pub instructions: &'static str,
}

#[derive(Debug, Clone, Copy, PartialEq, Eq)]
pub struct SessionManagerClient {
    pub info: ServerInfo,
}

/// A tool and what it does to the session.
#[derive(Debug, Clone, Copy, PartialEq, Eq)]
pub struct ToolDef {
    pub name: &'static str,
    pub description: &'static str,
    pub title: &'static str,
    pub read_only: bool,
    pub destructive: bool,
    pub idempotent: bool,
    pub open_world: bool,
}

/// What a tool answers.
#[derive(Debug, PartialEq, Eq)]
pub struct ToolOutcome {
    pub text: String,
    pub is_error: bool,
}

/// Which tool is called, and with what.
#[derive(Debug, Clone, Copy, PartialEq, Eq)]
pub enum ToolCall<'a> {
    SessionStatus,
    RequestCompaction { reason: &'a str },
    Unknown,
}

/// Where automatic compaction sets in.
#[derive(Debug, Clone, Copy, PartialEq, Eq)]
pub struct AutoCompaction {
    /// In percent of the limit.
    pub percent: u64,
    /// In tokens, where the limit is known.
    pub tokens: i32,
}

/// What a session's status depends on besides the session.
#[derive(Debug, PartialEq, Eq)]
pub struct StatusFacts {
    pub model_name: String,
    /// The size of the model's context in tokens, where it is known.
    pub context_limit: Option<usize>,
    /// The share of the limit that the last request took, in percent.
    pub used_percent: u64,
    /// The size of the conversation in tokens, where it could be counted.
    pub counted: Option<i32>,
    /// The share of the limit that the conversation takes, in percent.
    pub counted_percent: u64,
    /// Where automatic compaction sets in, unless it is disabled.
    pub auto_compaction: Option<AutoCompaction>,
    /// What the archive holds, where it holds anything.
    pub archive: Option<String>,
}

/// A number of tokens that makes sense.
pub open spec fn sensible(tokens: Option<i32>) -> Option<i32> {
    match tokens {
        Some(tokens) => if tokens >= 0 {
            Some(tokens)
        } else {
            None
        },
        None => None,
    }
}

/// A limit that makes sense.
pub open spec fn known_limit(limit: Option<usize>) -> Option<usize> {
    match limit {
        Some(limit) => if limit > 0 {
            Some(limit)
        } else {
            None
        },
        None => None,
    }
}

pub open spec fn context_line(used: Option<i32>, limit: Option<usize>, percent: u64) -> Seq<char> {
    match (used, limit) {
        (Some(used), Some(limit)) => "context: "@ + signed_decimal(used as int) + " / "@ + decimal(
            limit as nat,
        ) + " tokens ("@ + decimal(percent as nat)
            + "%) as of the last request; that is the whole request, including the system prompt and tool definitions"@,
        (Some(used), None) => "context: "@ + signed_decimal(used as int)
            + " tokens as of the last request (limit unknown)"@,
        (None, _) => "context: not reported by the provider yet"@,
    }
}

pub open spec fn share_text(limit: Option<usize>, percent: u64) -> Seq<char> {
    match limit {
        Some(_) => " ("@ + decimal(percent as nat) + "%)"@,
        None => ""@,
    }
}

pub open spec fn conversation_line(counted: i32, limit: Option<usize>, percent: u64) -> Seq<char> {
    "conversation: ~"@ + signed_decimal(counted as int) + " tokens"@ + share_text(limit, percent)
        + " counted now; messages alone, excluding the system prompt and tool definitions"@
}

/// How far it is from `used` to `threshold`, as far as 32 bits go.
pub open spec fn tokens_to_go(threshold: i32, used: i32) -> int {
    if threshold - used < i32::MIN {
        i32::MIN as int
    } else {
        threshold - used
    }
}

pub open spec fn auto_compaction_line(
    auto: Option<AutoCompaction>,
    used: Option<i32>,
    limit: Option<usize>,
) -> Seq<char> {
    match (auto, used, limit) {
        (None, _, _) => "auto-compaction: disabled"@,
        (Some(auto), Some(used), Some(_)) => "auto-compaction: at "@ + decimal(auto.percent as nat)
            + "% of the limit ("@ + signed_decimal(auto.tokens as int) + " tokens); "@
            + signed_decimal(tokens_to_go(auto.tokens, used)) + " tokens to go"@,
        (Some(auto), _, _) => "auto-compaction: at "@ + decimal(auto.percent as nat)
            + "% of the limit"@,
    }
}

pub open spec fn messages_line(messages: Seq<MessageView>) -> Seq<char> {
    "messages: "@ + decimal(agent_visible(messages).len()) + " visible to you, "@ + decimal(
        messages.len(),
    ) + " on record"@
}

pub open spec fn archived_line(archive: Option<Seq<char>>) -> Seq<char> {
    match archive {
        Some(detail) => "archived: "@ + detail,
        None => "archived: nothing yet"@,
    }
}

pub open spec fn permission_line(permitted: bool) -> Seq<char> {
    if permitted {
        "session-modification: permitted"@
    } else {
        "session-modification: denied (the user can run /permit session-modification)"@
    }
}

/// The messages of a session, none where they were not loaded.
pub open spec fn messages_of(session: Session) -> Seq<MessageView> {
    match session.conversation {
        Some(conversation) => conversation@,
        None => Seq::empty(),
    }
}

/// The provider of a session by name.
pub open spec fn provider_of(session: Session) -> Seq<char> {
    match session.provider_name {
        Some(name) => name@,
        None => "unknown"@,
    }
}

/// The lines of a session's status.
pub open spec fn status_lines(session: Session, facts: StatusFacts) -> Seq<Seq<char>> {
    let used = sensible(session.usage.total_tokens);
    let limit = known_limit(facts.context_limit);
    seq![
        "session: "@ + session.id@,
        "model: "@ + facts.model_name@ + " ("@ + provider_of(session) + ")"@,
        context_line(used, limit, facts.used_percent),
    ] + (match sensible(facts.counted) {
        Some(counted) => seq![conversation_line(counted, limit, facts.counted_percent)],
        None => Seq::empty(),
    }) + seq![
        auto_compaction_line(facts.auto_compaction, used, limit),
        messages_line(messages_of(session)),
        archived_line(option_view(facts.archive)),
        permission_line(grants_in(session.extension_data@).contains(SESSION_MODIFICATION@)),
    ]
}

fn sensible_tokens(tokens: Option<i32>) -> (r: Option<i32>)
    ensures
        r == sensible(tokens),
{
    match tokens {
        Some(tokens) => if tokens >= 0 {
            Some(tokens)
        } else {
            None
        },
        None => None,
    }
}

fn sensible_limit(limit: Option<usize>) -> (r: Option<usize>)
    ensures
        r == known_limit(limit),
{
    match limit {
        Some(limit) => if limit > 0 {
            Some(limit)
        } else {
            None
        },
        None => None,
    }
}

fn write_context(used: Option<i32>, limit: Option<usize>, percent: u64) -> (r: String)
    ensures
        r@ == context_line(used, limit, percent),
{
    match (used, limit) {
        (Some(used), Some(limit)) => {
            let mut line: String = "context: ".to_owned();
            push_signed(&mut line, used as i64);
            line.append(" / ");
            push_decimal(&mut line, limit as u64);
            line.append(" tokens (");
            push_decimal(&mut line, percent);
            line.append(
                "%) as of the last request; that is the whole request, including the system prompt and tool definitions",
            );
            line
        },
        (Some(used), None) => {
            let mut line: String = "context: ".to_owned();
            push_signed(&mut line, used as i64);
            line.append(" tokens as of the last request (limit unknown)");
            line
        },
        (None, _) => "context: not reported by the provider yet".to_owned(),
    }
}

fn write_conversation(counted: i32, limit: Option<usize>, percent: u64) -> (r: String)
    ensures
        r@ == conversation_line(counted, limit, percent),
{
    let share: String = match limit {
        Some(_) => {
            let mut share: String = " (".to_owned();
            push_decimal(&mut share, percent);
            share.append("%)");
            share
        },
        None => "".to_owned(),
    };
    let mut line: String = "conversation: ~".to_owned();
    push_signed(&mut line, counted as i64);
    line.append(" tokens");
    line.append(share.as_str());
    line.append(" counted now; messages alone, excluding the system prompt and tool definitions");
    line
}

fn write_auto_compaction(
    auto: Option<AutoCompaction>,
    used: Option<i32>,
    limit: Option<usize>,
) -> (r: String)
    ensures
        r@ == auto_compaction_line(auto, used, limit),
{
    match (auto, used, limit) {
        (None, _, _) => "auto-compaction: disabled".to_owned(),
        (Some(auto), Some(used), Some(_)) => {
            let mut to_go: i64 = auto.tokens as i64 - used as i64;
            if to_go < i32::MIN as i64 {
                to_go = i32::MIN as i64;
            }
            let mut line: String = "auto-compaction: at ".to_owned();
            push_decimal(&mut line, auto.percent);
            line.append("% of the limit (");
            push_signed(&mut line, auto.tokens as i64);
            line.append(" tokens); ");
            push_signed(&mut line, to_go);
            line.append(" tokens to go");
            line
        },
        (Some(auto), _, _) => {
            let mut line: String = "auto-compaction: at ".to_owned();
            push_decimal(&mut line, auto.percent);
            line.append("% of the limit");
            line
        },
    }
}

fn write_messages(session: &Session) -> (r: String)
    ensures
        r@ == messages_line(messages_of(*session)),
{
    let (visible, on_record): (usize, usize) = match &session.conversation {
        Some(conversation) => {
            let visible: Vec<Message> = conversation.agent_visible_messages();
            let all: &Vec<Message> = conversation.messages();
            assert(message_views(visible@).len() == visible@.len());
            assert(message_views(all@).len() == all@.len());
            (visible.len(), all.len())
        },
        None => {
            proof {
                reveal(Seq::filter);
            }
            assert(agent_visible(Seq::empty()).len() == 0);
            (0, 0)
        },
    };
    let mut line: String = "messages: ".to_owned();
    push_decimal(&mut line, visible as u64);
    line.append(" visible to you, ");
    push_decimal(&mut line, on_record as u64);
    line.append(" on record");
    line
}

/// What is recorded of a request.
#[derive(Debug, PartialEq, Eq)]
pub struct RecordedRequest {
    /// What the model is told.
    pub text: String,
    /// What the session's records become, where they change.
    pub extension_data: Option<ExtensionData>,
}

pub open spec fn reason_missing_text() -> Seq<char> {
    "A reason is required: it is the record of the request."@
}

pub open spec fn already_pending_text() -> Seq<char> {
    "A compaction request is already pending; it will be applied before your next turn."@
}

pub open spec fn requested_text() -> Seq<char> {
    "Compaction requested. It will be applied at the next turn boundary, before your next request."@
}

pub open spec fn not_permitted_text() -> Seq<char> {
    "Compaction is not permitted in this session, so nothing was done. The user has been shown your request and can run /permit session-modification to allow it; ask them if you need it now."@
}

/// Whether the session's records let the model compact its history.
pub open spec fn permitted(data: Map<Key, JsonView>) -> bool {
    grants_in(data).contains(SESSION_MODIFICATION@)
}

/// What the model is told of its request.
pub open spec fn recorded_text(data: Map<Key, JsonView>) -> Seq<char> {
    if !permitted(data) {
        not_permitted_text()
    } else if requests_in(data).pending_compaction is Some {
        already_pending_text()
    } else {
        requested_text()
    }
}

/// The state of the requests once one more was made, where it is recorded: a
/// request is not recorded while another one is pending.
pub open spec fn recorded_as(data: Map<Key, JsonView>, reason: Seq<char>, now: i64) -> Option<
    RequestStateView,
> {
    let state = requests_in(data);
    let request = RequestView { reason: trimmed(reason), carry: None, requested_at: now };
    let counted = RequestStateView {
        requested_compaction_count: counted_up(state.requested_compaction_count),
        ..state
    };
    if !permitted(data) {
        Some(RequestStateView { denied_compaction: Some(request), ..counted })
    } else if state.pending_compaction is Some {
        None
    } else {
        Some(RequestStateView { pending_compaction: Some(request), ..counted })
    }
}

/// Whether `recorded` is what comes of a request made at `now`.
pub open spec fn records(
    recorded: RecordedRequest,
    data: Map<Key, JsonView>,
    reason: Seq<char>,
    now: i64,
) -> bool {
    &&& recorded.text@ == recorded_text(data)
    &&& match (recorded.extension_data, recorded_as(data, reason, now)) {
        (Some(after), Some(state)) => after@ == data.insert(requests_key(), state_record(state)),
        (None, None) => true,
        _ => false,
    }
}

/// The number of seconds since the epoch, by `chrono::Utc::now().timestamp()`.
/// It depends on the clock of the machine, so nothing is said of it.
#[verifier::external_body]
fn current_timestamp() -> (r: i64) {
    chrono::Utc::now().timestamp()
}

/// The reason for a request without the white space around it, which has to
/// leave something.
pub fn request_reason<'a>(reason: &'a str) -> (r: Result<&'a str, String>)
    ensures
        match r {
            Ok(kept) => trimmed(reason@).len() > 0 && kept@ == trimmed(reason@),
            Err(error) => trimmed(reason@).len() == 0 && error@ == reason_missing_text(),
        },
{
    let kept: &str = trim(reason);
    if kept.unicode_len() == 0 {
        Err("A reason is required: it is the record of the request.".to_owned())
    } else {
        Ok(kept)
    }
}

impl SessionManagerClient {
    pub fn new() -> (r: Self)
        ensures
            r.info.name@ == EXTENSION_NAME@,
            r.info.version@ == "1.0.0"@,
            r.info.title@ == "Session Manager"@,
            r.info.instructions@ == INSTRUCTIONS@,
    {
        SessionManagerClient {
            info: ServerInfo {
                name: EXTENSION_NAME,
                version: "1.0.0",
                title: "Session Manager",
                instructions: INSTRUCTIONS,
            },
        }
    }

    pub fn get_info(&self) -> (r: Option<&ServerInfo>)
        ensures
            r == Some(&self.info),
    {
        Some(&self.info)
    }

    /// Reports on the session: how full its context is, when it is compacted,
    /// what is on record, and what the model may do about it.
    pub fn session_status(session: &Session, facts: &StatusFacts) -> (r: String)
        ensures
            r@ == joined(status_lines(*session, *facts), "\n"@),
    {
        let used: Option<i32> = sensible_tokens(session.usage.total_tokens);
        let limit: Option<usize> = sensible_limit(facts.context_limit);

        let mut lines: Vec<String> = Vec::new();
        let mut first: String = "session: ".to_owned();
        first.append(session.id.as_str());
        lines.push(first);
        let mut model: String = "model: ".to_owned();
        model.append(facts.model_name.as_str());
        model.append(" (");
        match &session.provider_name {
            Some(name) => {
                model.append(name.as_str());
            },
            None => {
                model.append("unknown");
            },
        }
        model.append(")");
        lines.push(model);
        lines.push(write_context(used, limit, facts.used_percent));
        match sensible_tokens(facts.counted) {
            Some(counted) => {
                lines.push(write_conversation(counted, limit, facts.counted_percent));
            },
            None => {},
        }
        lines.push(write_auto_compaction(facts.auto_compaction, used, limit));
        lines.push(write_messages(session));
        match &facts.archive {
            Some(detail) => {
                let mut archived: String = "archived: ".to_owned();
                archived.append(detail.as_str());
                lines.push(archived);
            },
            None => {
                lines.push("archived: nothing yet".to_owned());
            },
        }
        if SessionPermissions::read(&session.extension_data).is_granted(SESSION_MODIFICATION) {
            lines.push("session-modification: permitted".to_owned());
        } else {
            lines.push(
                "session-modification: denied (the user can run /permit session-modification)".to_owned(),
            );
        }
        assert(views(lines@) =~= status_lines(*session, *facts));
        join(&lines, "\n")
    }

    /// Records that the model asks for a compaction, now.
    pub fn request_compaction(extension_data: &ExtensionData, reason: &str) -> (r: Result<
        RecordedRequest,
        String,
    >)
        ensures
            match r {
                Ok(recorded) => trimmed(reason@).len() > 0 && exists|now: i64|
                    #[trigger] records(recorded, extension_data@, reason@, now),
                Err(error) => trimmed(reason@).len() == 0 && error@ == reason_missing_text(),
            },
    {
        let now: i64 = current_timestamp();
        SessionManagerClient::request_compaction_at(extension_data, reason, now)
    }

    /// Records that the model asks for a compaction at `now`, in seconds since
    /// the epoch.
    pub fn request_compaction_at(extension_data: &ExtensionData, reason: &str, now: i64) -> (r:
        Result<RecordedRequest, String>)
        ensures
            match r {
                Ok(recorded) => trimmed(reason@).len() > 0 && records(
                    recorded,
                    extension_data@,
                    reason@,
                    now,
                ),
                Err(error) => trimmed(reason@).len() == 0 && error@ == reason_missing_text(),
            },
    {
        let reason: &str = match request_reason(reason) {
            Ok(reason) => reason,
            Err(error) => {
                return Err(error);
            },
        };
        let request = CompactionRequest {
            reason: reason.to_owned(),
            carry: None,
            requested_at: now,
        };
        let mut state: SessionRequestState = match SessionRequestState::from_extension_data(
            extension_data,
        ) {
            Some(state) => state,
            None => SessionRequestState::default(),
        };
        state.requested_compaction_count = state.requested_compaction_count.saturating_add(1);

        let text: &str = if SessionPermissions::read(extension_data).is_granted(
            SESSION_MODIFICATION,
        ) {
            if state.pending_compaction.is_some() {
                return Ok(
                    RecordedRequest {
                        text: "A compaction request is already pending; it will be applied before your next turn.".to_owned(),
                        extension_data: None,
                    },
                );
            }
            state.pending_compaction = Some(request);
            "Compaction requested. It will be applied at the next turn boundary, before your next request."
        } else {
            state.denied_compaction = Some(request);
            "Compaction is not permitted in this session, so nothing was done. The user has been shown your request and can run /permit session-modification to allow it; ask them if you need it now."
        };
        let mut after: ExtensionData = extension_data.clone();
        let _ = state.write_into(&mut after);
        Ok(RecordedRequest { text: text.to_owned(), extension_data: Some(after) })
    }

    pub fn get_tools() -> (r: Vec<ToolDef>)
        ensures
            r@.len() == 2,
            is_status_tool(r@[0]),
            is_request_tool(r@[1]),
    {
        let mut tools: Vec<ToolDef> = Vec::new();
        tools.push(
            ToolDef {
                name: SESSION_STATUS_TOOL_NAME,
                description: SESSION_STATUS_DESCRIPTION,
                title: "Session status",
                read_only: true,
                destructive: false,
                idempotent: true,
                open_world: false,
            },
        );
        tools.push(
            ToolDef {
                name: REQUEST_COMPACTION_TOOL_NAME,
                description: REQUEST_COMPACTION_DESCRIPTION,
                title: "Request compaction",
                read_only: false,
                destructive: false,
                idempotent: false,
                open_world: true,
            },
        );
        tools
    }

    /// Which tool a call is for. A compaction is asked for with a reason, which
    /// is empty where the arguments hold none.
    pub fn tool_call<'a>(name: &str, arguments: Option<&'a Json>) -> (r: ToolCall<'a>)
        ensures
            match r {
                ToolCall::SessionStatus => name@ == SESSION_STATUS_TOOL_NAME@,
                ToolCall::RequestCompaction { reason } => name@ == REQUEST_COMPACTION_TOOL_NAME@
                    && reason@ == reason_given(
                    match arguments {
                        Some(arguments) => Some(arguments@),
                        None => None,
                    },
                ),
                ToolCall::Unknown => name@ != SESSION_STATUS_TOOL_NAME@ && name@
                    != REQUEST_COMPACTION_TOOL_NAME@,
            },
    {
        if same(name, SESSION_STATUS_TOOL_NAME) {
            ToolCall::SessionStatus
        } else if same(name, REQUEST_COMPACTION_TOOL_NAME) {
            let reason: &'a str = match arguments {
                Some(arguments) => match arguments.get("reason") {
                    Some(value) => match value.as_str() {
                        Some(reason) => reason,
                        None => "",
                    },
                    None => "",
                },
                None => "",
            };
            ToolCall::RequestCompaction { reason }
        } else {
            ToolCall::Unknown
        }
    }

    /// What a call of a tool that there is not comes to.
    pub fn unknown_tool(name: &str) -> (r: Result<String, String>)
        ensures
            r is Err,
            r->Err_0@ == "Unknown tool: "@ + name@,
    {
        let mut error: String = "Unknown tool: ".to_owned();
        error.append(name);
        Err(error)
    }

    /// What the model is told of a call.
    pub fn tool_outcome(result: Result<String, String>) -> (r: ToolOutcome)
        ensures
            match result {
                Ok(text) => !r.is_error && r.text@ == text@,
                Err(error) => r.is_error && r.text@ == "Error: "@ + error@,
            },
    {
        match result {
            Ok(text) => ToolOutcome { text, is_error: false },
            Err(error) => {
                let mut text: String = "Error: ".to_owned();
                text.append(error.as_str());
                ToolOutcome { text, is_error: true }
            },
        }
    }
}

/// The tool that reports on the session: it only reads.
pub open spec fn is_status_tool(tool: ToolDef) -> bool {
    &&& tool.name@ == SESSION_STATUS_TOOL_NAME@
    &&& tool.description@ == SESSION_STATUS_DESCRIPTION@
    &&& tool.title@ == "Session status"@
    &&& tool.read_only
    &&& !tool.destructive
    &&& tool.idempotent
    &&& !tool.open_world
}

/// The tool that asks for a compaction.
pub open spec fn is_request_tool(tool: ToolDef) -> bool {
    &&& tool.name@ == REQUEST_COMPACTION_TOOL_NAME@
    &&& tool.description@ == REQUEST_COMPACTION_DESCRIPTION@
    &&& tool.title@ == "Request compaction"@
    &&& !tool.read_only
    &&& !tool.destructive
    &&& !tool.idempotent
    &&& tool.open_world
}

/// The reason among the arguments of a call.
pub open spec fn reason_given(arguments: Option<JsonView>) -> Seq<char> {
    match arguments {
        Some(JsonView::Object(fields)) => match field(fields, "reason"@) {
            Some(JsonView::Text(reason)) => reason,
            _ => ""@,
        },
        _ => ""@,
    }
}

/// A tool cannot grant the model anything: whatever it asks for, the grants stay
/// what they were, and so does every record but that of the requests.
pub proof fn asking_grants_nothing(
    recorded: RecordedRequest,
    data: Map<Key, JsonView>,
    reason: Seq<char>,
    now: i64,
)
    requires
        records(recorded, data, reason, now),
        recorded.extension_data is Some,
    ensures
        grants_in(recorded.extension_data->0@) == grants_in(data),
        forall|key: Key|
            key != requests_key() ==> #[trigger] recorded.extension_data->0@.contains_key(key)
                == data.contains_key(key) && (data.contains_key(key)
                ==> recorded.extension_data->0@[key] == data[key]),
{
    let state = recorded_as(data, reason, now)->0;
    recording_a_request_grants_nothing(data, state_record(state));
}

/// A session that may not be compacted has no request queued by asking: what was
/// pending stays, and the request waits to be reported.
pub proof fn a_denied_request_queues_nothing(
    recorded: RecordedRequest,
    data: Map<Key, JsonView>,
    reason: Seq<char>,
    now: i64,
)
    requires
        records(recorded, data, reason, now),
        !permitted(data),
    ensures
        recorded.extension_data is Some,
        requests_in(recorded.extension_data->0@).pending_compaction == requests_in(
            data,
        ).pending_compaction,
        requests_in(recorded.extension_data->0@).denied_compaction == Some(
            RequestView { reason: trimmed(reason), carry: None, requested_at: now },
        ),
{
    state_round_trips(recorded_as(data, reason, now)->0);
}

/// A request that is pending stays as it is: asking again changes nothing on
/// record.
pub proof fn a_pending_request_is_kept(
    recorded: RecordedRequest,
    data: Map<Key, JsonView>,
    reason: Seq<char>,
    now: i64,
)
    requires
        records(recorded, data, reason, now),
        permitted(data),
    ensures
        (recorded.extension_data is None) == (requests_in(data).pending_compaction is Some),
        recorded.extension_data is Some ==> requests_in(
            recorded.extension_data->0@,
        ).pending_compaction == Some(
            RequestView { reason: trimmed(reason), carry: None, requested_at: now },
        ),
{
    if let Some(state) = recorded_as(data, reason, now) {
        state_round_trips(state);
    }
}

/// The tokens to go and those used make up the threshold, so there are some to go
/// exactly while the threshold is not reached, and past it the number tells by
/// how much. Only what 32 bits cannot hold is cut.
pub proof fn the_threshold_is_what_is_used_and_what_is_to_go(threshold: i32, used: i32)
    requires
        used >= 0,
    ensures
        threshold - used >= i32::MIN ==> tokens_to_go(threshold, used) + used == threshold,
        threshold - used < i32::MIN ==> tokens_to_go(threshold, used) == i32::MIN,
        (tokens_to_go(threshold, used) > 0) == (used < threshold),
        (tokens_to_go(threshold, used) == 0) == (used == threshold),
{
}

proof fn lemma_a_line_is_told(session: Session, facts: StatusFacts, i: int)
    requires
        0 <= i < status_lines(session, facts).len(),
    ensures
        occurs(joined(status_lines(session, facts), "\n"@), status_lines(session, facts)[i]),
{
    a_join_holds_every_part(status_lines(session, facts), "\n"@, i);
}

/// The place of the first line after that of the conversation.
spec fn after_the_conversation(facts: StatusFacts) -> int {
    if facts.counted is Some && facts.counted->0 >= 0 {
        4
    } else {
        3
    }
}

/// The status has one line more exactly if the conversation could be counted.
pub proof fn the_conversation_is_counted_or_passed_over(session: Session, facts: StatusFacts)
    ensures
        status_lines(session, facts).len() == if facts.counted is Some && facts.counted->0 >= 0 {
            8int
        } else {
            7int
        },
{
}

/// The status tells which session it is of, and its model and provider.
pub proof fn the_status_names_the_session(session: Session, facts: StatusFacts)
    ensures
        occurs(joined(status_lines(session, facts), "\n"@), "session: "@ + session.id@),
        session.provider_name is Some ==> occurs(
            joined(status_lines(session, facts), "\n"@),
            "model: "@ + facts.model_name@ + " ("@ + session.provider_name->0@ + ")"@,
        ),
        session.provider_name is None ==> occurs(
            joined(status_lines(session, facts), "\n"@),
            "model: "@ + facts.model_name@ + " ("@ + "unknown"@ + ")"@,
        ),
{
    lemma_a_line_is_told(session, facts, 0);
    lemma_a_line_is_told(session, facts, 1);
}

/// The status tells how many tokens the last request took, of how many there are
/// where that is known, and otherwise that it is not.
pub proof fn the_status_tells_how_full_the_context_is(session: Session, facts: StatusFacts)
    ensures
        session.usage.total_tokens is Some && session.usage.total_tokens->0 >= 0
            && facts.context_limit is Some && facts.context_limit->0 > 0 ==> occurs(
            joined(status_lines(session, facts), "\n"@),
            "context: "@ + signed_decimal(session.usage.total_tokens->0 as int) + " / "@ + decimal(
                facts.context_limit->0 as nat,
            ) + " tokens ("@ + decimal(facts.used_percent as nat)
                + "%) as of the last request; that is the whole request, including the system prompt and tool definitions"@,
        ),
        session.usage.total_tokens is Some && session.usage.total_tokens->0 >= 0 && (
        facts.context_limit is None || facts.context_limit->0 == 0) ==> occurs(
            joined(status_lines(session, facts), "\n"@),
            "context: "@ + signed_decimal(session.usage.total_tokens->0 as int)
                + " tokens as of the last request (limit unknown)"@,
        ),
        session.usage.total_tokens is None || session.usage.total_tokens->0 < 0 ==> occurs(
            joined(status_lines(session, facts), "\n"@),
            "context: not reported by the provider yet"@,
        ),
{
    lemma_a_line_is_told(session, facts, 2);
}

/// The status tells how large the conversation is now, where it could be counted,
/// and its share of the limit where that is known.
pub proof fn the_status_tells_the_size_of_the_conversation(session: Session, facts: StatusFacts)
    requires
        facts.counted is Some,
        facts.counted->0 >= 0,
    ensures
        facts.context_limit is Some && facts.context_limit->0 > 0 ==> occurs(
            joined(status_lines(session, facts), "\n"@),
            "conversation: ~"@ + signed_decimal(facts.counted->0 as int) + " tokens"@ + (" ("@
                + decimal(facts.counted_percent as nat) + "%)"@)
                + " counted now; messages alone, excluding the system prompt and tool definitions"@,
        ),
        facts.context_limit is None || facts.context_limit->0 == 0 ==> occurs(
            joined(status_lines(session, facts), "\n"@),
            "conversation: ~"@ + signed_decimal(facts.counted->0 as int) + " tokens"@ + ""@
                + " counted now; messages alone, excluding the system prompt and tool definitions"@,
        ),
{
    lemma_a_line_is_told(session, facts, 3);
}

/// The status tells where automatic compaction sets in and, where it is known how
/// full the context is, how many tokens are left until then: the threshold less
/// those used, which is below zero past it.
pub proof fn the_status_tells_how_far_it_is_to_the_threshold(
    session: Session,
    facts: StatusFacts,
    auto: AutoCompaction,
    used: i32,
)
    requires
        facts.auto_compaction == Some(auto),
        facts.context_limit is Some,
        facts.context_limit->0 > 0,
        session.usage.total_tokens == Some(used),
        used >= 0,
        auto.tokens - used >= i32::MIN,
    ensures
        occurs(
            joined(status_lines(session, facts), "\n"@),
            "auto-compaction: at "@ + decimal(auto.percent as nat) + "% of the limit ("@
                + signed_decimal(auto.tokens as int) + " tokens); "@ + signed_decimal(
                auto.tokens - used,
            ) + " tokens to go"@,
        ),
{
    lemma_a_line_is_told(session, facts, after_the_conversation(facts));
}

/// Where it is not known how full the context is, the status tells where automatic
/// compaction sets in, and where there is none, that.
pub proof fn the_status_tells_of_automatic_compaction(session: Session, facts: StatusFacts)
    ensures
        facts.auto_compaction is None ==> occurs(
            joined(status_lines(session, facts), "\n"@),
            "auto-compaction: disabled"@,
        ),
        facts.auto_compaction is Some ==> occurs(
            joined(status_lines(session, facts), "\n"@),
            "auto-compaction: at "@ + decimal(facts.auto_compaction->0.percent as nat)
                + "% of the limit"@,
        ),
{
    let i = after_the_conversation(facts);
    let line = status_lines(session, facts)[i];
    lemma_a_line_is_told(session, facts, i);
    if facts.auto_compaction is Some {
        let used = sensible(session.usage.total_tokens);
        let limit = known_limit(facts.context_limit);
        let auto = facts.auto_compaction->0;
        let start = "auto-compaction: at "@ + decimal(auto.percent as nat) + "% of the limit"@;
        assert(line == auto_compaction_line(Some(auto), used, limit));
        if used is Some && limit is Some {
            let front = "auto-compaction: at "@ + decimal(auto.percent as nat);
            let more = signed_decimal(auto.tokens as int) + " tokens); "@ + signed_decimal(
                tokens_to_go(auto.tokens, used->0),
            ) + " tokens to go"@;
            reveal_strlit("% of the limit (");
            reveal_strlit("% of the limit");
            reveal_strlit(" (");
            assert("% of the limit ("@ =~= "% of the limit"@ + " ("@);
            two_parts_are_one(front, "% of the limit"@, " ("@);
            what_comes_last_occurs(Seq::empty(), start);
            assert(Seq::<char>::empty() + start =~= start);
            what_occurs_stays(start, " ("@, start);
            four_parts_are_one(
                start + " ("@,
                signed_decimal(auto.tokens as int),
                " tokens); "@,
                signed_decimal(tokens_to_go(auto.tokens, used->0)),
                " tokens to go"@,
            );
            what_occurs_stays(start + " ("@, more, start);
            let whole = joined(status_lines(session, facts), "\n"@);
            occurs_is_transitive(whole, line, start);
        }
    }
}

/// The status counts the messages: those that the agent sees, and all.
pub proof fn the_status_counts_the_messages(session: Session, facts: StatusFacts)
    ensures
        session.conversation is Some ==> occurs(
            joined(status_lines(session, facts), "\n"@),
            "messages: "@ + decimal(agent_visible(session.conversation->0@).len())
                + " visible to you, "@ + decimal(session.conversation->0@.len()) + " on record"@,
        ),
        session.conversation is None ==> occurs(
            joined(status_lines(session, facts), "\n"@),
            "messages: "@ + decimal(0) + " visible to you, "@ + decimal(0) + " on record"@,
        ),
{
    reveal(Seq::filter);
    assert(agent_visible(Seq::empty()).len() == 0);
    lemma_a_line_is_told(session, facts, after_the_conversation(facts) + 1);
}

/// The status tells what was archived, in full, and whether the model may compact
/// the session, which only the user's grant lets it.
pub proof fn the_status_tells_what_is_archived_and_permitted(session: Session, facts: StatusFacts)
    ensures
        facts.archive is Some ==> occurs(
            joined(status_lines(session, facts), "\n"@),
            "archived: "@ + facts.archive->0@,
        ),
        facts.archive is None ==> occurs(
            joined(status_lines(session, facts), "\n"@),
            "archived: nothing yet"@,
        ),
        grants_in(session.extension_data@).contains("session-modification"@) ==> occurs(
            joined(status_lines(session, facts), "\n"@),
            "session-modification: permitted"@,
        ),
        !grants_in(session.extension_data@).contains("session-modification"@) ==> occurs(
            joined(status_lines(session, facts), "\n"@),
            "session-modification: denied (the user can run /permit session-modification)"@,
        ),
{
    lemma_a_line_is_told(session, facts, after_the_conversation(facts) + 2);
    lemma_a_line_is_told(session, facts, after_the_conversation(facts) + 3);
}

/// A request that is recorded is counted once. Nothing else changes on record but
/// the one that is pending, where it is permitted, or the one that was denied,
/// where it is not.
pub proof fn a_request_is_counted_once(
    recorded: RecordedRequest,
    data: Map<Key, JsonView>,
    reason: Seq<char>,
    now: i64,
)
    requires
        records(recorded, data, reason, now),
        recorded.extension_data is Some,
    ensures
        ({
            let before = requests_in(data);
            let after = requests_in(recorded.extension_data->0@);
            &&& before.requested_compaction_count < u32::MAX ==> after.requested_compaction_count
                == before.requested_compaction_count + 1
            &&& before.requested_compaction_count == u32::MAX ==> after.requested_compaction_count
                == u32::MAX
            &&& after.applied_compaction_count == before.applied_compaction_count
            &&& after.last_applied_context_tokens == before.last_applied_context_tokens
            &&& permitted(data) ==> after.denied_compaction == before.denied_compaction
            &&& !permitted(data) ==> after.pending_compaction == before.pending_compaction
        }),
{
    state_round_trips(recorded_as(data, reason, now)->0);
}

/// What the model is told of its request tells whether it was let in: requested
/// exactly where one becomes pending, already pending exactly where one was, and
/// otherwise that it is not permitted and what the user can do.
pub proof fn the_model_is_told_what_became_of_its_request(
    recorded: RecordedRequest,
    data: Map<Key, JsonView>,
    reason: Seq<char>,
    now: i64,
)
    requires
        records(recorded, data, reason, now),
    ensures
        recorded.text@ == if !grants_in(data).contains("session-modification"@) {
            "Compaction is not permitted in this session, so nothing was done. The user has been shown your request and can run /permit session-modification to allow it; ask them if you need it now."@
        } else if recorded.extension_data is None {
            "A compaction request is already pending; it will be applied before your next turn."@
        } else {
            "Compaction requested. It will be applied at the next turn boundary, before your next request."@
        },
        recorded.extension_data is None ==> requests_in(data).pending_compaction is Some,
{
}

/// The reason of a request is on record without the white space around it and
/// otherwise whole. A request brings no note.
pub proof fn the_reason_is_on_record(
    recorded: RecordedRequest,
    data: Map<Key, JsonView>,
    reason: Seq<char>,
    now: i64,
) -> (ends: (int, int))
    requires
        records(recorded, data, reason, now),
        recorded.extension_data is Some,
    ensures
        0 <= ends.0 <= ends.1 <= reason.len(),
        forall|i: int|
            0 <= i < ends.0 || ends.1 <= i < reason.len() ==> whitespace(#[trigger] reason[i]),
        ends.0 < ends.1 ==> !whitespace(reason[ends.0]) && !whitespace(reason[ends.1 - 1]),
        ({
            let after = requests_in(recorded.extension_data->0@);
            let request = if permitted(data) {
                after.pending_compaction
            } else {
                after.denied_compaction
            };
            &&& request is Some
            &&& request->0.reason == reason.subrange(ends.0, ends.1)
            &&& request->0.carry is None
            &&& request->0.requested_at == now
        }),
{
    state_round_trips(recorded_as(data, reason, now)->0);
    trimming_takes_white_space_from_the_ends(reason)
}

/// The reason that a call gives is the text of its first argument of that name,
/// in full, and nothing where there is no such text.
pub proof fn the_reason_is_taken_from_the_arguments(arguments: JsonView, reason: Seq<char>)
    ensures
        arguments is Object && field(arguments->Object_0, "reason"@) == Some(
            JsonView::Text(reason),
        ) ==> reason_given(Some(arguments)) == reason,
        !(arguments is Object) ==> reason_given(Some(arguments)).len() == 0,
        arguments is Object && (field(arguments->Object_0, "reason"@) is None || !(field(
            arguments->Object_0,
            "reason"@,
        )->0 is Text)) ==> reason_given(Some(arguments)).len() == 0,
        reason_given(None).len() == 0,
{
    reveal_strlit("");
}

/// The tool that reports only reads, and the one that asks for a compaction does
/// not; they go by different names.
pub proof fn the_tools_are_told_apart(status: ToolDef, request: ToolDef)
    requires
        is_status_tool(status),
        is_request_tool(request),
    ensures
        status.name@ != request.name@,
        status.read_only && status.idempotent && !status.open_world,
        !request.read_only && !request.idempotent && request.open_world,
        !status.destructive && !request.destructive,
{
    reveal_strlit("session_status");
    reveal_strlit("request_compaction");
    assert(status.name@.len() != request.name@.len());
}

} // verus!
