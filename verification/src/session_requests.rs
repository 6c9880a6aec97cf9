//! Requests the model makes about its own session, and the policy that decides
//! whether the runtime carries them out.
//!
//! A request is only ever a request: the extension records it in the session's
//! extension data, and the runtime applies it at a turn boundary, after the
//! tool result that asked for it is complete. Policy — the capability grant, and
//! refusing a compaction that would free nothing — lives here so every loop
//! behaves identically.

use vstd::prelude::*;
use vstd::string::*;

use crate::capabilities::{
    grants_in, permissions_key, SessionPermissions, PERMISSIONS_EXTENSION, SESSION_MODIFICATION,
};
use crate::conversation::{
    agent_visible, clone_option, message_views, option_view, ContentView, Conversation, Message,
    MessageView, Role,
};
use crate::extension_data::{ExtensionData, Key};
use crate::ids::message_id;
use crate::json::{field, field_views, is_record, member, object_view, Json, JsonView};
use crate::session::Session;
use crate::session_manager_ext::EXTENSION_NAME;
use crate::text::{
    decimal, four_parts_are_one, occurs, occurs_between, only_white_space_trims_to_nothing,
    push_decimal, push_signed, signed_decimal, trim, trim_is_settled, trimmed,
    trimming_takes_white_space_from_the_ends, two_parts_are_one, what_comes_last_occurs,
    what_stands_between_is_told_apart, whitespace,
};

verus! {

/// The version of the record that the requests are kept in.
pub const REQUESTS_VERSION: &'static str = "v0";

/// Below this there is nothing worth compressing: the summary and its
/// continuation would replace fewer messages than they are worth.
pub const MIN_AGENT_VISIBLE_MESSAGES_TO_COMPACT: usize = 4;

/// A compaction carries the prompt it was asked for into the conversation it
/// produces, so the model sees that same request again as soon as the summary
/// lands and would ask for the compaction again. A repeat is only carried out
/// once the context has grown by what another summary costs, which is on the
/// order of the size the last compaction left behind and never less than this.
pub const MIN_CONTEXT_GROWTH_TO_COMPACT: i32 = 4_096;

/// A note the model carries across a compaction adds to the context it just
/// paid to shrink, so it is bounded rather than silently truncated.
pub const MAX_CARRY_CHARS: usize = 4_096;

#[derive(Debug, PartialEq, Eq)]
pub struct CompactionRequest {
    pub reason: String,
    /// Text to keep verbatim in the context after the compaction. Absent means
    /// nothing but the summary survives.
    pub carry: Option<String>,
    /// When it was made, in seconds since the epoch.
    pub requested_at: i64,
}

/// What a request holds.
#[verifier::ext_equal]
pub struct RequestView {
    pub reason: Seq<char>,
    pub carry: Option<Seq<char>>,
    pub requested_at: i64,
}

impl View for CompactionRequest {
    type V = RequestView;

    open spec fn view(&self) -> RequestView {
        RequestView {
            reason: self.reason@,
            carry: option_view(self.carry),
            requested_at: self.requested_at,
        }
    }
}

impl Clone for CompactionRequest {
    fn clone(&self) -> (r: Self)
        ensures
            r@ == self@,
    {
        CompactionRequest {
            reason: self.reason.clone(),
            carry: clone_option(&self.carry),
            requested_at: self.requested_at,
        }
    }
}

#[derive(Debug, PartialEq, Eq)]
pub struct SessionRequestState {
    pub pending_compaction: Option<CompactionRequest>,
    /// A request that arrived while the capability was denied, waiting to be
    /// reported to the user.
    pub denied_compaction: Option<CompactionRequest>,
    pub requested_compaction_count: u32,
    pub applied_compaction_count: u32,
    /// Size of the context the last applied compaction produced, which is on the
    /// order of what a summary of it costs. A request that arrives before the
    /// context has grown by at least that much would summarize the conversation
    /// that compaction just produced.
    pub last_applied_context_tokens: Option<i32>,
}

/// What the state of a session's requests holds.
#[verifier::ext_equal]
pub struct RequestStateView {
    pub pending_compaction: Option<RequestView>,
    pub denied_compaction: Option<RequestView>,
    pub requested_compaction_count: u32,
    pub applied_compaction_count: u32,
    pub last_applied_context_tokens: Option<i32>,
}

pub open spec fn request_view(request: Option<CompactionRequest>) -> Option<RequestView> {
    match request {
        Some(request) => Some(request@),
        None => None,
    }
}

impl View for SessionRequestState {
    type V = RequestStateView;

    open spec fn view(&self) -> RequestStateView {
        RequestStateView {
            pending_compaction: request_view(self.pending_compaction),
            denied_compaction: request_view(self.denied_compaction),
            requested_compaction_count: self.requested_compaction_count,
            applied_compaction_count: self.applied_compaction_count,
            last_applied_context_tokens: self.last_applied_context_tokens,
        }
    }
}

impl RequestStateView {
    /// Nothing was asked for yet.
    pub open spec fn initial() -> RequestStateView {
        RequestStateView {
            pending_compaction: None,
            denied_compaction: None,
            requested_compaction_count: 0,
            applied_compaction_count: 0,
            last_applied_context_tokens: None,
        }
    }
}

fn clone_request(request: &Option<CompactionRequest>) -> (r: Option<CompactionRequest>)
    ensures
        request_view(r) == request_view(*request),
{
    match request {
        Some(request) => Some(request.clone()),
        None => None,
    }
}

impl Clone for SessionRequestState {
    fn clone(&self) -> (r: Self)
        ensures
            r@ == self@,
    {
        SessionRequestState {
            pending_compaction: clone_request(&self.pending_compaction),
            denied_compaction: clone_request(&self.denied_compaction),
            requested_compaction_count: self.requested_compaction_count,
            applied_compaction_count: self.applied_compaction_count,
            last_applied_context_tokens: self.last_applied_context_tokens,
        }
    }
}

impl Default for SessionRequestState {
    fn default() -> (r: Self)
        ensures
            r@ == RequestStateView::initial(),
    {
        SessionRequestState {
            pending_compaction: None,
            denied_compaction: None,
            requested_compaction_count: 0,
            applied_compaction_count: 0,
            last_applied_context_tokens: None,
        }
    }
}

/// Where the state is kept among the records of a session.
pub open spec fn requests_key() -> Key {
    (EXTENSION_NAME@, REQUESTS_VERSION@)
}

/// A member that is written only where there is a value for it.
pub open spec fn optional(name: Seq<char>, value: Option<JsonView>) -> Seq<(Seq<char>, JsonView)> {
    match value {
        Some(value) => seq![(name, value)],
        None => Seq::empty(),
    }
}

pub open spec fn text_value(text: Option<Seq<char>>) -> Option<JsonView> {
    match text {
        Some(text) => Some(JsonView::Text(text)),
        None => None,
    }
}

pub open spec fn count_value(count: u32) -> Option<JsonView> {
    if count == 0 {
        None
    } else {
        Some(JsonView::Int(count as int))
    }
}

pub open spec fn tokens_value(tokens: Option<i32>) -> Option<JsonView> {
    match tokens {
        Some(tokens) => Some(JsonView::Int(tokens as int)),
        None => None,
    }
}

pub open spec fn request_value(request: Option<RequestView>) -> Option<JsonView> {
    match request {
        Some(request) => Some(request_record(request)),
        None => None,
    }
}

/// The record of one request.
pub open spec fn request_record(request: RequestView) -> JsonView {
    JsonView::Object(
        optional("reason"@, Some(JsonView::Text(request.reason))) + optional(
            "carry"@,
            text_value(request.carry),
        ) + optional("requested_at"@, Some(JsonView::Int(request.requested_at as int))),
    )
}

/// The record of a session's requests: what is absent or zero is left out.
pub open spec fn state_record(state: RequestStateView) -> JsonView {
    JsonView::Object(
        optional("pending_compaction"@, request_value(state.pending_compaction)) + optional(
            "denied_compaction"@,
            request_value(state.denied_compaction),
        ) + optional(
            "requested_compaction_count"@,
            count_value(state.requested_compaction_count),
        ) + optional(
            "applied_compaction_count"@,
            count_value(state.applied_compaction_count),
        ) + optional(
            "last_applied_context_tokens"@,
            tokens_value(state.last_applied_context_tokens),
        ),
    )
}

/// The text of a member that has to be there.
pub open spec fn text_in(value: Option<JsonView>) -> Option<Seq<char>> {
    match value {
        Some(JsonView::Text(text)) => Some(text),
        _ => None,
    }
}

/// The text of a member that may be absent or null. The outer `None` says that
/// the member cannot be read.
pub open spec fn optional_text_in(value: Option<JsonView>) -> Option<Option<Seq<char>>> {
    match value {
        None => Some(None),
        Some(JsonView::Null) => Some(None),
        Some(JsonView::Text(text)) => Some(Some(text)),
        _ => None,
    }
}

/// The number in a member that has to be there.
pub open spec fn time_in(value: Option<JsonView>) -> Option<i64> {
    match value {
        Some(JsonView::Int(n)) => if i64::MIN <= n <= i64::MAX {
            Some(n as i64)
        } else {
            None
        },
        _ => None,
    }
}

/// The number in a member that is zero where it is absent.
pub open spec fn count_in(value: Option<JsonView>) -> Option<u32> {
    match value {
        None => Some(0),
        Some(JsonView::Int(n)) => if 0 <= n <= u32::MAX {
            Some(n as u32)
        } else {
            None
        },
        _ => None,
    }
}

/// The number in a member that may be absent or null.
pub open spec fn tokens_in(value: Option<JsonView>) -> Option<Option<i32>> {
    match value {
        None => Some(None),
        Some(JsonView::Null) => Some(None),
        Some(JsonView::Int(n)) => if i32::MIN <= n <= i32::MAX {
            Some(Some(n as i32))
        } else {
            None
        },
        _ => None,
    }
}

/// The request that a record stands for, if it is the record of one.
pub open spec fn recorded_request(value: JsonView) -> Option<RequestView> {
    match (
        text_in(member(value, 0, "reason"@)),
        optional_text_in(member(value, 1, "carry"@)),
        time_in(member(value, 2, "requested_at"@)),
    ) {
        (Some(reason), Some(carry), Some(requested_at)) => if is_record(value, 3) {
            Some(RequestView { reason, carry, requested_at })
        } else {
            None
        },
        _ => None,
    }
}

/// The request in a member that may be absent or null.
pub open spec fn request_in(value: Option<JsonView>) -> Option<Option<RequestView>> {
    match value {
        None => Some(None),
        Some(JsonView::Null) => Some(None),
        Some(value) => match recorded_request(value) {
            Some(request) => Some(Some(request)),
            None => None,
        },
    }
}

/// The state that a record stands for, if it is the record of one.
pub open spec fn recorded_state(value: JsonView) -> Option<RequestStateView> {
    match (
        request_in(member(value, 0, "pending_compaction"@)),
        request_in(member(value, 1, "denied_compaction"@)),
        count_in(member(value, 2, "requested_compaction_count"@)),
        count_in(member(value, 3, "applied_compaction_count"@)),
        tokens_in(member(value, 4, "last_applied_context_tokens"@)),
    ) {
        (
            Some(pending_compaction),
            Some(denied_compaction),
            Some(requested_compaction_count),
            Some(applied_compaction_count),
            Some(last_applied_context_tokens),
        ) => if is_record(value, 5) {
            Some(
                RequestStateView {
                    pending_compaction,
                    denied_compaction,
                    requested_compaction_count,
                    applied_compaction_count,
                    last_applied_context_tokens,
                },
            )
        } else {
            None
        },
        _ => None,
    }
}

/// The state kept among a session's records. An absent or unreadable record
/// means that nothing was asked for yet.
pub open spec fn requests_in(data: Map<Key, JsonView>) -> RequestStateView {
    if data.contains_key(requests_key()) {
        match recorded_state(data[requests_key()]) {
            Some(state) => state,
            None => RequestStateView::initial(),
        }
    } else {
        RequestStateView::initial()
    }
}

/// What a member holds, where there is one.
pub open spec fn member_view(value: Option<&Json>) -> Option<JsonView> {
    match value {
        Some(value) => Some(value@),
        None => None,
    }
}

fn read_optional_text(value: Option<&Json>) -> (r: Option<Option<String>>)
    ensures
        match (r, optional_text_in(member_view(value))) {
            (Some(a), Some(b)) => option_view(a) == b,
            (None, None) => true,
            _ => false,
        },
{
    match value {
        None => Some(None),
        Some(Json::Null) => Some(None),
        Some(Json::Text(text)) => Some(Some(text.clone())),
        _ => None,
    }
}

fn read_time(value: Option<&Json>) -> (r: Option<i64>)
    ensures
        r == time_in(member_view(value)),
{
    match value {
        Some(value) => value.as_i64(),
        None => None,
    }
}

fn read_count(value: Option<&Json>) -> (r: Option<u32>)
    ensures
        r == count_in(member_view(value)),
{
    match value {
        None => Some(0),
        Some(value) => match value.as_i64() {
            Some(n) => if 0 <= n && n <= u32::MAX as i64 {
                Some(n as u32)
            } else {
                None
            },
            None => None,
        },
    }
}

fn read_tokens(value: Option<&Json>) -> (r: Option<Option<i32>>)
    ensures
        r == tokens_in(member_view(value)),
{
    match value {
        None => Some(None),
        Some(Json::Null) => Some(None),
        Some(value) => match value.as_i64() {
            Some(n) => if i32::MIN as i64 <= n && n <= i32::MAX as i64 {
                Some(Some(n as i32))
            } else {
                None
            },
            None => None,
        },
    }
}

fn read_request(value: Option<&Json>) -> (r: Option<Option<CompactionRequest>>)
    ensures
        match (r, request_in(member_view(value))) {
            (Some(a), Some(b)) => request_view(a) == b,
            (None, None) => true,
            _ => false,
        },
{
    match value {
        None => Some(None),
        Some(Json::Null) => Some(None),
        Some(value) => match CompactionRequest::from_value(value) {
            Some(request) => Some(Some(request)),
            None => None,
        },
    }
}

fn push_optional(fields: &mut Vec<(String, Json)>, name: &str, value: Option<Json>)
    ensures
        field_views(final(fields)@) == field_views(old(fields)@) + optional(
            name@,
            match value {
                Some(value) => Some(value@),
                None => None,
            },
        ),
{
    match value {
        Some(value) => {
            fields.push((name.to_owned(), value));
            assert(field_views(fields@) =~= field_views(old(fields)@) + seq![(name@, value@)]);
        },
        None => {
            assert(field_views(fields@) =~= field_views(old(fields)@) + Seq::empty());
        },
    }
}

impl CompactionRequest {
    /// The request that a record stands for, if it is the record of one.
    pub fn from_value(value: &Json) -> (r: Option<Self>)
        ensures
            request_view(r) == recorded_request(value@),
    {
        if !value.is_record(3) {
            return None;
        }
        let reason = match value.member(0, "reason") {
            Some(Json::Text(reason)) => reason,
            _ => {
                return None;
            },
        };
        match (
            read_optional_text(value.member(1, "carry")),
            read_time(value.member(2, "requested_at")),
        ) {
            (Some(carry), Some(requested_at)) => Some(
                CompactionRequest { reason: reason.clone(), carry, requested_at },
            ),
            _ => None,
        }
    }

    /// The record of the request.
    pub fn to_value(&self) -> (r: Json)
        ensures
            r@ == request_record(self@),
    {
        let mut fields: Vec<(String, Json)> = Vec::new();
        assert(field_views(fields@) =~= Seq::empty());
        push_optional(&mut fields, "reason", Some(Json::text(self.reason.as_str())));
        let carry: Option<Json> = match &self.carry {
            Some(carry) => Some(Json::text(carry.as_str())),
            None => None,
        };
        push_optional(&mut fields, "carry", carry);
        push_optional(&mut fields, "requested_at", Some(Json::integer(self.requested_at)));
        proof {
            object_view(fields);
            assert(field_views(fields@) =~= request_record(self@)->Object_0);
        }
        Json::Object(fields)
    }
}

impl SessionRequestState {
    /// The state that a record stands for, if it is the record of one.
    pub fn from_value(value: &Json) -> (r: Option<Self>)
        ensures
            match (r, recorded_state(value@)) {
                (Some(a), Some(b)) => a@ == b,
                (None, None) => true,
                _ => false,
            },
    {
        if !value.is_record(5) {
            return None;
        }
        match (
            read_request(value.member(0, "pending_compaction")),
            read_request(value.member(1, "denied_compaction")),
            read_count(value.member(2, "requested_compaction_count")),
            read_count(value.member(3, "applied_compaction_count")),
            read_tokens(value.member(4, "last_applied_context_tokens")),
        ) {
            (
                Some(pending_compaction),
                Some(denied_compaction),
                Some(requested_compaction_count),
                Some(applied_compaction_count),
                Some(last_applied_context_tokens),
            ) => Some(
                SessionRequestState {
                    pending_compaction,
                    denied_compaction,
                    requested_compaction_count,
                    applied_compaction_count,
                    last_applied_context_tokens,
                },
            ),
            _ => None,
        }
    }

    /// The record of the state: what is absent or zero is left out.
    pub fn to_value(&self) -> (r: Json)
        ensures
            r@ == state_record(self@),
    {
        let mut fields: Vec<(String, Json)> = Vec::new();
        assert(field_views(fields@) =~= Seq::empty());
        let pending: Option<Json> = match &self.pending_compaction {
            Some(request) => Some(request.to_value()),
            None => None,
        };
        push_optional(&mut fields, "pending_compaction", pending);
        let denied: Option<Json> = match &self.denied_compaction {
            Some(request) => Some(request.to_value()),
            None => None,
        };
        push_optional(&mut fields, "denied_compaction", denied);
        let requested: Option<Json> = if self.requested_compaction_count == 0 {
            None
        } else {
            Some(Json::integer(self.requested_compaction_count as i64))
        };
        push_optional(&mut fields, "requested_compaction_count", requested);
        let applied: Option<Json> = if self.applied_compaction_count == 0 {
            None
        } else {
            Some(Json::integer(self.applied_compaction_count as i64))
        };
        push_optional(&mut fields, "applied_compaction_count", applied);
        let last: Option<Json> = match self.last_applied_context_tokens {
            Some(tokens) => Some(Json::integer(tokens as i64)),
            None => None,
        };
        push_optional(&mut fields, "last_applied_context_tokens", last);
        proof {
            object_view(fields);
            assert(field_views(fields@) =~= state_record(self@)->Object_0);
        }
        Json::Object(fields)
    }

    /// The state kept among a session's records. An absent or unreadable record
    /// means that nothing was asked for yet.
    pub fn read(session: &Session) -> (r: Self)
        ensures
            r@ == requests_in(session.extension_data@),
    {
        match SessionRequestState::from_extension_data(&session.extension_data) {
            Some(state) => state,
            None => SessionRequestState::default(),
        }
    }

    /// The state kept among `extension_data`, if there is a record that can be
    /// read.
    pub fn from_extension_data(extension_data: &ExtensionData) -> (r: Option<Self>)
        ensures
            match r {
                Some(state) => extension_data@.contains_key(requests_key()) && recorded_state(
                    extension_data@[requests_key()],
                ) == Some(state@),
                None => extension_data@.contains_key(requests_key()) ==> recorded_state(
                    extension_data@[requests_key()],
                ) is None,
            },
    {
        match extension_data.get_extension_state(EXTENSION_NAME, REQUESTS_VERSION) {
            Some(value) => SessionRequestState::from_value(value),
            None => None,
        }
    }

    /// Write this state back into a session's extension data, leaving other
    /// extensions' records alone.
    pub fn write_into(&self, extension_data: &mut ExtensionData) -> (r: Result<(), String>)
        ensures
            r is Ok,
            final(extension_data)@ == old(extension_data)@.insert(
                requests_key(),
                state_record(self@),
            ),
            requests_in(final(extension_data)@) == self@,
            grants_in(final(extension_data)@) == grants_in(old(extension_data)@),
    {
        let value: Json = self.to_value();
        extension_data.set_extension_state(EXTENSION_NAME, REQUESTS_VERSION, value);
        proof {
            state_round_trips(self@);
            recording_a_request_grants_nothing(old(extension_data)@, value@);
        }
        Ok(())
    }

    pub fn take_pending(&mut self) -> (r: Option<CompactionRequest>)
        ensures
            request_view(r) == old(self)@.pending_compaction,
            final(self)@ == (RequestStateView { pending_compaction: None, ..old(self)@ }),
    {
        self.pending_compaction.take()
    }

    /// The request that waits to be reported as denied, which is then no longer
    /// waiting.
    pub fn take_denied(&mut self) -> (r: Option<CompactionRequest>)
        ensures
            request_view(r) == old(self)@.denied_compaction,
            final(self)@ == (RequestStateView { denied_compaction: None, ..old(self)@ }),
    {
        self.denied_compaction.take()
    }

    /// Move a pending request to the denied slot so the user gets told about it.
    pub fn defer_denied(&mut self, request: CompactionRequest)
        ensures
            final(self)@ == (RequestStateView {
                pending_compaction: None,
                denied_compaction: Some(request@),
                ..old(self)@
            }),
    {
        self.pending_compaction = None;
        self.denied_compaction = Some(request);
    }

    /// Records that a request was carried out and what context it left behind.
    pub fn mark_applied(&mut self, request: &CompactionRequest, retained_context_tokens: i32)
        ensures
            final(self)@ == old(self)@.applied(retained_context_tokens),
    {
        self.pending_compaction = None;
        self.denied_compaction = None;
        self.applied_compaction_count = self.applied_compaction_count.saturating_add(1);
        self.last_applied_context_tokens = Some(retained_context_tokens);
    }
}

/// `count` and one more, as far as 32 bits go.
pub open spec fn counted_up(count: u32) -> u32 {
    if count == u32::MAX {
        count
    } else {
        (count + 1) as u32
    }
}

impl RequestStateView {
    /// The state after a compaction that left a context of `tokens`.
    pub open spec fn applied(self, tokens: i32) -> RequestStateView {
        RequestStateView {
            pending_compaction: None,
            denied_compaction: None,
            applied_compaction_count: counted_up(self.applied_compaction_count),
            last_applied_context_tokens: Some(tokens),
            ..self
        }
    }
}

proof fn lemma_field_of_parts(
    a: Seq<(Seq<char>, JsonView)>,
    b: Seq<(Seq<char>, JsonView)>,
    name: Seq<char>,
)
    ensures
        field(a + b, name) == if field(a, name) is Some {
            field(a, name)
        } else {
            field(b, name)
        },
    decreases a.len(),
{
    if a.len() == 0 {
        assert(a + b =~= b);
    } else {
        assert((a + b)[0] == a[0]);
        assert((a + b).drop_first() =~= a.drop_first() + b);
        lemma_field_of_parts(a.drop_first(), b, name);
    }
}

proof fn lemma_optional(written: Seq<char>, value: Option<JsonView>, name: Seq<char>)
    ensures
        field(optional(written, value), name) == if written == name {
            value
        } else {
            None
        },
{
    reveal_with_fuel(field, 2);
}

/// A record gives back the request it was made for.
pub proof fn request_round_trips(request: RequestView)
    ensures
        recorded_request(request_record(request)) == Some(request),
{
    reveal_strlit("reason");
    reveal_strlit("carry");
    reveal_strlit("requested_at");
    assert("reason"@.len() == 6 && "carry"@.len() == 5 && "requested_at"@.len() == 12);
    let a = optional("reason"@, Some(JsonView::Text(request.reason)));
    let b = optional("carry"@, text_value(request.carry));
    let c = optional("requested_at"@, Some(JsonView::Int(request.requested_at as int)));
    assert forall|name: Seq<char>| #[trigger] field(a + b + c, name) == if name == "reason"@ {
        Some(JsonView::Text(request.reason))
    } else if name == "carry"@ {
        text_value(request.carry)
    } else if name == "requested_at"@ {
        Some(JsonView::Int(request.requested_at as int))
    } else {
        None
    } by {
        lemma_field_of_parts(a + b, c, name);
        lemma_field_of_parts(a, b, name);
        lemma_optional("reason"@, Some(JsonView::Text(request.reason)), name);
        lemma_optional("carry"@, text_value(request.carry), name);
        lemma_optional(
            "requested_at"@,
            Some(JsonView::Int(request.requested_at as int)),
            name,
        );
    }
}

/// A record gives back the state it was made for.
pub proof fn state_round_trips(state: RequestStateView)
    ensures
        recorded_state(state_record(state)) == Some(state),
{
    reveal_strlit("pending_compaction");
    reveal_strlit("denied_compaction");
    reveal_strlit("requested_compaction_count");
    reveal_strlit("applied_compaction_count");
    reveal_strlit("last_applied_context_tokens");
    assert("pending_compaction"@.len() == 18);
    assert("denied_compaction"@.len() == 17);
    assert("requested_compaction_count"@.len() == 26);
    assert("applied_compaction_count"@.len() == 24);
    assert("last_applied_context_tokens"@.len() == 27);
    let a = optional("pending_compaction"@, request_value(state.pending_compaction));
    let b = optional("denied_compaction"@, request_value(state.denied_compaction));
    let c = optional(
        "requested_compaction_count"@,
        count_value(state.requested_compaction_count),
    );
    let d = optional("applied_compaction_count"@, count_value(state.applied_compaction_count));
    let e = optional(
        "last_applied_context_tokens"@,
        tokens_value(state.last_applied_context_tokens),
    );
    assert forall|name: Seq<char>| #[trigger]
        field(a + b + c + d + e, name) == if name == "pending_compaction"@ {
            request_value(state.pending_compaction)
        } else if name == "denied_compaction"@ {
            request_value(state.denied_compaction)
        } else if name == "requested_compaction_count"@ {
            count_value(state.requested_compaction_count)
        } else if name == "applied_compaction_count"@ {
            count_value(state.applied_compaction_count)
        } else if name == "last_applied_context_tokens"@ {
            tokens_value(state.last_applied_context_tokens)
        } else {
            None
        } by {
        lemma_field_of_parts(a + b + c + d, e, name);
        lemma_field_of_parts(a + b + c, d, name);
        lemma_field_of_parts(a + b, c, name);
        lemma_field_of_parts(a, b, name);
        lemma_optional("pending_compaction"@, request_value(state.pending_compaction), name);
        lemma_optional("denied_compaction"@, request_value(state.denied_compaction), name);
        lemma_optional(
            "requested_compaction_count"@,
            count_value(state.requested_compaction_count),
            name,
        );
        lemma_optional(
            "applied_compaction_count"@,
            count_value(state.applied_compaction_count),
            name,
        );
        lemma_optional(
            "last_applied_context_tokens"@,
            tokens_value(state.last_applied_context_tokens),
            name,
        );
    }
    if let Some(request) = state.pending_compaction {
        request_round_trips(request);
    }
    if let Some(request) = state.denied_compaction {
        request_round_trips(request);
    }
}

/// Whatever is recorded for requests, the grants of the session stay what they
/// were: a request cannot grant the capability it needs.
pub proof fn recording_a_request_grants_nothing(data: Map<Key, JsonView>, record: JsonView)
    ensures
        grants_in(data.insert(requests_key(), record)) == grants_in(data),
{
    reveal_strlit("session-manager");
    reveal_strlit("permissions");
    assert(EXTENSION_NAME@.len() != PERMISSIONS_EXTENSION@.len());
    assert(requests_key() != permissions_key());
}

/// Whatever is granted or taken back, the requests of the session stay what
/// they were.
pub proof fn granting_leaves_requests_alone(data: Map<Key, JsonView>, record: JsonView)
    ensures
        requests_in(data.insert(permissions_key(), record)) == requests_in(data),
{
    reveal_strlit("session-manager");
    reveal_strlit("permissions");
    assert(EXTENSION_NAME@.len() != PERMISSIONS_EXTENSION@.len());
    assert(requests_key() != permissions_key());
}

pub fn session_modification_permitted(session: &Session) -> (r: bool)
    ensures
        r == grants_in(session.extension_data@).contains(SESSION_MODIFICATION@),
{
    SessionPermissions::read(&session.extension_data).is_granted(SESSION_MODIFICATION)
}

#[derive(Debug, PartialEq, Eq)]
pub enum CompactionDecision {
    /// The capability is not granted; the user has to be told.
    Denied,
    /// Nothing to gain from compacting right now.
    Refused(String),
    Apply,
}

/// What a decision is.
pub enum DecisionView {
    Denied,
    Refused(Seq<char>),
    Apply,
}

impl View for CompactionDecision {
    type V = DecisionView;

    open spec fn view(&self) -> DecisionView {
        match self {
            CompactionDecision::Denied => DecisionView::Denied,
            CompactionDecision::Refused(detail) => DecisionView::Refused(detail@),
            CompactionDecision::Apply => DecisionView::Apply,
        }
    }
}

/// The last prompt that a compaction would keep.
pub open spec fn outstanding_prompt(messages: Seq<MessageView>) -> Option<MessageView>
    decreases messages.len(),
{
    if messages.len() == 0 {
        None
    } else if messages.last().preservable_prompt() {
        Some(messages.last())
    } else {
        outstanding_prompt(messages.drop_last())
    }
}

/// Whether the outstanding prompt is one a compaction carried forward — an
/// agent-only copy — rather than a message the user has just sent.
pub open spec fn prompt_is_carried(messages: Seq<MessageView>) -> bool {
    match outstanding_prompt(messages) {
        Some(prompt) => !prompt.metadata.user_visible,
        None => false,
    }
}

/// How far the context has to grow past what the last compaction left before a
/// repeat is worth its call.
pub open spec fn growth_needed(last: i32) -> int {
    if last > MIN_CONTEXT_GROWTH_TO_COMPACT {
        last as int
    } else {
        MIN_CONTEXT_GROWTH_TO_COMPACT as int
    }
}

/// Whether the conversation is too short to be worth a summary.
pub open spec fn too_short(messages: Seq<MessageView>) -> bool {
    agent_visible(messages).len() < MIN_AGENT_VISIBLE_MESSAGES_TO_COMPACT
}

pub open spec fn too_short_detail(messages: Seq<MessageView>) -> Seq<char> {
    "only "@ + decimal(agent_visible(messages).len()) + " message(s) are in your context"@
}

pub open spec fn not_grown_detail(current: i32, last: i32) -> Seq<char> {
    "the context has not grown since the last compaction ("@ + signed_decimal(current as int)
        + " tokens, "@ + signed_decimal(last as int) + " when it was compacted)"@
}

/// What becomes of a request, given the session's records, its messages and the
/// size of its context, where that could be measured.
pub open spec fn decision(
    data: Map<Key, JsonView>,
    messages: Seq<MessageView>,
    counted: Option<i32>,
) -> DecisionView {
    if !grants_in(data).contains(SESSION_MODIFICATION@) {
        DecisionView::Denied
    } else if too_short(messages) {
        DecisionView::Refused(too_short_detail(messages))
    } else {
        match (requests_in(data).last_applied_context_tokens, counted) {
            (Some(last), Some(current)) => if prompt_is_carried(messages) && current - last
                < growth_needed(last) {
                DecisionView::Refused(not_grown_detail(current, last))
            } else {
                DecisionView::Apply
            },
            _ => DecisionView::Apply,
        }
    }
}

/// Whether the decision depends on the size of the context.
pub open spec fn count_matters(data: Map<Key, JsonView>, messages: Seq<MessageView>) -> bool {
    &&& grants_in(data).contains(SESSION_MODIFICATION@)
    &&& !too_short(messages)
    &&& requests_in(data).last_applied_context_tokens is Some
    &&& prompt_is_carried(messages)
}

/// Whether the outstanding prompt is one a compaction carried forward — an
/// agent-only copy — rather than a message the user has just sent. A user-visible
/// prompt means the user has spoken since, and that request is theirs to make.
pub fn outstanding_prompt_is_carried(conversation: &Conversation) -> (r: bool)
    ensures
        r == prompt_is_carried(conversation@),
{
    let messages: &Vec<Message> = conversation.messages();
    let ghost all = conversation@;
    let mut i: usize = messages.len();
    assert(all.take(messages@.len() as int) =~= all);
    while i > 0
        invariant
            i <= messages@.len(),
            all == message_views(messages@),
            all == conversation@,
            outstanding_prompt(all) == outstanding_prompt(all.take(i as int)),
        decreases i,
    {
        assert(all.take(i as int).drop_last() =~= all.take(i - 1));
        assert(all.take(i as int).last() == messages@[i - 1]@);
        if messages[i - 1].is_preservable_prompt() {
            return !messages[i - 1].is_user_visible();
        }
        i -= 1;
    }
    false
}

/// Whether the size of the context has to be measured before [`decide`] can say
/// what becomes of a request.
pub fn needs_context_count(session: &Session, conversation: &Conversation) -> (r: bool)
    ensures
        r == count_matters(session.extension_data@, conversation@),
{
    if !session_modification_permitted(session) {
        return false;
    }
    let visible: Vec<Message> = conversation.agent_visible_messages();
    assert(message_views(visible@).len() == visible@.len());
    if visible.len() < MIN_AGENT_VISIBLE_MESSAGES_TO_COMPACT {
        return false;
    }
    match SessionRequestState::read(session).last_applied_context_tokens {
        Some(_) => outstanding_prompt_is_carried(conversation),
        None => false,
    }
}

/// What becomes of a request. `counted` is the size of the context in tokens,
/// or `None` where it was not measured.
pub fn decide(session: &Session, conversation: &Conversation, counted: Option<i32>) -> (r:
    CompactionDecision)
    ensures
        r@ == decision(session.extension_data@, conversation@, counted),
{
    if !session_modification_permitted(session) {
        return CompactionDecision::Denied;
    }
    let visible: Vec<Message> = conversation.agent_visible_messages();
    assert(message_views(visible@).len() == visible@.len());
    if visible.len() < MIN_AGENT_VISIBLE_MESSAGES_TO_COMPACT {
        let mut detail: String = "only ".to_owned();
        push_decimal(&mut detail, visible.len() as u64);
        detail.append(" message(s) are in your context");
        return CompactionDecision::Refused(detail);
    }
    // A compaction replaces the history but carries the prompt it was asked for
    // into the result, where the model reads it as the outstanding request and
    // asks for the same compaction again. Each pass then pays for a summary that
    // the next pass immediately re-summarizes. Refuse that repeat until the
    // context has grown enough for another summary to be worth its call, or the
    // user has sent something new.
    match (SessionRequestState::read(session).last_applied_context_tokens, counted) {
        (Some(last), Some(current)) => {
            // A summary of this conversation is on the order of the size the
            // last compaction left behind, so another one cannot free much until
            // the context has grown by at least that — and by at least
            // MIN_CONTEXT_GROWTH_TO_COMPACT, so a conversation small enough to
            // grow that far within a turn cannot loop on small additions.
            let needed: i32 = if last > MIN_CONTEXT_GROWTH_TO_COMPACT {
                last
            } else {
                MIN_CONTEXT_GROWTH_TO_COMPACT
            };
            let growth: i64 = current as i64 - last as i64;
            if outstanding_prompt_is_carried(conversation) && growth < needed as i64 {
                let mut detail: String =
                    "the context has not grown since the last compaction (".to_owned();
                push_signed(&mut detail, current as i64);
                detail.append(" tokens, ");
                push_signed(&mut detail, last as i64);
                detail.append(" when it was compacted)");
                return CompactionDecision::Refused(detail);
            }
        },
        _ => {},
    }
    CompactionDecision::Apply
}

/// The note that is kept: without the white space around it, and not at all
/// where nothing is left.
pub open spec fn kept_note(carry: Option<Seq<char>>) -> Option<Seq<char>> {
    match carry {
        Some(carry) => if trimmed(carry).len() == 0 {
            None
        } else {
            Some(trimmed(carry))
        },
        None => None,
    }
}

/// What a note looks like in the compacted conversation, but for its identifier.
pub open spec fn carry_view(carry: Seq<char>) -> MessageView {
    MessageView::empty(Role::Assistant).text(
        "Note kept verbatim across the compaction:\n\n"@ + trimmed(carry),
    )
}

/// Whether `message` is the note `carry` under a generated identifier.
pub open spec fn is_carry_message(message: MessageView, carry: Seq<char>) -> bool {
    exists|high: u64, low: u64|
        message == (MessageView { id: Some(#[trigger] message_id(high, low)), ..carry_view(carry) })
}

/// Whether `after` is `before` with the note at its end, where there is one to
/// keep.
pub open spec fn carried_over(
    before: Seq<MessageView>,
    carry: Option<Seq<char>>,
    after: Seq<MessageView>,
) -> bool {
    match kept_note(carry) {
        None => after == before,
        Some(note) => after.len() > 0 && after.drop_last() == before && is_carry_message(
            after.last(),
            note,
        ),
    }
}

fn noted<'a>(carry: Option<&'a str>) -> (r: Option<&'a str>)
    ensures
        match (r, kept_note(str_view(carry))) {
            (Some(a), Some(b)) => a@ == b,
            (None, None) => true,
            _ => false,
        },
{
    match carry {
        Some(carry) => {
            let note: &str = trim(carry);
            if note.unicode_len() == 0 {
                None
            } else {
                Some(note)
            }
        },
        None => None,
    }
}

/// What an optional text holds.
pub open spec fn str_view(s: Option<&str>) -> Option<Seq<char>> {
    match s {
        Some(s) => Some(s@),
        None => None,
    }
}

/// The note the model asked to keep, as a message in the compacted
/// conversation. Assistant-role on purpose: a user-role message would qualify
/// as the next compaction's preserved user prompt and be re-preserved forever.
pub fn carry_message(carry: &str) -> (r: Message)
    ensures
        is_carry_message(r@, carry@),
{
    let mut text: String = "Note kept verbatim across the compaction:\n\n".to_owned();
    text.append(trim(carry));
    Message::assistant().with_text(text.as_str()).with_visibility(
        true,
        true,
    ).with_generated_id_if_missing()
}

/// Append the note a request carried to the conversation that replaces its
/// history. The note is the point of the request, so it is added after the
/// summary, verbatim, rather than handed to the summarizer.
pub fn with_carry(conversation: Conversation, carry: Option<&str>) -> (r: Conversation)
    ensures
        carried_over(conversation@, str_view(carry), r@),
{
    match noted(carry) {
        None => conversation,
        Some(note) => {
            let mut conversation: Conversation = conversation;
            let ghost before = conversation@;
            conversation.push(carry_message(note));
            assert(conversation@.drop_last() =~= before);
            conversation
        },
    }
}

/// What is said of a request's note where the request is not applied.
pub open spec fn not_kept_text(request: RequestView) -> Seq<char> {
    match request.carry {
        Some(_) => " The note you attached was not kept."@,
        None => ""@,
    }
}

/// A request that is not applied cannot keep its note; say so, so a model that
/// still needs the information writes it somewhere durable instead.
pub fn carry_not_kept(request: &CompactionRequest) -> (r: &'static str)
    ensures
        r@ == not_kept_text(request@),
{
    match request.carry {
        Some(_) => " The note you attached was not kept.",
        None => "",
    }
}

pub open spec fn note_too_long(length: nat) -> Seq<char> {
    "The note is "@ + decimal(length) + " characters; the limit is "@ + decimal(
        MAX_CARRY_CHARS as nat,
    )
        + ". Keep only what you cannot re-derive, and write the rest somewhere durable."@
}

/// Trim a note and reject one too long to be worth keeping: a carry that
/// re-creates the context you just paid to compact defeats the point.
pub fn validate_carry(carry: Option<&str>) -> (r: Result<Option<String>, String>)
    ensures
        match kept_note(str_view(carry)) {
            None => r == Ok::<Option<String>, String>(None),
            Some(note) => if note.len() > MAX_CARRY_CHARS {
                r is Err && r->Err_0@ == note_too_long(note.len())
            } else {
                r is Ok && option_view(r->Ok_0) == Some(note)
            },
        },
{
    match noted(carry) {
        None => Ok(None),
        Some(note) => {
            let length: usize = note.unicode_len();
            if length > MAX_CARRY_CHARS {
                let mut error: String = "The note is ".to_owned();
                push_decimal(&mut error, length as u64);
                error.append(" characters; the limit is ");
                push_decimal(&mut error, MAX_CARRY_CHARS as u64);
                error.append(
                    ". Keep only what you cannot re-derive, and write the rest somewhere durable.",
                );
                Err(error)
            } else {
                Ok(Some(note.to_owned()))
            }
        },
    }
}

pub open spec fn denied_text(reason: Seq<char>) -> Seq<char> {
    "goose asked to compact this conversation ("@ + reason
        + "). Session modification is not permitted; run /permit session-modification to allow it."@
}

/// The user-facing notice for a request that was refused because the capability
/// is denied.
pub fn denied_notice(request: &CompactionRequest) -> (r: Message)
    ensures
        r@ == MessageView::notice(denied_text(request@.reason)),
{
    let mut text: String = "goose asked to compact this conversation (".to_owned();
    text.append(request.reason.as_str());
    text.append(
        "). Session modification is not permitted; run /permit session-modification to allow it.",
    );
    Message::notice(text.as_str())
}

/// How the context changed, where both sizes are known.
pub open spec fn change_text(before_tokens: Option<i32>, after_tokens: Option<i32>) -> Seq<char> {
    match (before_tokens, after_tokens) {
        (Some(before), Some(after)) => ": "@ + signed_decimal(before as int) + " → "@
            + signed_decimal(after as int) + " tokens"@,
        _ => ""@,
    }
}

pub open spec fn applied_text(
    reason: Seq<char>,
    before_tokens: Option<i32>,
    after_tokens: Option<i32>,
    archived: nat,
) -> Seq<char> {
    "Compacted at goose's request ("@ + reason + ")"@ + change_text(before_tokens, after_tokens)
        + ", "@ + decimal(archived) + " message(s) archived — /archive lists them."@
}

/// The user-facing notice for a compaction the model asked for and got.
pub fn applied_notice(
    request: &CompactionRequest,
    before_tokens: Option<i32>,
    after_tokens: Option<i32>,
    archived: usize,
) -> (r: Message)
    ensures
        r@ == MessageView::notice(
            applied_text(request@.reason, before_tokens, after_tokens, archived as nat),
        ),
{
    let tokens: String = match (before_tokens, after_tokens) {
        (Some(before), Some(after)) => {
            let mut tokens: String = ": ".to_owned();
            push_signed(&mut tokens, before as i64);
            tokens.append(" → ");
            push_signed(&mut tokens, after as i64);
            tokens.append(" tokens");
            tokens
        },
        _ => "".to_owned(),
    };
    let mut text: String = "Compacted at goose's request (".to_owned();
    text.append(request.reason.as_str());
    text.append(")");
    text.append(tokens.as_str());
    text.append(", ");
    push_decimal(&mut text, archived as u64);
    text.append(" message(s) archived — /archive lists them.");
    Message::notice(text.as_str())
}

pub open spec fn refusal_text(detail: Seq<char>) -> Seq<char> {
    "No compaction this time: "@ + detail + "."@
}

/// Refusals go to the model, which is the one that needs to react to them.
pub fn refusal_message(detail: &str) -> (r: Message)
    ensures
        r@ == MessageView::empty(Role::Assistant).text(refusal_text(detail@)),
{
    let mut text: String = "No compaction this time: ".to_owned();
    text.append(detail);
    text.append(".");
    Message::assistant().with_text(text.as_str())
}

/// Where the size of the context does not matter, the decision is the same
/// whatever it is, measured or not.
pub proof fn unneeded_count_changes_nothing(
    data: Map<Key, JsonView>,
    messages: Seq<MessageView>,
    a: Option<i32>,
    b: Option<i32>,
)
    requires
        !count_matters(data, messages),
    ensures
        decision(data, messages, a) == decision(data, messages, b),
{
}

/// A session in which nothing was granted compacts nothing at the model's
/// request, whatever it holds.
pub proof fn nothing_is_compacted_without_the_grant(
    data: Map<Key, JsonView>,
    messages: Seq<MessageView>,
    counted: Option<i32>,
)
    ensures
        (decision(data, messages, counted) is Denied) == !grants_in(data).contains(
            SESSION_MODIFICATION@,
        ),
{
}

/// A repeat against the context that the last compaction left is refused.
pub proof fn an_immediate_repeat_is_refused(
    data: Map<Key, JsonView>,
    messages: Seq<MessageView>,
    tokens: i32,
)
    requires
        grants_in(data).contains(SESSION_MODIFICATION@),
        requests_in(data).last_applied_context_tokens == Some(tokens),
        prompt_is_carried(messages),
    ensures
        decision(data, messages, Some(tokens)) is Refused,
{
}

/// A repeat that is refused for want of growth stays refused for every smaller
/// context, and once it is applied it is applied for every larger one.
pub proof fn growth_only_helps(
    data: Map<Key, JsonView>,
    messages: Seq<MessageView>,
    smaller: i32,
    larger: i32,
)
    requires
        smaller <= larger,
        decision(data, messages, Some(smaller)) is Apply,
    ensures
        decision(data, messages, Some(larger)) is Apply,
{
}

/// A compaction of a conversation worth it is applied as soon as the user has
/// sent something new, whatever the size of the context.
pub proof fn a_new_prompt_needs_no_growth(
    data: Map<Key, JsonView>,
    messages: Seq<MessageView>,
    counted: Option<i32>,
)
    requires
        grants_in(data).contains(SESSION_MODIFICATION@),
        !too_short(messages),
        !prompt_is_carried(messages),
    ensures
        decision(data, messages, counted) is Apply,
{
}

/// A note is never taken for the prompt that the next compaction keeps.
pub proof fn a_note_is_no_prompt(message: MessageView, carry: Seq<char>)
    requires
        is_carry_message(message, carry),
    ensures
        !message.preservable_prompt(),
{
}

/// Adding a note does not change which prompt is outstanding.
pub proof fn a_note_leaves_the_prompt_outstanding(
    messages: Seq<MessageView>,
    note: MessageView,
    carry: Seq<char>,
)
    requires
        is_carry_message(note, carry),
    ensures
        outstanding_prompt(messages.push(note)) == outstanding_prompt(messages),
        prompt_is_carried(messages.push(note)) == prompt_is_carried(messages),
{
    a_note_is_no_prompt(note, carry);
    assert(messages.push(note).drop_last() =~= messages);
    assert(messages.push(note).last() == note);
}

/// A note that was accepted is accepted again as it is: nothing more is trimmed.
pub proof fn an_accepted_note_is_settled(carry: Option<Seq<char>>)
    ensures
        kept_note(kept_note(carry)) == kept_note(carry),
{
    if let Some(carry) = carry {
        trim_is_settled(carry);
    }
}

/// The outstanding prompt is a carried one exactly if some prompt that the user
/// does not see is followed by no other prompt, whatever else follows it: tool
/// calls and their results, answers and notes.
pub proof fn the_last_prompt_tells_whether_it_is_carried(messages: Seq<MessageView>)
    ensures
        prompt_is_carried(messages) == exists|i: int|
            0 <= i < messages.len() && (#[trigger] messages[i]).preservable_prompt()
                && !messages[i].metadata.user_visible && forall|j: int|
                i < j < messages.len() ==> !(#[trigger] messages[j]).preservable_prompt(),
    decreases messages.len(),
{
    if messages.len() > 0 {
        let init = messages.drop_last();
        let n = messages.len() - 1;
        the_last_prompt_tells_whether_it_is_carried(init);
        if messages[n].preservable_prompt() {
            assert(outstanding_prompt(messages) == Some(messages[n]));
            if exists|i: int|
                0 <= i < messages.len() && (#[trigger] messages[i]).preservable_prompt()
                    && !messages[i].metadata.user_visible && forall|j: int|
                    i < j < messages.len() ==> !(#[trigger] messages[j]).preservable_prompt() {
                let i = choose|i: int|
                    0 <= i < messages.len() && (#[trigger] messages[i]).preservable_prompt()
                        && !messages[i].metadata.user_visible && forall|j: int|
                        i < j < messages.len() ==> !(#[trigger] messages[j]).preservable_prompt();
                assert(i == n);
            }
        } else {
            assert(outstanding_prompt(messages) == outstanding_prompt(init));
            if prompt_is_carried(init) {
                let i = choose|i: int|
                    0 <= i < init.len() && (#[trigger] init[i]).preservable_prompt()
                        && !init[i].metadata.user_visible && forall|j: int|
                        i < j < init.len() ==> !(#[trigger] init[j]).preservable_prompt();
                assert(messages[i] == init[i]);
                assert forall|j: int| i < j < messages.len() implies !(
                #[trigger] messages[j]).preservable_prompt() by {
                    if j < n {
                        assert(init[j] == messages[j]);
                    }
                }
            }
            if exists|i: int|
                0 <= i < messages.len() && (#[trigger] messages[i]).preservable_prompt()
                    && !messages[i].metadata.user_visible && forall|j: int|
                    i < j < messages.len() ==> !(#[trigger] messages[j]).preservable_prompt() {
                let i = choose|i: int|
                    0 <= i < messages.len() && (#[trigger] messages[i]).preservable_prompt()
                        && !messages[i].metadata.user_visible && forall|j: int|
                        i < j < messages.len() ==> !(#[trigger] messages[j]).preservable_prompt();
                assert(init[i] == messages[i]);
                assert forall|j: int| i < j < init.len() implies !(
                #[trigger] init[j]).preservable_prompt() by {
                    assert(init[j] == messages[j]);
                }
            }
        }
    }
}

/// A message that is no prompt does not change whether the outstanding prompt is
/// a carried one; a prompt settles it by whether the user sees it.
pub proof fn only_a_prompt_changes_what_is_outstanding(
    messages: Seq<MessageView>,
    message: MessageView,
)
    ensures
        !message.preservable_prompt() ==> prompt_is_carried(messages.push(message))
            == prompt_is_carried(messages),
        message.preservable_prompt() ==> prompt_is_carried(messages.push(message))
            == !message.metadata.user_visible,
{
    assert(messages.push(message).drop_last() =~= messages);
    assert(messages.push(message).last() == message);
}

/// A request is carried out exactly if it is permitted, the agent sees four
/// messages or more, and, where a compaction came before, either the outstanding
/// prompt is not the one it carried, or the context could not be measured, or it
/// has grown by as much as that compaction left and by 4096 tokens.
pub proof fn when_a_compaction_is_applied(
    data: Map<Key, JsonView>,
    messages: Seq<MessageView>,
    counted: Option<i32>,
)
    ensures
        (decision(data, messages, counted) is Apply) == ({
            &&& grants_in(data).contains("session-modification"@)
            &&& agent_visible(messages).len() >= 4
            &&& match (requests_in(data).last_applied_context_tokens, counted) {
                (Some(last), Some(current)) => !prompt_is_carried(messages) || (current - last
                    >= last && current - last >= 4096),
                _ => true,
            }
        }),
        (decision(data, messages, counted) is Denied) == !grants_in(data).contains(
            "session-modification"@,
        ),
{
}

proof fn lemma_a_short_context_is_counted(messages: Seq<MessageView>)
    ensures
        occurs(
            too_short_detail(messages),
            "only "@ + decimal(agent_visible(messages).len())
                + " message(s) are in your context"@,
        ),
{
    what_comes_last_occurs(Seq::empty(), too_short_detail(messages));
    assert(Seq::<char>::empty() + too_short_detail(messages) =~= too_short_detail(messages));
}

proof fn lemma_both_sizes_are_named(current: i32, last: i32)
    ensures
        occurs(
            not_grown_detail(current, last),
            signed_decimal(current as int) + " tokens, "@ + signed_decimal(last as int)
                + " when it was compacted)"@,
        ),
{
    let now = signed_decimal(current as int);
    let was = signed_decimal(last as int);
    let front = "the context has not grown since the last compaction ("@;
    four_parts_are_one(front, now, " tokens, "@, was, " when it was compacted)"@);
    what_comes_last_occurs(front, now + " tokens, "@ + was + " when it was compacted)"@);
}

/// A refusal names the numbers it rests on: how many messages the agent sees, or
/// how large the context is and was.
pub proof fn a_refusal_names_its_numbers(
    data: Map<Key, JsonView>,
    messages: Seq<MessageView>,
    counted: Option<i32>,
)
    requires
        decision(data, messages, counted) is Refused,
    ensures
        agent_visible(messages).len() < 4 ==> occurs(
            decision(data, messages, counted)->Refused_0,
            "only "@ + decimal(agent_visible(messages).len())
                + " message(s) are in your context"@,
        ),
        agent_visible(messages).len() >= 4 ==> counted is Some && requests_in(
            data,
        ).last_applied_context_tokens is Some && occurs(
            decision(data, messages, counted)->Refused_0,
            signed_decimal(counted->0 as int) + " tokens, "@ + signed_decimal(
                requests_in(data).last_applied_context_tokens->0 as int,
            ) + " when it was compacted)"@,
        ),
{
    if agent_visible(messages).len() < 4 {
        lemma_a_short_context_is_counted(messages);
    } else {
        lemma_both_sizes_are_named(
            counted->0,
            requests_in(data).last_applied_context_tokens->0,
        );
    }
}

/// Where the size of the context matters, it can turn the decision.
pub proof fn a_count_that_matters_can_turn_the_decision(
    data: Map<Key, JsonView>,
    messages: Seq<MessageView>,
)
    requires
        count_matters(data, messages),
    ensures
        exists|a: Option<i32>, b: Option<i32>|
            (#[trigger] decision(data, messages, a)) is Apply && (#[trigger] decision(
                data,
                messages,
                b,
            )) is Refused,
{
    let last = requests_in(data).last_applied_context_tokens;
    assert(decision(data, messages, None) is Apply);
    assert(decision(data, messages, last) is Refused);
}

/// A note is kept as it is but for white space around it: what is appended is one
/// message more, with one text, and that text is a heading and the whole of the
/// note. Everything before it stays.
pub proof fn a_note_is_kept_whole(
    before: Seq<MessageView>,
    carry: Seq<char>,
    after: Seq<MessageView>,
) -> (ends: (int, int))
    requires
        carried_over(before, Some(carry), after),
        exists|i: int| 0 <= i < carry.len() && !whitespace(#[trigger] carry[i]),
    ensures
        0 <= ends.0 < ends.1 <= carry.len(),
        forall|i: int|
            0 <= i < ends.0 || ends.1 <= i < carry.len() ==> whitespace(#[trigger] carry[i]),
        !whitespace(carry[ends.0]),
        !whitespace(carry[ends.1 - 1]),
        after.len() == before.len() + 1,
        forall|i: int| 0 <= i < before.len() ==> #[trigger] after[i] == before[i],
        after.last().content == seq![
            ContentView::Text(
                "Note kept verbatim across the compaction:\n\n"@ + carry.subrange(ends.0, ends.1),
            ),
        ],
        after.last().role == Role::Assistant,
        after.last().metadata.user_visible,
        after.last().metadata.agent_visible,
        after.last().id is Some,
{
    let (from, to) = trimming_takes_white_space_from_the_ends(carry);
    let i = choose|i: int| 0 <= i < carry.len() && !whitespace(#[trigger] carry[i]);
    assert(from <= i < to);
    let note = trimmed(carry);
    trim_is_settled(carry);
    assert(trimmed(note) == note);
    assert forall|j: int| 0 <= j < before.len() implies #[trigger] after[j] == before[j] by {
        assert(after.drop_last()[j] == after[j]);
    }
    assert(after.last().content =~= seq![
        ContentView::Text("Note kept verbatim across the compaction:\n\n"@ + note),
    ]);
    (from, to)
}

/// A note that is white space alone, or none, leaves the conversation as it is.
pub proof fn an_empty_note_is_not_kept(
    before: Seq<MessageView>,
    carry: Option<Seq<char>>,
    after: Seq<MessageView>,
)
    requires
        carried_over(before, carry, after),
        carry is Some ==> forall|i: int|
            0 <= i < carry->0.len() ==> whitespace(#[trigger] carry->0[i]),
    ensures
        after == before,
{
    if let Some(carry) = carry {
        only_white_space_trims_to_nothing(carry);
    }
}

/// Two different notes, as they were accepted, are told apart in the conversation.
pub proof fn different_notes_stay_different(
    a: Seq<char>,
    b: Seq<char>,
    one: MessageView,
    other: MessageView,
)
    requires
        is_carry_message(one, a),
        is_carry_message(other, b),
        trimmed(a) == a,
        trimmed(b) == b,
        one.content == other.content,
    ensures
        a == b,
{
    let heading = "Note kept verbatim across the compaction:\n\n"@;
    assert(one.content[0] == ContentView::Text(heading + a));
    assert(other.content[0] == ContentView::Text(heading + b));
    assert((heading + a).skip(heading.len() as int) =~= a);
    assert((heading + b).skip(heading.len() as int) =~= b);
}

/// What is kept of a note is what is left of it without the white space around,
/// in full, and nothing where nothing is left. The limit is 4096 characters.
pub proof fn what_is_left_of_a_note(carry: Seq<char>) -> (ends: (int, int))
    ensures
        0 <= ends.0 <= ends.1 <= carry.len(),
        forall|i: int|
            0 <= i < ends.0 || ends.1 <= i < carry.len() ==> whitespace(#[trigger] carry[i]),
        ends.0 < ends.1 ==> !whitespace(carry[ends.0]) && !whitespace(carry[ends.1 - 1]),
        kept_note(Some(carry)) == if ends.0 < ends.1 {
            Some(carry.subrange(ends.0, ends.1))
        } else {
            None
        },
        kept_note(None) is None,
        MAX_CARRY_CHARS == 4096,
{
    trimming_takes_white_space_from_the_ends(carry)
}

/// The rejection of a note names its length and the limit.
pub proof fn a_rejected_note_is_told_its_length(length: nat)
    ensures
        occurs(
            note_too_long(length),
            "The note is "@ + decimal(length) + " characters; the limit is "@ + decimal(4096)
                + "."@,
        ),
{
    let tail = ". Keep only what you cannot re-derive, and write the rest somewhere durable."@;
    reveal_strlit(". Keep only what you cannot re-derive, and write the rest somewhere durable.");
    reveal_strlit(".");
    let named = "The note is "@ + decimal(length) + " characters; the limit is "@ + decimal(4096)
        + "."@;
    let nothing = Seq::<char>::empty();
    assert(tail =~= "."@ + tail.skip(1));
    occurs_between(nothing, named, tail.skip(1));
    assert(note_too_long(length) =~= nothing + named + tail.skip(1));
}

/// The user is told the whole reason of a request that was denied, and how to
/// permit it.
pub proof fn a_denied_notice_gives_the_reason(reason: Seq<char>, other: Seq<char>)
    ensures
        occurs(
            denied_text(reason),
            reason
                + "). Session modification is not permitted; run /permit session-modification to allow it."@,
        ),
        denied_text(reason) == denied_text(other) ==> reason == other,
{
    let head = "goose asked to compact this conversation ("@;
    let tail =
        "). Session modification is not permitted; run /permit session-modification to allow it."@;
    two_parts_are_one(head, reason, tail);
    what_comes_last_occurs(head, reason + tail);
    if denied_text(reason) == denied_text(other) {
        what_stands_between_is_told_apart(head, reason, other, tail);
    }
}

/// The user is told the whole reason of a request that was carried out, how the
/// context changed where both sizes are known, and how many messages went.
pub proof fn an_applied_notice_gives_reason_and_numbers(
    reason: Seq<char>,
    before_tokens: Option<i32>,
    after_tokens: Option<i32>,
    archived: nat,
)
    ensures
        before_tokens is Some && after_tokens is Some ==> applied_text(
            reason,
            before_tokens,
            after_tokens,
            archived,
        ) == "Compacted at goose's request ("@ + (reason + "): "@ + signed_decimal(
            before_tokens->0 as int,
        ) + " → "@ + signed_decimal(after_tokens->0 as int) + " tokens, "@ + decimal(archived))
            + " message(s) archived — /archive lists them."@,
        before_tokens is None || after_tokens is None ==> applied_text(
            reason,
            before_tokens,
            after_tokens,
            archived,
        ) == "Compacted at goose's request ("@ + (reason + "), "@ + decimal(archived))
            + " message(s) archived — /archive lists them."@,
{
    reveal_strlit("");
    reveal_strlit(")");
    reveal_strlit(": ");
    reveal_strlit("): ");
    reveal_strlit("), ");
    reveal_strlit(", ");
    reveal_strlit(" tokens");
    reveal_strlit(" tokens, ");
    assert("): "@ =~= ")"@ + ": "@);
    assert("), "@ =~= ")"@ + ", "@);
    assert(" tokens, "@ =~= " tokens"@ + ", "@);
    let text = applied_text(reason, before_tokens, after_tokens, archived);
    if before_tokens is Some && after_tokens is Some {
        assert(text =~= "Compacted at goose's request ("@ + (reason + "): "@ + signed_decimal(
            before_tokens->0 as int,
        ) + " → "@ + signed_decimal(after_tokens->0 as int) + " tokens, "@ + decimal(archived))
            + " message(s) archived — /archive lists them."@);
    } else {
        assert(text =~= "Compacted at goose's request ("@ + (reason + "), "@ + decimal(archived))
            + " message(s) archived — /archive lists them."@);
    }
}

/// A refusal gives the whole of its detail.
pub proof fn a_refusal_gives_its_detail(detail: Seq<char>, other: Seq<char>)
    ensures
        occurs(refusal_text(detail), detail),
        refusal_text(detail) == refusal_text(other) ==> detail == other,
{
    let head = "No compaction this time: "@;
    occurs_between(head, detail, "."@);
    if refusal_text(detail) == refusal_text(other) {
        what_stands_between_is_told_apart(head, detail, other, "."@);
    }
}

/// What is said of a note that was not kept is said exactly where there was one.
pub proof fn a_note_is_missed_where_there_was_one(request: RequestView)
    ensures
        (not_kept_text(request).len() > 0) == (request.carry is Some),
{
    reveal_strlit("");
    reveal_strlit(" The note you attached was not kept.");
}

/// A compaction that was carried out is counted, its context is remembered, and
/// nothing is outstanding. How often one was asked for stays.
pub proof fn what_a_compaction_leaves_on_record(state: RequestStateView, tokens: i32)
    ensures
        ({
            let after = state.applied(tokens);
            &&& after.pending_compaction is None
            &&& after.denied_compaction is None
            &&& after.last_applied_context_tokens == Some(tokens)
            &&& after.requested_compaction_count == state.requested_compaction_count
            &&& state.applied_compaction_count < u32::MAX ==> after.applied_compaction_count
                == state.applied_compaction_count + 1
            &&& state.applied_compaction_count == u32::MAX ==> after.applied_compaction_count
                == u32::MAX
        }),
{
}

/// What is read of a record is what its members say, whatever else it holds.
pub proof fn a_record_is_read_as_it_says(
    fields: Seq<(Seq<char>, JsonView)>,
    requested: int,
    applied: int,
    tokens: int,
)
    requires
        recorded_state(JsonView::Object(fields)) is Some,
    ensures
        ({
            let state = recorded_state(JsonView::Object(fields))->0;
            &&& field(fields, "requested_compaction_count"@) == Some(JsonView::Int(requested))
                ==> state.requested_compaction_count == requested
            &&& field(fields, "applied_compaction_count"@) == Some(JsonView::Int(applied))
                ==> state.applied_compaction_count == applied
            &&& field(fields, "last_applied_context_tokens"@) == Some(JsonView::Int(tokens))
                ==> state.last_applied_context_tokens is Some
                && state.last_applied_context_tokens->0 == tokens
            &&& field(fields, "requested_compaction_count"@) is None
                ==> state.requested_compaction_count == 0
            &&& field(fields, "applied_compaction_count"@) is None
                ==> state.applied_compaction_count == 0
            &&& field(fields, "last_applied_context_tokens"@) is None
                ==> state.last_applied_context_tokens is None
            &&& field(fields, "pending_compaction"@) is None ==> state.pending_compaction is None
            &&& field(fields, "denied_compaction"@) is None ==> state.denied_compaction is None
        }),
{
}

/// A request is read as its members say: the whole reason, the whole note where
/// there is one, and the time.
pub proof fn a_request_is_read_as_it_says(
    fields: Seq<(Seq<char>, JsonView)>,
    reason: Seq<char>,
    time: int,
)
    requires
        field(fields, "reason"@) == Some(JsonView::Text(reason)),
        field(fields, "requested_at"@) == Some(JsonView::Int(time)),
        i64::MIN <= time <= i64::MAX,
        match field(fields, "carry"@) {
            None => true,
            Some(JsonView::Null) => true,
            Some(JsonView::Text(_)) => true,
            _ => false,
        },
    ensures
        ({
            let read = recorded_request(JsonView::Object(fields));
            &&& read is Some
            &&& read->0.reason == reason
            &&& read->0.requested_at == time
            &&& read->0.carry == match field(fields, "carry"@) {
                Some(JsonView::Text(note)) => Some(note),
                _ => None,
            }
        }),
{
}

/// A record with a member that is none of the state's says what it says without.
pub proof fn other_members_are_passed_over(
    fields: Seq<(Seq<char>, JsonView)>,
    name: Seq<char>,
    value: JsonView,
)
    requires
        name != "pending_compaction"@,
        name != "denied_compaction"@,
        name != "requested_compaction_count"@,
        name != "applied_compaction_count"@,
        name != "last_applied_context_tokens"@,
    ensures
        recorded_state(JsonView::Object(fields + seq![(name, value)])) == recorded_state(
            JsonView::Object(fields),
        ),
{
    let more = fields + seq![(name, value)];
    assert forall|wanted: Seq<char>| wanted != name implies #[trigger] field(more, wanted) == field(
        fields,
        wanted,
    ) by {
        lemma_field_of_parts(fields, seq![(name, value)], wanted);
        lemma_optional(name, Some(value), wanted);
    }
}

/// Where there is no record of requests, or none that can be read, nothing was
/// asked for.
pub proof fn no_record_no_request(data: Map<Key, JsonView>)
    requires
        !data.contains_key(("session-manager"@, "v0"@)) || recorded_state(
            data[("session-manager"@, "v0"@)],
        ) is None,
    ensures
        requests_in(data).pending_compaction is None,
        requests_in(data).denied_compaction is None,
        requests_in(data).requested_compaction_count == 0,
        requests_in(data).applied_compaction_count == 0,
        requests_in(data).last_applied_context_tokens is None,
{
}

/// A record of a request can be read exactly if it has a reason, which is a text,
/// and a time, which is a number, and its note, if it has one, is a text.
pub proof fn when_a_request_can_be_read(fields: Seq<(Seq<char>, JsonView)>)
    ensures
        (recorded_request(JsonView::Object(fields)) is Some) == ({
            &&& field(fields, "reason"@) is Some
            &&& field(fields, "reason"@)->0 is Text
            &&& field(fields, "requested_at"@) is Some
            &&& field(fields, "requested_at"@)->0 is Int
            &&& i64::MIN <= field(fields, "requested_at"@)->0->Int_0 <= i64::MAX
            &&& field(fields, "carry"@) is None || field(fields, "carry"@)->0 is Null || field(
                fields,
                "carry"@,
            )->0 is Text
        }),
{
}

/// A record of the state can be read exactly if each of its members can: a request
/// or null, a count that fits, a number of tokens that fits or null. None has to
/// be there.
pub proof fn when_a_state_can_be_read(fields: Seq<(Seq<char>, JsonView)>)
    ensures
        (recorded_state(JsonView::Object(fields)) is Some) == ({
            let pending = field(fields, "pending_compaction"@);
            let denied = field(fields, "denied_compaction"@);
            let requested = field(fields, "requested_compaction_count"@);
            let applied = field(fields, "applied_compaction_count"@);
            let tokens = field(fields, "last_applied_context_tokens"@);
            &&& pending is None || pending->0 is Null || recorded_request(pending->0) is Some
            &&& denied is None || denied->0 is Null || recorded_request(denied->0) is Some
            &&& requested is None || (requested->0 is Int && 0 <= requested->0->Int_0 <= u32::MAX)
            &&& applied is None || (applied->0 is Int && 0 <= applied->0->Int_0 <= u32::MAX)
            &&& tokens is None || tokens->0 is Null || (tokens->0 is Int && i32::MIN
                <= tokens->0->Int_0 <= i32::MAX)
        }),
{
}

/// The requests of a state that was read are those of its record, in their own
/// places, and none where the record has null.
pub proof fn the_requests_are_read_from_their_places(fields: Seq<(Seq<char>, JsonView)>)
    requires
        recorded_state(JsonView::Object(fields)) is Some,
    ensures
        ({
            let state = recorded_state(JsonView::Object(fields))->0;
            let pending = field(fields, "pending_compaction"@);
            let denied = field(fields, "denied_compaction"@);
            let tokens = field(fields, "last_applied_context_tokens"@);
            &&& pending is Some && !(pending->0 is Null) ==> state.pending_compaction
                == recorded_request(pending->0)
            &&& pending is Some && pending->0 is Null ==> state.pending_compaction is None
            &&& denied is Some && !(denied->0 is Null) ==> state.denied_compaction
                == recorded_request(denied->0)
            &&& denied is Some && denied->0 is Null ==> state.denied_compaction is None
            &&& tokens is Some && tokens->0 is Null ==> state.last_applied_context_tokens is None
        }),
{
}

/// A record that is a list of its members in order says what it says as an
/// object, and one with more members than there are is none.
pub proof fn a_list_of_members_is_read_in_order(items: Seq<JsonView>)
    ensures
        items.len() == 3 ==> recorded_request(JsonView::Array(items)) == recorded_request(
            JsonView::Object(
                optional("reason"@, Some(items[0])) + optional("carry"@, Some(items[1]))
                    + optional("requested_at"@, Some(items[2])),
            ),
        ),
        items.len() > 3 ==> recorded_request(JsonView::Array(items)) is None,
        items.len() > 5 ==> recorded_state(JsonView::Array(items)) is None,
        items.len() == 0 ==> recorded_state(JsonView::Array(items)) == Some(
            RequestStateView::initial(),
        ),
{
    if items.len() == 3 {
        reveal_strlit("reason");
        reveal_strlit("carry");
        reveal_strlit("requested_at");
        let a = optional("reason"@, Some(items[0]));
        let b = optional("carry"@, Some(items[1]));
        let c = optional("requested_at"@, Some(items[2]));
        assert("reason"@.len() == 6 && "carry"@.len() == 5 && "requested_at"@.len() == 12);
        assert forall|name: Seq<char>| #[trigger] field(a + b + c, name) == if "reason"@ == name {
            Some(items[0])
        } else if "carry"@ == name {
            Some(items[1])
        } else if "requested_at"@ == name {
            Some(items[2])
        } else {
            None
        } by {
            lemma_field_of_parts(a + b, c, name);
            lemma_field_of_parts(a, b, name);
            lemma_optional("reason"@, Some(items[0]), name);
            lemma_optional("carry"@, Some(items[1]), name);
            lemma_optional("requested_at"@, Some(items[2]), name);
        }
    }
}

/// What is neither an object nor a list is no record.
pub proof fn a_bare_value_is_no_record(value: JsonView)
    requires
        !(value is Object),
        !(value is Array),
    ensures
        recorded_state(value) is None,
        recorded_request(value) is None,
{
}

/// A record leaves out what is not there: a state in which nothing was asked for
/// is written as a record without members, and each member there is adds one.
pub proof fn a_record_leaves_out_what_is_not_there(state: RequestStateView, request: RequestView)
    ensures
        state_record(state) is Object,
        state_record(state)->Object_0.len() == (if state.pending_compaction is Some {
            1int
        } else {
            0
        }) + (if state.denied_compaction is Some {
            1int
        } else {
            0
        }) + (if state.requested_compaction_count > 0 {
            1int
        } else {
            0
        }) + (if state.applied_compaction_count > 0 {
            1int
        } else {
            0
        }) + (if state.last_applied_context_tokens is Some {
            1int
        } else {
            0
        }),
        request_record(request) is Object,
        request_record(request)->Object_0.len() == if request.carry is Some {
            3int
        } else {
            2
        },
{
}

/// In a list of members each has its place: the pending request, the denied one,
/// how often one was asked for and applied, and the context that was left.
pub proof fn the_members_of_a_list_have_their_places(items: Seq<JsonView>)
    requires
        recorded_state(JsonView::Array(items)) is Some,
    ensures
        ({
            let state = recorded_state(JsonView::Array(items))->0;
            &&& items.len() > 0 ==> state.pending_compaction == if items[0] is Null {
                None
            } else {
                recorded_request(items[0])
            }
            &&& items.len() > 1 ==> state.denied_compaction == if items[1] is Null {
                None
            } else {
                recorded_request(items[1])
            }
            &&& items.len() > 2 ==> items[2] == JsonView::Int(
                state.requested_compaction_count as int,
            )
            &&& items.len() > 3 ==> items[3] == JsonView::Int(
                state.applied_compaction_count as int,
            )
            &&& items.len() > 4 ==> (items[4] is Null && state.last_applied_context_tokens is None)
                || (state.last_applied_context_tokens is Some && items[4] == JsonView::Int(
                state.last_applied_context_tokens->0 as int,
            ))
        }),
{
}

} // verus!
