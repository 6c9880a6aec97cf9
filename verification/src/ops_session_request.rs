//! Applies a compaction the model asked for, at a turn boundary.
//!
//! The request arrives as a tool call and is recorded in the session's
//! extension data, so this runs on the next step with the tool pair already
//! complete: a compaction can never land between a `tool_use` and its
//! `tool_result`. What may happen is decided by `session_requests::decide`.

use vstd::prelude::*;
use vstd::string::*;

use crate::capabilities::{grants_in, SESSION_MODIFICATION};
use crate::compaction_event::{
    archived_ids, archived_means_no_longer_visible, visible_ids, CompactionEvent,
    CompactionEventView, CompactionTrigger,
};
use crate::conversation::{
    clone_option, ContentView, Conversation, Message, MessageView, Role,
};
use crate::extension_data::{ExtensionData, Key};
use crate::json::JsonView;
use crate::session::{ProviderUsage, Session};
use crate::session_manager_ext::{recorded_as, records, RecordedRequest};
use crate::session_requests::{
    a_refusal_gives_its_detail, applied_notice, applied_text, carried_over, carry_not_kept,
    count_matters, decide, decision, denied_notice, denied_text, needs_context_count,
    not_kept_text, prompt_is_carried, recording_a_request_grants_nothing, refusal_message,
    refusal_text, requests_in, requests_key, state_record, state_round_trips, with_carry,
    CompactionDecision, CompactionRequest, DecisionView, RequestStateView, RequestView,
    SessionRequestState,
};
use crate::state_machine::{Effect, EffectView, Plan, PlanView};
use crate::text::{
    occurs, occurs_at, occurs_is_transitive, what_comes_last_occurs, what_occurs_stays,
};

verus! {

pub struct SessionRequestOperation {}

/// The conversation that a summary left, what the summary took, and the size of
/// the context afterwards.
#[derive(Debug, PartialEq, Eq)]
pub struct CompactionResult {
    pub conversation: Conversation,
    pub usage: ProviderUsage,
    pub retained_context_tokens: i32,
}

/// What there is to do about the requests of a session.
#[derive(Debug, PartialEq, Eq)]
pub enum RequestStep {
    NotApplicable,
    /// The request is settled, and someone has to be told.
    Settle(Plan),
    /// The conversation has to be compacted; [`SessionRequestOperation::finish`]
    /// takes it from there.
    Compact { request: CompactionRequest, state: SessionRequestState },
}

/// What a step is.
pub enum StepView {
    NotApplicable,
    Settle(PlanView),
    Compact { request: RequestView, state: RequestStateView },
}

impl View for RequestStep {
    type V = StepView;

    open spec fn view(&self) -> StepView {
        match self {
            RequestStep::NotApplicable => StepView::NotApplicable,
            RequestStep::Settle(plan) => StepView::Settle(plan@),
            RequestStep::Compact { request, state } => StepView::Compact {
                request: request@,
                state: state@,
            },
        }
    }
}

/// A session's records with `state` as that of its requests.
pub open spec fn with_state(data: Map<Key, JsonView>, state: RequestStateView) -> Map<
    Key,
    JsonView,
> {
    data.insert(requests_key(), state_record(state))
}

/// The state is recorded and the notice goes on record with it.
pub open spec fn settled(
    data: Map<Key, JsonView>,
    state: RequestStateView,
    notice: MessageView,
) -> PlanView {
    PlanView {
        shown: Seq::empty(),
        reply: Some(notice),
        effects: seq![EffectView::SetExtensionData(with_state(data, state))],
        yields: false,
    }
}

/// What there is to do about the requests of a session, given its records, its
/// messages and the size of its context, where that was measured.
pub open spec fn step(
    data: Map<Key, JsonView>,
    messages: Seq<MessageView>,
    counted: Option<i32>,
) -> StepView {
    let state = requests_in(data);
    match (state.denied_compaction, state.pending_compaction) {
        (Some(denied), _) => StepView::Settle(
            settled(
                data,
                RequestStateView { denied_compaction: None, ..state },
                MessageView::notice(denied_text(denied.reason)),
            ),
        ),
        (None, None) => StepView::NotApplicable,
        (None, Some(request)) => match decision(data, messages, counted) {
            DecisionView::Denied => StepView::Settle(
                settled(
                    data,
                    RequestStateView {
                        pending_compaction: None,
                        denied_compaction: Some(request),
                        ..state
                    },
                    MessageView::notice(denied_text(request.reason)),
                ),
            ),
            DecisionView::Refused(detail) => StepView::Settle(
                settled(
                    data,
                    RequestStateView { pending_compaction: None, ..state },
                    MessageView::empty(Role::Assistant).text(
                        refusal_text(detail + not_kept_text(request)),
                    ),
                ),
            ),
            DecisionView::Apply => StepView::Compact {
                request,
                state: RequestStateView { pending_compaction: None, ..state },
            },
        },
    }
}

/// What the model is told of a compaction that failed.
pub open spec fn failure_text(error: Seq<char>, request: RequestView) -> Seq<char> {
    refusal_text(
        "compaction failed ("@ + error + "); ask again if you still need it"@ + not_kept_text(
            request,
        ),
    )
}

/// A compaction failed: the request is dropped, and the model is told.
pub open spec fn failed(
    data: Map<Key, JsonView>,
    state: RequestStateView,
    error: Seq<char>,
    request: RequestView,
) -> PlanView {
    settled(
        data,
        state,
        MessageView::empty(Role::Assistant).text(failure_text(error, request)),
    )
}

/// Whether what is to be done depends on the size of the context: only where a
/// request is to be decided, and the decision does.
pub open spec fn step_needs_count(data: Map<Key, JsonView>, messages: Seq<MessageView>) -> bool {
    &&& requests_in(data).denied_compaction is None
    &&& requests_in(data).pending_compaction is Some
    &&& count_matters(data, messages)
}

/// The record of a compaction that the model asked for.
pub open spec fn requested_event(
    request: RequestView,
    before: Seq<MessageView>,
    after: Seq<MessageView>,
    before_tokens: Option<i32>,
    retained: i32,
) -> CompactionEventView {
    CompactionEventView {
        trigger: CompactionTrigger::Model,
        reason: Some(request.reason),
        before_tokens,
        after_tokens: Some(retained),
        archived_message_ids: archived_ids(before, after),
        carry: request.carry,
    }
}

/// The conversation is replaced, the request is recorded as carried out, and the
/// user is told.
pub open spec fn carried_out(
    session: Session,
    request: RequestView,
    state: RequestStateView,
    before: Seq<MessageView>,
    after: Seq<MessageView>,
    usage: ProviderUsage,
    retained: i32,
) -> PlanView {
    let before_tokens = session.usage.total_tokens;
    let event = requested_event(request, before, after, before_tokens, retained);
    PlanView {
        shown: Seq::empty(),
        reply: Some(
            MessageView::notice(
                applied_text(
                    request.reason,
                    before_tokens,
                    Some(retained),
                    event.archived_message_ids.len(),
                ),
            ),
        ),
        effects: seq![
            EffectView::CompactConversation { conversation: after, usage: Some(usage), event },
            EffectView::SetExtensionData(
                with_state(session.extension_data@, state.applied(retained)),
            ),
        ],
        yields: false,
    }
}

impl SessionRequestOperation {
    pub fn new() -> (r: Self)
        ensures
            r == (SessionRequestOperation {  }),
    {
        SessionRequestOperation {  }
    }

    pub fn name(&self) -> (r: &'static str)
        ensures
            r@ == "session_request"@,
    {
        "session_request"
    }

    /// Whether the size of the context has to be measured before [`Self::run`]
    /// can say what there is to do.
    pub fn needs_context_count(&self, session: &Session, conversation: &Conversation) -> (r: bool)
        ensures
            r == step_needs_count(session.extension_data@, conversation@),
    {
        let state: SessionRequestState = SessionRequestState::read(session);
        state.denied_compaction.is_none() && state.pending_compaction.is_some()
            && needs_context_count(session, conversation)
    }

    /// What there is to do about the requests of a session. `counted` is the
    /// size of its context in tokens, where that was measured.
    pub fn run(
        &self,
        session: &Session,
        conversation: &Conversation,
        counted: Option<i32>,
    ) -> (r: RequestStep)
        ensures
            r@ == step(session.extension_data@, conversation@, counted),
    {
        let mut state: SessionRequestState = SessionRequestState::read(session);

        // A request that waits to be reported as denied: the user is told, and
        // it is dropped.
        match state.take_denied() {
            Some(denied) => {
                return RequestStep::Settle(
                    SessionRequestOperation::persist(session, &state, denied_notice(&denied)),
                );
            },
            None => {},
        }

        let request: CompactionRequest = match state.take_pending() {
            Some(request) => request,
            None => {
                return RequestStep::NotApplicable;
            },
        };

        match decide(session, conversation, counted) {
            CompactionDecision::Denied => {
                // The user is told now, and once more at the next step, from the
                // slot that the request is moved to.
                let notice: Message = denied_notice(&request);
                state.defer_denied(request);
                RequestStep::Settle(SessionRequestOperation::persist(session, &state, notice))
            },
            CompactionDecision::Refused(detail) => {
                let mut detail: String = detail;
                detail.append(carry_not_kept(&request));
                let notice: Message = refusal_message(detail.as_str());
                RequestStep::Settle(SessionRequestOperation::persist(session, &state, notice))
            },
            CompactionDecision::Apply => RequestStep::Compact { request, state },
        }
    }

    /// What to do once the conversation was compacted, or could not be.
    pub fn finish(
        &self,
        session: &Session,
        conversation: &Conversation,
        request: CompactionRequest,
        state: SessionRequestState,
        outcome: Result<CompactionResult, String>,
    ) -> (r: Plan)
        ensures
            match outcome {
                Ok(result) => exists|after: Seq<MessageView>|
                    #[trigger] carried_over(result.conversation@, request@.carry, after) && r@
                        == carried_out(
                        *session,
                        request@,
                        state@,
                        conversation@,
                        after,
                        result.usage,
                        result.retained_context_tokens,
                    ),
                Err(error) => r@ == failed(session.extension_data@, state@, error@, request@),
            },
    {
        let mut state: SessionRequestState = state;
        match outcome {
            Ok(result) => {
                let before_tokens: Option<i32> = session.usage.total_tokens;
                let retained: i32 = result.retained_context_tokens;
                let ghost summary = result.conversation@;
                let ghost usage = result.usage;
                let carry: Option<&str> = match &request.carry {
                    Some(carry) => Some(carry.as_str()),
                    None => None,
                };
                let compacted: Conversation = with_carry(result.conversation, carry);
                let event: CompactionEvent = CompactionEvent::new(
                    CompactionTrigger::Model,
                    Some(request.reason.clone()),
                    conversation,
                    &compacted,
                    before_tokens,
                    Some(retained),
                ).with_carry(clone_option(&request.carry));
                let notice: Message = applied_notice(
                    &request,
                    before_tokens,
                    Some(retained),
                    event.archived_message_count(),
                );
                let ghost earlier = state@;
                state.mark_applied(&request, retained);
                let ghost after = compacted@;
                let mut effects: Vec<Effect> = Vec::new();
                effects.push(
                    Effect::CompactConversation {
                        conversation: compacted,
                        usage: Some(result.usage),
                        event,
                    },
                );
                effects.push(
                    Effect::SetExtensionData(SessionRequestOperation::recorded(session, &state)),
                );
                let r = Plan { shown: Vec::new(), reply: Some(notice), effects, yields: false };
                proof {
                    assert(carried_over(summary, request@.carry, after));
                    let expected = carried_out(
                        *session,
                        request@,
                        earlier,
                        conversation@,
                        after,
                        usage,
                        retained,
                    );
                    assert(r@.shown =~= expected.shown);
                    assert(r@.effects =~= expected.effects);
                }
                r
            },
            Err(error) => {
                let mut detail: String = "compaction failed (".to_owned();
                detail.append(error.as_str());
                detail.append("); ask again if you still need it");
                detail.append(carry_not_kept(&request));
                SessionRequestOperation::persist(session, &state, refusal_message(detail.as_str()))
            },
        }
    }

    /// The session's records with `state` as that of its requests.
    fn recorded(session: &Session, state: &SessionRequestState) -> (r: ExtensionData)
        ensures
            r@ == with_state(session.extension_data@, state@),
    {
        let mut extension_data: ExtensionData = session.extension_data.clone();
        let _ = state.write_into(&mut extension_data);
        extension_data
    }

    /// Clearing a request and telling someone about it go together: the notice
    /// is part of the outcome, so it is persisted rather than only streamed.
    fn persist(session: &Session, state: &SessionRequestState, notice: Message) -> (r: Plan)
        ensures
            r@ == settled(session.extension_data@, state@, notice@),
    {
        let mut effects: Vec<Effect> = Vec::new();
        effects.push(
            Effect::SetExtensionData(SessionRequestOperation::recorded(session, state)),
        );
        let r = Plan { shown: Vec::new(), reply: Some(notice), effects, yields: false };
        proof {
            let expected = settled(session.extension_data@, state@, notice@);
            assert(r@.shown =~= expected.shown);
            assert(r@.effects =~= expected.effects);
        }
        r
    }
}

/// How much there is still to do about the requests of a session.
pub open spec fn outstanding(state: RequestStateView) -> nat {
    (if state.pending_compaction is Some {
        2nat
    } else {
        0nat
    }) + (if state.denied_compaction is Some {
        1nat
    } else {
        0nat
    })
}

/// Settling a request records what is left to do, and that is less than before. A
/// pending request that is denied is reported, deferred and reported again, after
/// which nothing is left of it; any other is settled in one step. The grants stay
/// what they were.
pub proof fn settling_makes_progress(
    data: Map<Key, JsonView>,
    messages: Seq<MessageView>,
    counted: Option<i32>,
)
    requires
        step(data, messages, counted) is Settle,
    ensures
        ({
            let plan = step(data, messages, counted)->Settle_0;
            &&& plan.effects.len() == 1
            &&& plan.effects[0] is SetExtensionData
            &&& outstanding(requests_in(plan.effects[0]->SetExtensionData_0)) < outstanding(
                requests_in(data),
            )
            &&& grants_in(plan.effects[0]->SetExtensionData_0) == grants_in(data)
        }),
{
    let after = step(data, messages, counted)->Settle_0.effects[0]->SetExtensionData_0;
    let state = requests_in(data);
    let dropped = RequestStateView { denied_compaction: None, ..state };
    let taken = RequestStateView { pending_compaction: None, ..state };
    if let Some(request) = state.pending_compaction {
        let deferred = RequestStateView {
            pending_compaction: None,
            denied_compaction: Some(request),
            ..state
        };
        state_round_trips(deferred);
        recording_a_request_grants_nothing(data, state_record(deferred));
    }
    state_round_trips(dropped);
    state_round_trips(taken);
    recording_a_request_grants_nothing(data, state_record(dropped));
    recording_a_request_grants_nothing(data, state_record(taken));
}

/// A request that is carried out leaves nothing outstanding, is counted once,
/// and leaves the grants what they were.
pub proof fn a_request_is_carried_out_once(
    session: Session,
    request: RequestView,
    state: RequestStateView,
    before: Seq<MessageView>,
    after: Seq<MessageView>,
    usage: ProviderUsage,
    retained: i32,
)
    ensures
        ({
            let plan = carried_out(session, request, state, before, after, usage, retained);
            let data = plan.effects[1]->SetExtensionData_0;
            &&& outstanding(requests_in(data)) == 0
            &&& requests_in(data).last_applied_context_tokens == Some(retained)
            &&& requests_in(data).applied_compaction_count == if state.applied_compaction_count
                == u32::MAX {
                u32::MAX as int
            } else {
                state.applied_compaction_count + 1
            }
            &&& grants_in(data) == grants_in(session.extension_data@)
        }),
{
    state_round_trips(state.applied(retained));
    recording_a_request_grants_nothing(
        session.extension_data@,
        state_record(state.applied(retained)),
    );
}

/// A session without the grant never has its conversation compacted at the
/// model's request.
pub proof fn no_compaction_without_the_grant(
    data: Map<Key, JsonView>,
    messages: Seq<MessageView>,
    counted: Option<i32>,
)
    requires
        step(data, messages, counted) is Compact,
    ensures
        decision(data, messages, counted) is Apply,
        grants_in(data).contains(SESSION_MODIFICATION@),
{
}

/// A request that was recorded is answered at the next step: nothing that the
/// model asks for is passed over.
pub proof fn a_recorded_request_is_answered(
    recorded: RecordedRequest,
    data: Map<Key, JsonView>,
    reason: Seq<char>,
    now: i64,
    messages: Seq<MessageView>,
    counted: Option<i32>,
)
    requires
        records(recorded, data, reason, now),
        recorded.extension_data is Some,
    ensures
        !(step(recorded.extension_data->0@, messages, counted) is NotApplicable),
{
    state_round_trips(recorded_as(data, reason, now)->0);
}

/// A compaction that was carried out is not carried out again on the context it
/// left, as long as the prompt is the one it carried.
pub proof fn a_compaction_is_not_repeated_at_once(
    data: Map<Key, JsonView>,
    state: RequestStateView,
    retained: i32,
    again: RequestView,
    messages: Seq<MessageView>,
)
    requires
        prompt_is_carried(messages),
    ensures
        ({
            let asked = RequestStateView {
                pending_compaction: Some(again),
                ..state.applied(retained)
            };
            step(with_state(data, asked), messages, Some(retained)) is Settle
        }),
{
    let asked = RequestStateView { pending_compaction: Some(again), ..state.applied(retained) };
    state_round_trips(asked);
}

/// Where the size of the context does not matter, what there is to do is the same
/// whatever it is, measured or not.
pub proof fn an_unneeded_count_changes_no_step(
    data: Map<Key, JsonView>,
    messages: Seq<MessageView>,
    a: Option<i32>,
    b: Option<i32>,
)
    requires
        !step_needs_count(data, messages),
    ensures
        step(data, messages, a) == step(data, messages, b),
{
}

/// A refusal that drops a note says so to the model, whether the compaction was
/// refused or failed.
pub proof fn a_lost_note_is_owned_up_to(
    request: RequestView,
    detail: Seq<char>,
    error: Seq<char>,
)
    requires
        request.carry is Some,
    ensures
        occurs(
            refusal_text(detail + not_kept_text(request)),
            " The note you attached was not kept."@,
        ),
        occurs(failure_text(error, request), " The note you attached was not kept."@),
{
    let failure = "compaction failed ("@ + error + "); ask again if you still need it"@;
    lemma_refusal_holds_note(detail);
    lemma_refusal_holds_note(failure);
}

proof fn lemma_refusal_holds_note(detail: Seq<char>)
    ensures
        occurs(
            refusal_text(detail + " The note you attached was not kept."@),
            " The note you attached was not kept."@,
        ),
{
    let note = " The note you attached was not kept."@;
    let head = "No compaction this time: "@ + detail;
    let text = refusal_text(detail + note);
    let at = head.len() as int;
    assert(text =~= head + note + "."@);
    assert(text.subrange(at, at + note.len()) =~= note);
    assert(occurs_at(text, note, at));
}

/// A compaction that fails drops the request and changes nothing else: neither
/// the conversation nor the counts nor the grants.
pub proof fn a_failed_compaction_only_drops_the_request(
    data: Map<Key, JsonView>,
    messages: Seq<MessageView>,
    counted: Option<i32>,
    error: Seq<char>,
)
    requires
        step(data, messages, counted) is Compact,
    ensures
        ({
            let now = step(data, messages, counted);
            let plan = failed(data, now->state, error, now->request);
            let after = plan.effects[0]->SetExtensionData_0;
            &&& plan.effects.len() == 1
            &&& plan.effects[0] is SetExtensionData
            &&& requests_in(after) == (RequestStateView {
                pending_compaction: None,
                ..requests_in(data)
            })
            &&& outstanding(requests_in(after)) == 0
            &&& grants_in(after) == grants_in(data)
        }),
{
    let taken = RequestStateView { pending_compaction: None, ..requests_in(data) };
    state_round_trips(taken);
    recording_a_request_grants_nothing(data, state_record(taken));
}

/// There is something to do exactly while a request is pending or was denied and
/// not reported yet. The conversation is compacted exactly for a pending request
/// that may be applied, once no denied one is left to report, and for it as it
/// was made.
pub proof fn when_there_is_something_to_do(
    data: Map<Key, JsonView>,
    messages: Seq<MessageView>,
    counted: Option<i32>,
)
    ensures
        (step(data, messages, counted) is NotApplicable) == (requests_in(
            data,
        ).pending_compaction is None && requests_in(data).denied_compaction is None),
        (step(data, messages, counted) is Compact) == (requests_in(data).denied_compaction is None
            && requests_in(data).pending_compaction is Some && decision(
            data,
            messages,
            counted,
        ) is Apply),
        step(data, messages, counted) is Compact ==> Some(step(data, messages, counted)->request)
            == requests_in(data).pending_compaction && step(
            data,
            messages,
            counted,
        )->state.pending_compaction is None && step(
            data,
            messages,
            counted,
        )->state.denied_compaction is None && step(
            data,
            messages,
            counted,
        )->state.requested_compaction_count == requests_in(data).requested_compaction_count && step(
            data,
            messages,
            counted,
        )->state.applied_compaction_count == requests_in(data).applied_compaction_count && step(
            data,
            messages,
            counted,
        )->state.last_applied_context_tokens == requests_in(data).last_applied_context_tokens,
{
}

/// Settling a request without a compaction changes what is asked for and nothing
/// else: no count, no other record, no message but the one that tells of it.
pub proof fn settling_changes_only_what_is_asked_for(
    data: Map<Key, JsonView>,
    messages: Seq<MessageView>,
    counted: Option<i32>,
)
    requires
        step(data, messages, counted) is Settle,
    ensures
        ({
            let plan = step(data, messages, counted)->Settle_0;
            let after = plan.effects[0]->SetExtensionData_0;
            let (was, is) = (requests_in(data), requests_in(after));
            &&& is.requested_compaction_count == was.requested_compaction_count
            &&& is.applied_compaction_count == was.applied_compaction_count
            &&& is.last_applied_context_tokens == was.last_applied_context_tokens
            &&& was.denied_compaction is Some ==> is.denied_compaction is None
                && is.pending_compaction == was.pending_compaction
            &&& was.denied_compaction is None ==> is.pending_compaction is None
            &&& was.denied_compaction is None && decision(data, messages, counted) is Denied
                ==> is.denied_compaction == was.pending_compaction
            &&& was.denied_compaction is None && decision(data, messages, counted) is Refused
                ==> is.denied_compaction is None
            &&& forall|key: Key|
                key != requests_key() ==> #[trigger] after.contains_key(key) == data.contains_key(
                    key,
                ) && (data.contains_key(key) ==> after[key] == data[key])
            &&& plan.shown.len() == 0
            &&& plan.reply is Some
            &&& !plan.yields
        }),
{
    let state = requests_in(data);
    if let Some(request) = state.pending_compaction {
        state_round_trips(
            RequestStateView {
                pending_compaction: None,
                denied_compaction: Some(request),
                ..state
            },
        );
    }
    state_round_trips(RequestStateView { denied_compaction: None, ..state });
    state_round_trips(RequestStateView { pending_compaction: None, ..state });
}

/// Who is told of a request that is settled, and what: of one that was denied the
/// user alone, with its reason; of one that is refused the model too, with all of
/// the detail and of what became of its note.
pub proof fn who_is_told_of_a_settled_request(
    data: Map<Key, JsonView>,
    messages: Seq<MessageView>,
    counted: Option<i32>,
)
    requires
        step(data, messages, counted) is Settle,
    ensures
        ({
            let reply = step(data, messages, counted)->Settle_0.reply->0;
            let state = requests_in(data);
            let verdict = decision(data, messages, counted);
            &&& state.denied_compaction is Some ==> reply == MessageView::notice(
                denied_text(state.denied_compaction->0.reason),
            )
            &&& state.denied_compaction is None && verdict is Denied ==> reply
                == MessageView::notice(denied_text(state.pending_compaction->0.reason))
            &&& state.denied_compaction is None && verdict is Refused ==> reply.role
                == Role::Assistant && reply.metadata.agent_visible && reply.metadata.user_visible
                && reply.content == seq![
                ContentView::Text(
                    refusal_text(
                        verdict->Refused_0 + not_kept_text(state.pending_compaction->0),
                    ),
                ),
            ]
        }),
{
    let reply = step(data, messages, counted)->Settle_0.reply->0;
    let state = requests_in(data);
    let verdict = decision(data, messages, counted);
    if state.denied_compaction is None && verdict is Refused {
        assert(reply.content =~= seq![
            ContentView::Text(
                refusal_text(verdict->Refused_0 + not_kept_text(state.pending_compaction->0)),
            ),
        ]);
    }
}

/// A compaction that was carried out replaces the conversation by what is left of
/// it, note and all, and is recorded with the reason and the note in full, the
/// sizes of the context before and after, and the messages that the agent no
/// longer sees. No other record changes, and the user alone is told.
pub proof fn what_is_recorded_of_a_compaction(
    session: Session,
    request: RequestView,
    state: RequestStateView,
    before: Seq<MessageView>,
    after: Seq<MessageView>,
    usage: ProviderUsage,
    retained: i32,
    id: Seq<char>,
)
    ensures
        ({
            let plan = carried_out(session, request, state, before, after, usage, retained);
            let event = plan.effects[0]->event;
            let data = plan.effects[1]->SetExtensionData_0;
            &&& plan.effects.len() == 2
            &&& plan.effects[0] is CompactConversation
            &&& plan.effects[0]->conversation == after
            &&& plan.effects[0]->usage == Some(usage)
            &&& event.trigger == CompactionTrigger::Model
            &&& event.reason == Some(request.reason)
            &&& event.carry == request.carry
            &&& event.before_tokens == session.usage.total_tokens
            &&& event.after_tokens == Some(retained)
            &&& event.archived_message_ids.contains(id) == (visible_ids(before).contains(id)
                && !visible_ids(after).contains(id))
            &&& plan.effects[1] is SetExtensionData
            &&& requests_in(data).requested_compaction_count == state.requested_compaction_count
            &&& forall|key: Key|
                key != requests_key() ==> #[trigger] data.contains_key(key)
                    == session.extension_data@.contains_key(key) && (
                session.extension_data@.contains_key(key) ==> data[key]
                    == session.extension_data@[key])
            &&& plan.shown.len() == 0
            &&& !plan.yields
            &&& plan.reply == Some(
                MessageView::notice(
                    applied_text(
                        request.reason,
                        session.usage.total_tokens,
                        Some(retained),
                        event.archived_message_ids.len(),
                    ),
                ),
            )
        }),
{
    archived_means_no_longer_visible(before, after, id);
    state_round_trips(state.applied(retained));
}

/// Of a compaction that failed the model is told why, in full, and that it may ask
/// again, in a message that the user sees too.
pub proof fn a_failure_is_told_in_full(
    data: Map<Key, JsonView>,
    state: RequestStateView,
    error: Seq<char>,
    request: RequestView,
)
    ensures
        ({
            let reply = failed(data, state, error, request).reply->0;
            &&& reply.content == seq![ContentView::Text(failure_text(error, request))]
            &&& reply.role == Role::Assistant
            &&& reply.metadata.agent_visible
            &&& reply.metadata.user_visible
        }),
        occurs(
            failure_text(error, request),
            "compaction failed ("@ + error + "); ask again if you still need it"@,
        ),
{
    let reply = failed(data, state, error, request).reply->0;
    assert(reply.content =~= seq![ContentView::Text(failure_text(error, request))]);
    let told = "compaction failed ("@ + error + "); ask again if you still need it"@;
    let note = not_kept_text(request);
    what_comes_last_occurs(Seq::empty(), told);
    assert(Seq::<char>::empty() + told =~= told);
    what_occurs_stays(told, note, told);
    a_refusal_gives_its_detail(told + note, told + note);
    occurs_is_transitive(failure_text(error, request), told + note, told);
}

/// Where the size of the context is needed, it can turn what there is to do.
pub proof fn a_needed_count_can_turn_the_step(data: Map<Key, JsonView>, messages: Seq<MessageView>)
    requires
        step_needs_count(data, messages),
    ensures
        exists|a: Option<i32>, b: Option<i32>|
            (#[trigger] step(data, messages, a)) is Compact && (#[trigger] step(
                data,
                messages,
                b,
            )) is Settle,
{
    let last = requests_in(data).last_applied_context_tokens;
    assert(step(data, messages, None) is Compact);
    assert(step(data, messages, last) is Settle);
}

} // verus!
