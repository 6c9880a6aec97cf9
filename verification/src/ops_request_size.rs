//! Tells the model what made its request too large, instead of compacting.
//!
//! A provider that refuses a request on its byte size has not run out of context
//! — the payload carries too much content. Summarizing the conversation would
//! hide the very attachments that caused the refusal, so the model would ask for
//! them again; describing them lets it decide what to shrink or drop. A model
//! that does not shrink the request has its largest message taken out of it.

use vstd::prelude::*;
use vstd::string::*;

use crate::compaction_event::{
    archived_ids, archived_means_no_longer_visible, ensure_message_ids, identified, visible_ids,
    visible_ids_are_of_visible_messages, CompactionEvent, CompactionEventView, CompactionTrigger,
};
use crate::conversation::{
    clone_messages, first_error, message_views, trailing_error_view, ContentView, Conversation,
    Message, MessageErrorKind, MessageView, Role,
};
use crate::request_size::{
    agent_visible_by_size, content_kinds, first_text, human_bytes, kinds_text, message_text,
    outranks, oversized_request_message, oversized_text, ranked, request_size, size_at, size_text,
    total_size, MAX_REQUEST_SIZE_ADVISORIES, QUOTED_CHARS, REPORTED_OFFENDER_BYTES,
};
use crate::state_machine::{Effect, EffectView, Plan, PlanView};
use crate::text::{
    first_line, four_parts_are_one, occurs, prefix, take_chars, take_line, two_parts_are_one,
    what_comes_last_occurs, what_occurs_stays,
};

verus! {

#[derive(Debug, Clone, Copy, PartialEq, Eq)]
pub struct RequestSizeOperation {
    /// Whether the provider keeps the conversation itself.
    pub manages_own_context: bool,
    /// How large a request the provider accepts, where it says so.
    pub max_request_bytes: Option<usize>,
}

/// Whether a message records that the provider refused a request for its size.
pub open spec fn is_advisory_error(message: MessageView) -> bool {
    message.error_kind() == Some(MessageErrorKind::RequestTooLarge)
        && !message.metadata.agent_visible
}

/// How often the provider refused a request for its size.
pub open spec fn advisory_count(messages: Seq<MessageView>) -> nat {
    messages.filter(|message: MessageView| is_advisory_error(message)).len()
}

/// Whether there is a refused request to answer to.
pub open spec fn refused(operation: RequestSizeOperation, messages: Seq<MessageView>) -> bool {
    !operation.manages_own_context && trailing_error_view(messages) == Some(
        MessageErrorKind::RequestTooLarge,
    )
}

/// The provider's own words.
pub open spec fn refusal_details(messages: Seq<MessageView>) -> Seq<char> {
    match first_error(messages.last().content) {
        Some((_, details)) => details,
        None => Seq::empty(),
    }
}

/// The model is told what to shrink.
pub open spec fn advisory_plan(text: Seq<char>) -> PlanView {
    PlanView {
        shown: seq![
            MessageView::notice(
                "The request exceeded the provider's size limit. Asking the model to reduce it..."@,
            ),
        ],
        reply: None,
        effects: seq![
            EffectView::AppendMessage(
                MessageView::empty(Role::User).text(text).visible(false, true),
            ),
        ],
        yields: false,
    }
}

/// Whether the message at `i` is the largest that the agent sees, and worth
/// removing.
pub open spec fn is_evictable(messages: Seq<MessageView>, sizes: Seq<usize>, i: int) -> bool {
    &&& 0 <= i < messages.len()
    &&& messages[i].metadata.agent_visible
    &&& size_at(sizes, i) >= REPORTED_OFFENDER_BYTES
    &&& forall|j: int|
        0 <= j < messages.len() && (#[trigger] messages[j]).metadata.agent_visible ==> size_at(
            sizes,
            j,
        ) < size_at(sizes, i) || (size_at(sizes, j) == size_at(sizes, i) && i <= j)
}

/// The conversation with the message at `i` hidden from the agent.
pub open spec fn hidden_at(messages: Seq<MessageView>, i: int) -> Seq<MessageView> {
    messages.update(i, messages[i].visible(messages[i].metadata.user_visible, false))
}

pub open spec fn eviction_text(message: MessageView, bytes: usize) -> Seq<char> {
    "Your request is still rejected as too large by the provider, so goose removed the largest content from your context: "@
        + size_text(bytes as nat) + " ("@ + kinds_text(message) + ") starting: \""@ + prefix(
        first_line(message_text(message)),
        QUOTED_CHARS as nat,
    )
        + "\". It stays on record, but you no longer see it. Continue without it, or read a smaller version of what you still need."@
}

/// The largest message is taken away from the agent, that is recorded, and the
/// model is told. `before` is the conversation in which every message has an
/// identifier.
pub open spec fn eviction_plan(
    before: Seq<MessageView>,
    sizes: Seq<usize>,
    i: int,
    details: Seq<char>,
) -> PlanView {
    PlanView {
        shown: seq![
            MessageView::notice(
                "The request still exceeded the provider's size limit. Removing the largest content from it..."@,
            ),
        ],
        reply: None,
        effects: seq![
            EffectView::CompactConversation {
                conversation: hidden_at(before, i),
                usage: None,
                event: CompactionEventView {
                    trigger: CompactionTrigger::Eviction,
                    reason: Some(details),
                    before_tokens: None,
                    after_tokens: None,
                    archived_message_ids: archived_ids(before, hidden_at(before, i)),
                    carry: None,
                },
            },
            EffectView::AppendMessage(
                MessageView::empty(Role::User).text(
                    eviction_text(before[i], size_at(sizes, i)),
                ).visible(false, true),
            ),
        ],
        yields: false,
    }
}

/// Whether every message of `after` is that of `before` with an identifier.
pub open spec fn all_identified(before: Seq<MessageView>, after: Seq<MessageView>) -> bool {
    &&& after.len() == before.len()
    &&& forall|j: int| 0 <= j < after.len() ==> identified(before[j], #[trigger] after[j])
    &&& forall|j: int| 0 <= j < after.len() ==> (#[trigger] after[j]).id is Some
}

/// Whether a plan takes the largest message away from the agent.
pub open spec fn evicts(
    plan: PlanView,
    messages: Seq<MessageView>,
    sizes: Seq<usize>,
    details: Seq<char>,
) -> bool {
    exists|i: int, before: Seq<MessageView>|
        is_evictable(messages, sizes, i) && #[trigger] all_identified(messages, before) && plan
            == #[trigger] eviction_plan(before, sizes, i, details)
}

impl RequestSizeOperation {
    pub fn new(manages_own_context: bool, max_request_bytes: Option<usize>) -> (r: Self)
        ensures
            r == (RequestSizeOperation { manages_own_context, max_request_bytes }),
    {
        RequestSizeOperation { manages_own_context, max_request_bytes }
    }

    pub fn name(&self) -> (r: &'static str)
        ensures
            r@ == "request_size"@,
    {
        "request_size"
    }

    /// Whether there is a refused request to answer to.
    pub fn answers_to(&self, conversation: &Conversation) -> (r: bool)
        ensures
            r == refused(*self, conversation@),
    {
        !self.manages_own_context && match conversation.trailing_error() {
            Some(MessageErrorKind::RequestTooLarge) => true,
            _ => false,
        }
    }

    /// A refused request leaves an error message behind, and goose counts those
    /// to know how often it has already asked the model to shrink the payload.
    pub fn advisories(&self, messages: &Vec<Message>) -> (r: usize)
        ensures
            r == advisory_count(message_views(messages@)),
    {
        let ghost all = message_views(messages@);
        let ghost counts = |message: MessageView| is_advisory_error(message);
        let mut count: usize = 0;
        let mut i: usize = 0;
        proof {
            reveal(Seq::filter);
            assert(all.take(0) =~= Seq::empty());
        }
        while i < messages.len()
            invariant
                i <= messages@.len(),
                count <= i,
                all == message_views(messages@),
                counts == (|message: MessageView| is_advisory_error(message)),
                count == all.take(i as int).filter(counts).len(),
            decreases messages@.len() - i,
        {
            proof {
                reveal(Seq::filter);
                assert(all.take(i + 1).drop_last() =~= all.take(i as int));
                assert(all.take(i + 1).last() == messages@[i as int]@);
            }
            let too_large: bool = match messages[i].error_kind() {
                Some(MessageErrorKind::RequestTooLarge) => true,
                _ => false,
            };
            if too_large && !messages[i].is_agent_visible() {
                count += 1;
            }
            i += 1;
        }
        assert(all.take(messages@.len() as int) =~= all);
        count
    }

    /// What to do about a request that was refused for its size. `turn` is the
    /// messages of the turn, and `sizes` says how many bytes each message of the
    /// conversation takes in a request.
    pub fn run(&self, conversation: &Conversation, turn: &Vec<Message>, sizes: &Vec<usize>) -> (r:
        Option<Plan>)
        requires
            request_size(conversation@, sizes@) <= usize::MAX,
        ensures
            match r {
                None => !refused(*self, conversation@) || (advisory_count(message_views(turn@))
                    > MAX_REQUEST_SIZE_ADVISORIES && forall|i: int|
                    !is_evictable(conversation@, sizes@, i)),
                Some(plan) => {
                    &&& refused(*self, conversation@)
                    &&& if advisory_count(message_views(turn@)) > MAX_REQUEST_SIZE_ADVISORIES {
                        evicts(plan@, conversation@, sizes@, refusal_details(conversation@))
                    } else {
                        exists|order: Seq<usize>| #[trigger]
                            ranked(order, conversation@, sizes@) && plan@ == advisory_plan(
                                oversized_text(
                                    conversation@,
                                    sizes@,
                                    order,
                                    refusal_details(conversation@),
                                    self.max_request_bytes,
                                ),
                            )
                    }
                },
            },
            r is Some && advisory_count(message_views(turn@)) <= 2 ==> r->0@.effects.len() == 1
                && r->0@.effects[0] is AppendMessage,
            r is Some && advisory_count(message_views(turn@)) > 2 ==> r->0@.effects.len() == 2
                && r->0@.effects[0] is CompactConversation,
    {
        if self.manages_own_context {
            return None;
        }
        let details: &str = match conversation.last() {
            None => {
                return None;
            },
            Some(message) => match message.as_error() {
                Some((MessageErrorKind::RequestTooLarge, details)) => details,
                _ => {
                    return None;
                },
            },
        };
        if self.advisories(turn) > MAX_REQUEST_SIZE_ADVISORIES {
            // The budget is spent: stop asking, so a model that keeps resending
            // the same request cannot hold the turn open. The largest content is
            // removed instead; where nothing is large enough to be the culprit,
            // the error surfaces.
            return RequestSizeOperation::evict(conversation, sizes, details);
        }
        let text: String = oversized_request_message(
            conversation,
            sizes,
            details,
            self.max_request_bytes,
        );
        let advisory: Message = Message::user().with_text(text.as_str()).with_visibility(
            false,
            true,
        );
        let mut shown: Vec<Message> = Vec::new();
        shown.push(
            Message::notice(
                "The request exceeded the provider's size limit. Asking the model to reduce it...",
            ),
        );
        let mut effects: Vec<Effect> = Vec::new();
        effects.push(Effect::AppendMessage(advisory));
        let plan = Plan { shown, reply: None, effects, yields: false };
        proof {
            let expected = advisory_plan(text@);
            assert(plan@.shown =~= expected.shown);
            assert(plan@.effects =~= expected.effects);
        }
        Some(plan)
    }

    /// Takes the largest message away from the agent, if it is large enough to
    /// be worth it. The message stays on record.
    fn evict(conversation: &Conversation, sizes: &Vec<usize>, details: &str) -> (r: Option<Plan>)
        ensures
            match r {
                None => forall|i: int| !is_evictable(conversation@, sizes@, i),
                Some(plan) => evicts(plan@, conversation@, sizes@, details@),
            },
    {
        let order: Vec<usize> = agent_visible_by_size(conversation, sizes);
        let on_record: usize = conversation.messages().len();
        assert(on_record == conversation@.len());
        if order.len() == 0 {
            proof {
                assert forall|i: int| !is_evictable(conversation@, sizes@, i) by {
                    if is_evictable(conversation@, sizes@, i) {
                        let at = i as usize;
                        assert(conversation@[at as int].metadata.agent_visible);
                        assert(order@.contains(at));
                    }
                }
            }
            return None;
        }
        let i: usize = order[0];
        assert(i < conversation@.len());
        let bytes: usize = if i < sizes.len() {
            sizes[i]
        } else {
            0
        };
        assert(bytes == size_at(sizes@, i as int));
        proof {
            assert forall|j: int|
                0 <= j < conversation@.len() && (
                #[trigger] conversation@[j]).metadata.agent_visible implies size_at(sizes@, j)
                < size_at(sizes@, i as int) || (size_at(sizes@, j) == size_at(sizes@, i as int) && i
                <= j) by {
                let at = j as usize;
                assert(conversation@[at as int].metadata.agent_visible);
                assert(order@.contains(at));
                let k = order@.index_of(at);
                if k > 0 {
                    assert(outranks(
                        sizes@,
                        order@[0] as int,
                        order@[k] as int,
                    ));
                }
            }
        }
        if bytes < REPORTED_OFFENDER_BYTES {
            return None;
        }
        let before: Conversation = ensure_message_ids(conversation.clone());
        assert(all_identified(conversation@, before@));
        assert(identified(conversation@[i as int], before@[i as int]));
        let mut messages: Vec<Message> = clone_messages(before.messages());
        let ghost all = message_views(messages@);
        assert(all == before@);
        assert(all[i as int] == messages@[i as int]@);
        let evicted: Message = messages[i].clone();
        let user_visible: bool = evicted.is_user_visible();
        let size: String = human_bytes(bytes);
        let kinds: String = content_kinds(&evicted);
        let quoted: String = first_text(&evicted);
        let mut text: String =
            "Your request is still rejected as too large by the provider, so goose removed the largest content from your context: ".to_owned();
        text.append(size.as_str());
        text.append(" (");
        text.append(kinds.as_str());
        text.append(") starting: \"");
        text.append(take_chars(take_line(quoted.as_str()), QUOTED_CHARS));
        text.append(
            "\". It stays on record, but you no longer see it. Continue without it, or read a smaller version of what you still need.",
        );
        messages.set(i, evicted.with_visibility(user_visible, false));
        assert(message_views(messages@) =~= hidden_at(before@, i as int));
        let after: Conversation = Conversation::new_unvalidated(messages);
        let event: CompactionEvent = CompactionEvent::new(
            CompactionTrigger::Eviction,
            Some(details.to_owned()),
            &before,
            &after,
            None,
            None,
        );
        let mut shown: Vec<Message> = Vec::new();
        shown.push(
            Message::notice(
                "The request still exceeded the provider's size limit. Removing the largest content from it...",
            ),
        );
        let mut effects: Vec<Effect> = Vec::new();
        effects.push(Effect::CompactConversation { conversation: after, usage: None, event });
        effects.push(
            Effect::AppendMessage(
                Message::user().with_text(text.as_str()).with_visibility(false, true),
            ),
        );
        let plan = Plan { shown, reply: None, effects, yields: false };
        proof {
            let expected = eviction_plan(before@, sizes@, i as int, details@);
            assert(plan@.shown =~= expected.shown);
            assert(plan@.effects =~= expected.effects);
            assert(is_evictable(conversation@, sizes@, i as int));
        }
        Some(plan)
    }
}

/// An eviction takes away from the agent what the evicted message takes in a
/// request, which is at least the size of a culprit: it cannot go on for ever.
pub proof fn an_eviction_shrinks_the_request(
    messages: Seq<MessageView>,
    before: Seq<MessageView>,
    sizes: Seq<usize>,
    i: int,
)
    requires
        is_evictable(messages, sizes, i),
        all_identified(messages, before),
    ensures
        request_size(hidden_at(before, i), sizes) + size_at(sizes, i) == request_size(
            messages,
            sizes,
        ),
        size_at(sizes, i) >= REPORTED_OFFENDER_BYTES,
{
    lemma_hidden_total(messages, before, sizes, i, messages.len());
}

proof fn lemma_hidden_total(
    messages: Seq<MessageView>,
    before: Seq<MessageView>,
    sizes: Seq<usize>,
    i: int,
    n: nat,
)
    requires
        is_evictable(messages, sizes, i),
        all_identified(messages, before),
        n <= messages.len(),
    ensures
        total_size(hidden_at(before, i), sizes, n) + (if i < n {
            size_at(sizes, i) as int
        } else {
            0
        }) == total_size(messages, sizes, n),
    decreases n,
{
    if n > 0 {
        lemma_hidden_total(messages, before, sizes, i, (n - 1) as nat);
        assert(identified(messages[n - 1], before[n - 1]));
        if n - 1 != i {
            assert(hidden_at(before, i)[n - 1] == before[n - 1]);
        }
    }
}

/// An eviction leaves every message on record, and all but the one evicted as
/// they were; that one the agent no longer sees.
pub proof fn an_eviction_hides_one_message(before: Seq<MessageView>, i: int, j: int)
    requires
        0 <= i < before.len(),
        0 <= j < before.len(),
    ensures
        hidden_at(before, i).len() == before.len(),
        j != i ==> hidden_at(before, i)[j] == before[j],
        !hidden_at(before, i)[i].metadata.agent_visible,
        hidden_at(before, i)[i].content == before[i].content,
        hidden_at(before, i)[i].id == before[i].id,
{
}

/// An eviction is recorded under the identifier of the message it took, where no
/// other message that the agent sees goes by it.
pub proof fn an_eviction_is_recorded(before: Seq<MessageView>, i: int)
    requires
        0 <= i < before.len(),
        before[i].metadata.agent_visible,
        before[i].id is Some,
        forall|j: int|
            0 <= j < before.len() && j != i && (#[trigger] before[j]).metadata.agent_visible
                ==> before[j].id != before[i].id,
    ensures
        archived_ids(before, hidden_at(before, i)).contains(before[i].id->0),
{
    let after = hidden_at(before, i);
    let id = before[i].id->0;
    visible_ids_are_of_visible_messages(before, id);
    visible_ids_are_of_visible_messages(after, id);
    archived_means_no_longer_visible(before, after, id);
    if visible_ids(after).contains(id) {
        let j = choose|j: int|
            0 <= j < after.len() && (#[trigger] after[j]).metadata.agent_visible && after[j].id
                == Some(id);
        assert(j != i);
        assert(after[j] == before[j]);
    }
}

/// A message more counts as a refusal exactly if its first error is that the
/// request was too large, and the agent does not see it.
pub proof fn every_refusal_counts(messages: Seq<MessageView>, message: MessageView)
    ensures
        advisory_count(Seq::empty()) == 0,
        advisory_count(messages.push(message)) == advisory_count(messages) + if first_error(
            message.content,
        ) is Some && (first_error(message.content)->0).0 == MessageErrorKind::RequestTooLarge
            && !message.metadata.agent_visible {
            1int
        } else {
            0int
        },
{
    reveal(Seq::filter);
    assert(messages.push(message).drop_last() =~= messages);
}

/// A request was refused for its size exactly if the last message says so and
/// goose looks after the context. What the provider said is what that message
/// says, in full.
pub proof fn the_last_message_tells_of_a_refusal(
    operation: RequestSizeOperation,
    messages: Seq<MessageView>,
    message: MessageView,
)
    ensures
        refused(operation, messages.push(message)) == (!operation.manages_own_context
            && first_error(message.content) is Some && (first_error(message.content)->0).0
            == MessageErrorKind::RequestTooLarge),
        !refused(operation, Seq::empty()),
        first_error(message.content) is Some ==> refusal_details(messages.push(message)) == (
        first_error(message.content)->0).1,
{
    assert(messages.push(message).last() == message);
}

/// Asking the model to shrink its request adds one message for the model alone,
/// which says all there is to say, and shows one notice to the user. Nothing is
/// taken away, and the loop goes on.
pub proof fn an_advisory_only_asks(text: Seq<char>)
    ensures
        ({
            let plan = advisory_plan(text);
            &&& plan.effects.len() == 1
            &&& plan.effects[0] is AppendMessage
            &&& plan.effects[0]->AppendMessage_0.content == seq![ContentView::Text(text)]
            &&& plan.effects[0]->AppendMessage_0.role == Role::User
            &&& plan.effects[0]->AppendMessage_0.metadata.agent_visible
            &&& !plan.effects[0]->AppendMessage_0.metadata.user_visible
            &&& plan.reply is None
            &&& !plan.yields
            &&& plan.shown.len() == 1
            &&& plan.shown[0].metadata.user_visible
            &&& !plan.shown[0].metadata.agent_visible
        }),
{
    let message = advisory_plan(text).effects[0]->AppendMessage_0;
    assert(message.content =~= seq![ContentView::Text(text)]);
}

/// There is one message to evict at most.
pub proof fn there_is_one_to_evict(
    messages: Seq<MessageView>,
    sizes: Seq<usize>,
    i: int,
    j: int,
)
    requires
        is_evictable(messages, sizes, i),
        is_evictable(messages, sizes, j),
    ensures
        i == j,
{
    assert(messages[i].metadata.agent_visible);
    assert(messages[j].metadata.agent_visible);
}

/// There is a message to evict wherever the agent sees one of 64 KiB or more.
pub proof fn a_large_message_can_be_evicted(
    messages: Seq<MessageView>,
    sizes: Seq<usize>,
    k: int,
) -> (i: int)
    requires
        0 <= k < messages.len(),
        messages[k].metadata.agent_visible,
        size_at(sizes, k) >= 65_536,
    ensures
        is_evictable(messages, sizes, i),
        size_at(sizes, i) >= size_at(sizes, k),
{
    lemma_largest(messages, sizes, messages.len() as int, k)
}

/// The first of the largest below `n`.
proof fn lemma_largest(messages: Seq<MessageView>, sizes: Seq<usize>, n: int, k: int) -> (i: int)
    requires
        0 <= k < n <= messages.len(),
        messages[k].metadata.agent_visible,
    ensures
        0 <= i < n,
        messages[i].metadata.agent_visible,
        size_at(sizes, i) >= size_at(sizes, k),
        forall|j: int|
            0 <= j < n && (#[trigger] messages[j]).metadata.agent_visible ==> size_at(sizes, j)
                < size_at(sizes, i) || (size_at(sizes, j) == size_at(sizes, i) && i <= j),
    decreases n,
{
    if k < n - 1 {
        let best = lemma_largest(messages, sizes, n - 1, k);
        if messages[n - 1].metadata.agent_visible && size_at(sizes, n - 1) > size_at(sizes, best) {
            n - 1
        } else {
            best
        }
    } else if exists|j: int| 0 <= j < n - 1 && (#[trigger] messages[j]).metadata.agent_visible {
        let other = choose|j: int|
            0 <= j < n - 1 && (#[trigger] messages[j]).metadata.agent_visible;
        let best = lemma_largest(messages, sizes, n - 1, other);
        if size_at(sizes, n - 1) > size_at(sizes, best) {
            n - 1
        } else {
            best
        }
    } else {
        k
    }
}

/// An eviction replaces the conversation by one in which the agent no longer sees
/// one message, and records that with what the provider said, in full. The model
/// alone is told, in one text; the user is shown a notice, and the loop goes on.
pub proof fn an_eviction_is_told_and_recorded(
    before: Seq<MessageView>,
    sizes: Seq<usize>,
    i: int,
    details: Seq<char>,
)
    requires
        0 <= i < before.len(),
    ensures
        ({
            let plan = eviction_plan(before, sizes, i, details);
            &&& plan.effects.len() == 2
            &&& plan.effects[0] is CompactConversation
            &&& plan.effects[0]->conversation == before.update(
                i,
                plan.effects[0]->conversation[i],
            )
            &&& plan.effects[0]->conversation[i].content == before[i].content
            &&& plan.effects[0]->conversation[i].role == before[i].role
            &&& plan.effects[0]->conversation[i].id == before[i].id
            &&& plan.effects[0]->conversation[i].metadata.user_visible
                == before[i].metadata.user_visible
            &&& !plan.effects[0]->conversation[i].metadata.agent_visible
            &&& plan.effects[0]->event.trigger == CompactionTrigger::Eviction
            &&& plan.effects[0]->event.reason == Some(details)
            &&& plan.effects[0]->event.carry is None
            &&& plan.effects[1] is AppendMessage
            &&& plan.effects[1]->AppendMessage_0.content == seq![
                ContentView::Text(eviction_text(before[i], size_at(sizes, i))),
            ]
            &&& plan.effects[1]->AppendMessage_0.role == Role::User
            &&& plan.effects[1]->AppendMessage_0.metadata.agent_visible
            &&& !plan.effects[1]->AppendMessage_0.metadata.user_visible
            &&& plan.reply is None
            &&& !plan.yields
            &&& plan.shown.len() == 1
            &&& !plan.shown[0].metadata.agent_visible
        }),
{
    let plan = eviction_plan(before, sizes, i, details);
    assert(plan.effects[0]->conversation =~= before.update(i, plan.effects[0]->conversation[i]));
    assert(plan.effects[1]->AppendMessage_0.content =~= seq![
        ContentView::Text(eviction_text(before[i], size_at(sizes, i))),
    ]);
}

/// The model is told of what was taken away how large it was, what it was made of
/// and how its first line starts, to 160 characters.
pub proof fn the_model_is_told_what_was_evicted(message: MessageView, bytes: usize)
    ensures
        occurs(
            eviction_text(message, bytes),
            size_text(bytes as nat) + " ("@ + kinds_text(message) + ") starting: \""@,
        ),
        first_line(message_text(message)).len() <= 160 ==> occurs(
            eviction_text(message, bytes),
            first_line(message_text(message))
                + "\". It stays on record, but you no longer see it. Continue without it, or read a smaller version of what you still need."@,
        ),
        first_line(message_text(message)).len() > 160 ==> occurs(
            eviction_text(message, bytes),
            first_line(message_text(message)).take(160)
                + "\". It stays on record, but you no longer see it. Continue without it, or read a smaller version of what you still need."@,
        ),
{
    let front =
        "Your request is still rejected as too large by the provider, so goose removed the largest content from your context: "@;
    let tail =
        "\". It stays on record, but you no longer see it. Continue without it, or read a smaller version of what you still need."@;
    let size = size_text(bytes as nat);
    let kinds = kinds_text(message);
    let quoted = prefix(first_line(message_text(message)), QUOTED_CHARS as nat);
    four_parts_are_one(front, size, " ("@, kinds, ") starting: \""@);
    let named = front + size + " ("@ + kinds + ") starting: \""@;
    what_comes_last_occurs(front, size + " ("@ + kinds + ") starting: \""@);
    what_occurs_stays(named, quoted, size + " ("@ + kinds + ") starting: \""@);
    what_occurs_stays(named + quoted, tail, size + " ("@ + kinds + ") starting: \""@);
    two_parts_are_one(named, quoted, tail);
    what_comes_last_occurs(named, quoted + tail);
}

} // verus!
