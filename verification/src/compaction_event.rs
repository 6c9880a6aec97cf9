//! A record of every time a session's history was taken away from the agent.
//!
//! Compaction, clearing and eviction do not delete messages: the stored rows
//! stay, with `agent_visible` turned off. These records say when that happened,
//! why, and which messages it affected, so the archive can be told apart from
//! the messages that were never part of a conversation.

use vstd::prelude::*;
use vstd::string::*;

use crate::conversation::{
    clone_option, message_views, option_view, Conversation, Message, MessageView,
};
use crate::ids::{draw, message_id, message_id_from, message_ids_differ};
use crate::text::{clone_strings, decimal, same, views};

verus! {

#[derive(Debug, Clone, Copy, PartialEq, Eq, Structural)]
pub enum CompactionTrigger {
    /// The configured context threshold was crossed.
    Threshold,
    /// The provider rejected a request because the conversation was too long.
    Recovery,
    /// The user ran /compact.
    Manual,
    /// The model asked for compaction.
    Model,
    /// The user ran /clear.
    Clear,
    /// A request was refused for its size and goose removed the largest content.
    Eviction,
}

/// The name a trigger is stored under.
pub open spec fn trigger_name(trigger: CompactionTrigger) -> Seq<char> {
    match trigger {
        CompactionTrigger::Threshold => "threshold"@,
        CompactionTrigger::Recovery => "recovery"@,
        CompactionTrigger::Manual => "manual"@,
        CompactionTrigger::Model => "model"@,
        CompactionTrigger::Clear => "clear"@,
        CompactionTrigger::Eviction => "eviction"@,
    }
}

/// No two triggers are stored under one name.
pub proof fn trigger_names_differ(a: CompactionTrigger, b: CompactionTrigger)
    ensures
        trigger_name(a) == trigger_name(b) ==> a == b,
{
    reveal_strlit("threshold");
    reveal_strlit("recovery");
    reveal_strlit("manual");
    reveal_strlit("model");
    reveal_strlit("clear");
    reveal_strlit("eviction");
    if trigger_name(a) == trigger_name(b) {
        assert(trigger_name(a).len() == trigger_name(b).len());
        assert(trigger_name(a)[0] == trigger_name(b)[0]);
        assert(trigger_name(a)[1] == trigger_name(b)[1]);
    }
}

impl CompactionTrigger {
    pub fn as_str(self) -> (r: &'static str)
        ensures
            r@ == trigger_name(self),
    {
        match self {
            CompactionTrigger::Threshold => "threshold",
            CompactionTrigger::Recovery => "recovery",
            CompactionTrigger::Manual => "manual",
            CompactionTrigger::Model => "model",
            CompactionTrigger::Clear => "clear",
            CompactionTrigger::Eviction => "eviction",
        }
    }

    /// The trigger stored under `value`.
    pub fn parse(value: &str) -> (r: Option<Self>)
        ensures
            forall|trigger: CompactionTrigger|
                (r == Some(trigger)) == (#[trigger] trigger_name(trigger) == value@),
    {
        let r: Option<CompactionTrigger> = if same(value, "threshold") {
            Some(CompactionTrigger::Threshold)
        } else if same(value, "recovery") {
            Some(CompactionTrigger::Recovery)
        } else if same(value, "manual") {
            Some(CompactionTrigger::Manual)
        } else if same(value, "model") {
            Some(CompactionTrigger::Model)
        } else if same(value, "clear") {
            Some(CompactionTrigger::Clear)
        } else if same(value, "eviction") {
            Some(CompactionTrigger::Eviction)
        } else {
            None
        };
        proof {
            assert forall|trigger: CompactionTrigger|
                (r == Some(trigger)) == (#[trigger] trigger_name(trigger) == value@) by {
                if let Some(found) = r {
                    trigger_names_differ(found, trigger);
                }
            }
        }
        r
    }
}

#[derive(Debug, PartialEq, Eq)]
pub struct CompactionEvent {
    pub trigger: CompactionTrigger,
    pub reason: Option<String>,
    pub before_tokens: Option<i32>,
    pub after_tokens: Option<i32>,
    pub archived_message_ids: Vec<String>,
    /// The note that was kept verbatim across the compaction.
    pub carry: Option<String>,
}

/// What a compaction record holds.
#[verifier::ext_equal]
pub struct CompactionEventView {
    pub trigger: CompactionTrigger,
    pub reason: Option<Seq<char>>,
    pub before_tokens: Option<i32>,
    pub after_tokens: Option<i32>,
    pub archived_message_ids: Seq<Seq<char>>,
    pub carry: Option<Seq<char>>,
}

impl View for CompactionEvent {
    type V = CompactionEventView;

    open spec fn view(&self) -> CompactionEventView {
        CompactionEventView {
            trigger: self.trigger,
            reason: option_view(self.reason),
            before_tokens: self.before_tokens,
            after_tokens: self.after_tokens,
            archived_message_ids: views(self.archived_message_ids@),
            carry: option_view(self.carry),
        }
    }
}

impl Clone for CompactionEvent {
    fn clone(&self) -> (r: Self)
        ensures
            r@ == self@,
    {
        CompactionEvent {
            trigger: self.trigger,
            reason: clone_option(&self.reason),
            before_tokens: self.before_tokens,
            after_tokens: self.after_tokens,
            archived_message_ids: clone_strings(&self.archived_message_ids),
            carry: clone_option(&self.carry),
        }
    }
}

impl CompactionEvent {
    pub fn new(
        trigger: CompactionTrigger,
        reason: Option<String>,
        before: &Conversation,
        after: &Conversation,
        before_tokens: Option<i32>,
        after_tokens: Option<i32>,
    ) -> (r: Self)
        ensures
            r@ == (CompactionEventView {
                trigger,
                reason: option_view(reason),
                before_tokens,
                after_tokens,
                archived_message_ids: archived_ids(before@, after@),
                carry: None,
            }),
    {
        CompactionEvent {
            trigger,
            reason,
            before_tokens,
            after_tokens,
            archived_message_ids: newly_archived_ids(before, after),
            carry: None,
        }
    }

    /// Records the note that was kept across the compaction.
    pub fn with_carry(self, carry: Option<String>) -> (r: Self)
        ensures
            r@ == (CompactionEventView { carry: option_view(carry), ..self@ }),
    {
        CompactionEvent { carry, ..self }
    }

    pub fn archived_message_count(&self) -> (r: usize)
        ensures
            r == self@.archived_message_ids.len(),
    {
        self.archived_message_ids.len()
    }
}

/// The identifiers of the messages that the agent sees, in order.
pub open spec fn visible_ids(messages: Seq<MessageView>) -> Seq<Seq<char>>
    decreases messages.len(),
{
    if messages.len() == 0 {
        Seq::empty()
    } else {
        let rest = visible_ids(messages.drop_last());
        let last = messages.last();
        if last.metadata.agent_visible && last.id is Some {
            rest.push(last.id->0)
        } else {
            rest
        }
    }
}

/// The identifiers that `before` exposes to the agent and `after` does not.
pub open spec fn archived_ids(before: Seq<MessageView>, after: Seq<MessageView>) -> Seq<Seq<char>> {
    visible_ids(before).filter(|id: Seq<char>| !visible_ids(after).contains(id))
}

fn ids_seen(messages: &Vec<Message>) -> (r: Vec<String>)
    ensures
        views(r@) == visible_ids(message_views(messages@)),
{
    let ghost all = message_views(messages@);
    let mut out: Vec<String> = Vec::new();
    let mut i: usize = 0;
    assert(all.take(0) =~= Seq::empty());
    assert(views(out@) =~= Seq::empty());
    while i < messages.len()
        invariant
            i <= messages@.len(),
            all == message_views(messages@),
            views(out@) == visible_ids(all.take(i as int)),
        decreases messages@.len() - i,
    {
        assert(all.take(i + 1).drop_last() =~= all.take(i as int));
        assert(all.take(i + 1).last() == messages@[i as int]@);
        let ghost so_far = out@;
        if messages[i].is_agent_visible() {
            match &messages[i].id {
                Some(id) => {
                    out.push(id.clone());
                    assert(views(out@) =~= views(so_far).push(id@));
                },
                None => {},
            }
        }
        i += 1;
    }
    assert(all.take(messages@.len() as int) =~= all);
    out
}

fn is_among(id: &str, ids: &Vec<String>) -> (r: bool)
    ensures
        r == views(ids@).contains(id@),
{
    let mut i: usize = 0;
    while i < ids.len()
        invariant
            i <= ids@.len(),
            forall|j: int| 0 <= j < i ==> #[trigger] views(ids@)[j] != id@,
        decreases ids@.len() - i,
    {
        assert(views(ids@)[i as int] == ids@[i as int]@);
        if same(ids[i].as_str(), id) {
            return true;
        }
        i += 1;
    }
    false
}

/// The messages `before` exposed to the agent and `after` no longer does.
pub fn newly_archived_ids(before: &Conversation, after: &Conversation) -> (r: Vec<String>)
    ensures
        views(r@) == archived_ids(before@, after@),
{
    let still_visible: Vec<String> = ids_seen(after.messages());
    let was_visible: Vec<String> = ids_seen(before.messages());
    let ghost gone = |id: Seq<char>| !visible_ids(after@).contains(id);
    let ghost all = views(was_visible@);
    let mut out: Vec<String> = Vec::new();
    let mut i: usize = 0;
    reveal(Seq::filter);
    assert(all.take(0) =~= Seq::empty());
    assert(views(out@) =~= Seq::empty());
    while i < was_visible.len()
        invariant
            i <= was_visible@.len(),
            views(still_visible@) == visible_ids(after@),
            gone == (|id: Seq<char>| !visible_ids(after@).contains(id)),
            all == views(was_visible@),
            views(out@) == all.take(i as int).filter(gone),
        decreases was_visible@.len() - i,
    {
        reveal(Seq::filter);
        assert(all.take(i + 1).drop_last() =~= all.take(i as int));
        assert(all.take(i + 1).last() == was_visible@[i as int]@);
        let ghost so_far = out@;
        if !is_among(was_visible[i].as_str(), &still_visible) {
            out.push(was_visible[i].clone());
            assert(views(out@) =~= views(so_far).push(was_visible@[i as int]@));
        }
        i += 1;
    }
    assert(all.take(was_visible@.len() as int) =~= all);
    out
}

/// An identifier is archived exactly if the agent saw a message under it before
/// and sees none under it after.
pub proof fn archived_means_no_longer_visible(
    before: Seq<MessageView>,
    after: Seq<MessageView>,
    id: Seq<char>,
)
    ensures
        archived_ids(before, after).contains(id) == (visible_ids(before).contains(id)
            && !visible_ids(after).contains(id)),
{
    let gone = |id: Seq<char>| !visible_ids(after).contains(id);
    lemma_filter_contains(visible_ids(before), gone, id);
}

/// Clearing a conversation archives everything the agent could see.
pub proof fn clearing_archives_all(before: Seq<MessageView>)
    ensures
        archived_ids(before, Seq::empty()) == visible_ids(before),
{
    let gone = |id: Seq<char>| !visible_ids(Seq::<MessageView>::empty()).contains(id);
    lemma_filter_all(visible_ids(before), gone);
}

/// A conversation that the agent still sees whole has nothing archived.
pub proof fn nothing_archived_while_visible(before: Seq<MessageView>, after: Seq<MessageView>)
    requires
        forall|id: Seq<char>|
            visible_ids(before).contains(id) ==> #[trigger] visible_ids(after).contains(id),
    ensures
        archived_ids(before, after) == Seq::<Seq<char>>::empty(),
{
    let archived = archived_ids(before, after);
    if archived.len() > 0 {
        assert(archived.contains(archived[0]));
        archived_means_no_longer_visible(before, after, archived[0]);
    }
    assert(archived =~= Seq::empty());
}

/// A message under an identifier is among the visible ones exactly if the agent
/// sees a message that has it.
pub proof fn visible_ids_are_of_visible_messages(messages: Seq<MessageView>, id: Seq<char>)
    ensures
        visible_ids(messages).contains(id) == exists|i: int|
            0 <= i < messages.len() && (#[trigger] messages[i]).metadata.agent_visible
                && messages[i].id == Some(id),
    decreases messages.len(),
{
    if messages.len() > 0 {
        let init = messages.drop_last();
        let last = messages.last();
        visible_ids_are_of_visible_messages(init, id);
        let rest = visible_ids(init);
        if rest.contains(id) {
            let i = choose|i: int|
                0 <= i < init.len() && (#[trigger] init[i]).metadata.agent_visible && init[i].id
                    == Some(id);
            assert(messages[i] == init[i]);
            let k = rest.index_of(id);
            assert(visible_ids(messages)[k] == id);
        }
        if last.metadata.agent_visible && last.id == Some(id) {
            assert(visible_ids(messages)[rest.len() as int] == id);
            assert(messages[messages.len() - 1] == last);
        }
        if visible_ids(messages).contains(id) && !rest.contains(id) {
            let k = visible_ids(messages).index_of(id);
            if k < rest.len() {
                assert(rest[k] == id);
            }
            assert(messages[messages.len() - 1] == last);
        }
        if exists|i: int|
            0 <= i < messages.len() && (#[trigger] messages[i]).metadata.agent_visible
                && messages[i].id == Some(id) {
            let i = choose|i: int|
                0 <= i < messages.len() && (#[trigger] messages[i]).metadata.agent_visible
                    && messages[i].id == Some(id);
            if i < messages.len() - 1 {
                assert(init[i] == messages[i]);
            }
        }
    }
}

proof fn lemma_filter_contains<A>(s: Seq<A>, keep: spec_fn(A) -> bool, x: A)
    ensures
        s.filter(keep).contains(x) == (s.contains(x) && keep(x)),
    decreases s.len(),
{
    reveal(Seq::filter);
    if s.len() > 0 {
        let init = s.drop_last();
        let kept = init.filter(keep);
        lemma_filter_contains(init, keep, x);
        if s.contains(x) && x != s.last() {
            let k = s.index_of(x);
            assert(init[k] == x);
        }
        if init.contains(x) {
            assert(s[init.index_of(x)] == x);
        }
        if kept.contains(x) {
            let k = kept.index_of(x);
            assert(s.filter(keep)[k] == x);
        }
        if x == s.last() {
            assert(s[s.len() - 1] == x);
            if keep(x) {
                assert(s.filter(keep)[kept.len() as int] == x);
            }
        }
        if s.filter(keep).contains(x) {
            let k = s.filter(keep).index_of(x);
            if k < kept.len() {
                assert(kept[k] == x);
            }
        }
    }
}

proof fn lemma_filter_all<A>(s: Seq<A>, keep: spec_fn(A) -> bool)
    requires
        forall|i: int| 0 <= i < s.len() ==> keep(#[trigger] s[i]),
    ensures
        s.filter(keep) == s,
    decreases s.len(),
{
    reveal(Seq::filter);
    if s.len() > 0 {
        let init = s.drop_last();
        assert forall|i: int| 0 <= i < init.len() implies keep(#[trigger] init[i]) by {
            assert(init[i] == s[i]);
        }
        lemma_filter_all(init, keep);
        assert(keep(s[s.len() - 1]));
        assert(s =~= init.push(s.last()));
    } else {
        assert(s.filter(keep) =~= s);
    }
}

/// Whether `after` is `before` with an identifier: its own, or a generated one
/// where it had none.
pub open spec fn identified(before: MessageView, after: MessageView) -> bool {
    if before.id is Some {
        after == before
    } else {
        exists|high: u64, low: u64|
            after == (MessageView { id: Some(#[trigger] message_id(high, low)), ..before })
    }
}

/// A message with the identifier that `draw` gives, where it had none.
pub open spec fn drawn_id(message: MessageView, draw: (u64, u64)) -> MessageView {
    if message.id is Some {
        message
    } else {
        MessageView { id: Some(message_id(draw.0, draw.1)), ..message }
    }
}

/// Messages of which each has the identifier that its draw gives, where it had
/// none.
pub open spec fn drawn_ids(messages: Seq<MessageView>, draws: Seq<(u64, u64)>) -> Seq<MessageView> {
    Seq::new(messages.len(), |i: int| drawn_id(messages[i], draws[i]))
}

/// Gives every message that has no id the one that its draw gives.
pub fn identify_messages(conversation: &Conversation, draws: &Vec<(u64, u64)>) -> (r: Conversation)
    requires
        draws@.len() == conversation@.len(),
    ensures
        r@ == drawn_ids(conversation@, draws@),
{
    let messages: &Vec<Message> = conversation.messages();
    let ghost all = conversation@;
    let mut out: Vec<Message> = Vec::new();
    let mut i: usize = 0;
    while i < messages.len()
        invariant
            i <= messages@.len(),
            all == message_views(messages@),
            draws@.len() == all.len(),
            out@.len() == i,
            forall|j: int| 0 <= j < i ==> (#[trigger] out@[j])@ == drawn_id(all[j], draws@[j]),
        decreases messages@.len() - i,
    {
        assert(all[i as int] == messages@[i as int]@);
        let (high, low): (u64, u64) = draws[i];
        out.push(messages[i].clone().with_id_if_missing(message_id_from(high, low)));
        i += 1;
    }
    let r = Conversation::new_unvalidated(out);
    assert(r@ =~= drawn_ids(all, draws@));
    r
}

/// Give every message an id, so a rewritten conversation can be persisted by
/// id without duplicating rows that are already stored. Each message has a draw
/// of its own; that no two draws are alike is left to chance.
pub fn ensure_message_ids(conversation: Conversation) -> (r: Conversation)
    ensures
        exists|draws: Seq<(u64, u64)>|
            draws.len() == conversation@.len() && r@ == #[trigger] drawn_ids(conversation@, draws),
        r@.len() == conversation@.len(),
        forall|i: int| 0 <= i < r@.len() ==> identified(conversation@[i], #[trigger] r@[i]),
        forall|i: int| 0 <= i < r@.len() ==> (#[trigger] r@[i]).id is Some,
{
    let count: usize = conversation.messages().len();
    assert(count == conversation@.len());
    let mut draws: Vec<(u64, u64)> = Vec::new();
    let mut i: usize = 0;
    while i < count
        invariant
            i <= count,
            draws@.len() == i,
        decreases count - i,
    {
        draws.push(draw());
        i += 1;
    }
    let r = identify_messages(&conversation, &draws);
    assert forall|j: int| 0 <= j < r@.len() implies identified(
        conversation@[j],
        #[trigger] r@[j],
    ) by {
        assert(r@[j] == drawn_id(conversation@[j], draws@[j]));
    }
    r
}

/// Where no two draws are alike, no two messages are given the same identifier.
pub proof fn different_draws_give_different_ids(
    messages: Seq<MessageView>,
    draws: Seq<(u64, u64)>,
    i: int,
    j: int,
)
    requires
        draws.len() == messages.len(),
        0 <= i < j < messages.len(),
        messages[i].id is None,
        messages[j].id is None,
        draws[i] != draws[j],
    ensures
        drawn_ids(messages, draws)[i].id is Some,
        drawn_ids(messages, draws)[j].id is Some,
        drawn_ids(messages, draws)[i].id != drawn_ids(messages, draws)[j].id,
{
    message_ids_differ(draws[i].0, draws[i].1, draws[j].0, draws[j].1);
}

/// Messages that all have an identifier are left as they are.
pub proof fn identified_messages_stay(before: Seq<MessageView>, after: Seq<MessageView>)
    requires
        after.len() == before.len(),
        forall|i: int| 0 <= i < after.len() ==> identified(before[i], #[trigger] after[i]),
        forall|i: int| 0 <= i < before.len() ==> (#[trigger] before[i]).id is Some,
    ensures
        after == before,
{
    assert forall|i: int| 0 <= i < after.len() implies after[i] == before[i] by {
        assert(identified(before[i], after[i]));
        assert(before[i].id is Some);
    }
    assert(after =~= before);
}

/// A message more is among the visible ones, last, exactly if the agent sees it
/// and it has an identifier.
pub proof fn visible_ids_follow_the_messages(messages: Seq<MessageView>, message: MessageView)
    ensures
        visible_ids(Seq::empty()) == Seq::<Seq<char>>::empty(),
        message.metadata.agent_visible && message.id is Some ==> visible_ids(messages.push(message))
            == visible_ids(messages).push(message.id->0),
        !message.metadata.agent_visible || message.id is None ==> visible_ids(
            messages.push(message),
        ) == visible_ids(messages),
{
    assert(messages.push(message).drop_last() =~= messages);
}

/// What is archived is in the order of the messages: a message more that the
/// agent saw is archived last if it no longer sees one under its identifier, and
/// changes nothing otherwise.
pub proof fn archived_ids_follow_the_messages(
    before: Seq<MessageView>,
    message: MessageView,
    after: Seq<MessageView>,
)
    ensures
        archived_ids(Seq::empty(), after) == Seq::<Seq<char>>::empty(),
        message.metadata.agent_visible && message.id is Some && !visible_ids(after).contains(
            message.id->0,
        ) ==> archived_ids(before.push(message), after) == archived_ids(before, after).push(
            message.id->0,
        ),
        !message.metadata.agent_visible || message.id is None || visible_ids(after).contains(
            message.id->0,
        ) ==> archived_ids(before.push(message), after) == archived_ids(before, after),
{
    visible_ids_follow_the_messages(before, message);
    reveal(Seq::filter);
    assert(archived_ids(Seq::empty(), after) =~= Seq::empty());
    if message.metadata.agent_visible && message.id is Some {
        let ids = visible_ids(before);
        assert(ids.push(message.id->0).drop_last() =~= ids);
    }
}

/// An identifier is all that a message is given, and one that it has is kept.
pub proof fn an_id_is_all_that_is_given(
    messages: Seq<MessageView>,
    draws: Seq<(u64, u64)>,
    i: int,
)
    requires
        draws.len() == messages.len(),
        0 <= i < messages.len(),
    ensures
        drawn_ids(messages, draws).len() == messages.len(),
        drawn_ids(messages, draws)[i].content == messages[i].content,
        drawn_ids(messages, draws)[i].role == messages[i].role,
        drawn_ids(messages, draws)[i].metadata == messages[i].metadata,
        drawn_ids(messages, draws)[i].id is Some,
        messages[i].id is Some ==> drawn_ids(messages, draws)[i].id == messages[i].id,
        messages[i].id is None ==> drawn_ids(messages, draws)[i].id == Some(
            "msg_"@ + decimal(draws[i].0 as nat) + "_"@ + decimal(draws[i].1 as nat),
        ),
{
}

} // verus!
