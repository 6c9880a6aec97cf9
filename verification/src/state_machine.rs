//! What an operation of the agent's loop decides to do with a session.
//!
//! An operation looks at a session and answers with a plan: the messages to show
//! first, the reply to show last, and the changes to make to the session. The
//! loop shows the messages and then asks the plan for its result, handing back
//! the reply as it was shown.

use vstd::prelude::*;
use vstd::string::*;

use crate::compaction_event::{CompactionEvent, CompactionEventView};
use crate::conversation::{
    message_views, ContentView, Conversation, Message, MessageView, Role,
};
use crate::extension_data::{ExtensionData, Key};
use crate::json::JsonView;
use crate::session::ProviderUsage;

verus! {

/// A command that the user typed, without the slash, and what follows it.
#[derive(Debug, Clone, Copy, PartialEq, Eq)]
pub struct SlashCommand<'a> {
    pub command: &'a str,
    pub params_str: &'a str,
}

/// A change to a session.
#[derive(Debug, PartialEq, Eq)]
pub enum Effect {
    SetMessageVisibility { message_id: String, user_visible: bool, agent_visible: bool },
    SetExtensionData(ExtensionData),
    AppendMessage(Message),
    CompactConversation {
        conversation: Conversation,
        usage: Option<ProviderUsage>,
        event: CompactionEvent,
    },
}

/// What a change is.
pub enum EffectView {
    SetMessageVisibility { message_id: Seq<char>, user_visible: bool, agent_visible: bool },
    SetExtensionData(Map<Key, JsonView>),
    AppendMessage(MessageView),
    CompactConversation {
        conversation: Seq<MessageView>,
        usage: Option<ProviderUsage>,
        event: CompactionEventView,
    },
}

impl View for Effect {
    type V = EffectView;

    open spec fn view(&self) -> EffectView {
        match self {
            Effect::SetMessageVisibility { message_id, user_visible, agent_visible } => {
                EffectView::SetMessageVisibility {
                    message_id: message_id@,
                    user_visible: *user_visible,
                    agent_visible: *agent_visible,
                }
            },
            Effect::SetExtensionData(data) => EffectView::SetExtensionData(data@),
            Effect::AppendMessage(message) => EffectView::AppendMessage(message@),
            Effect::CompactConversation { conversation, usage, event } => {
                EffectView::CompactConversation {
                    conversation: conversation@,
                    usage: *usage,
                    event: event@,
                }
            },
        }
    }
}

/// What each change of a list is.
pub open spec fn effect_views(effects: Seq<Effect>) -> Seq<EffectView> {
    effects.map_values(|e: Effect| e@)
}

/// What an operation did.
#[derive(Debug, PartialEq, Eq)]
pub enum OperationResult {
    /// Nothing: another operation may have something to do.
    NotApplicable,
    /// Changes, after which the loop goes on.
    Applied(Vec<Effect>),
    /// Changes, after which it is the user's turn.
    Yielded(Vec<Effect>),
}

/// What an operation decided to do.
#[derive(Debug, PartialEq, Eq)]
pub struct Plan {
    /// The messages to show first.
    pub shown: Vec<Message>,
    /// The reply to show last, which is also kept.
    pub reply: Option<Message>,
    /// The changes to make before the reply is appended.
    pub effects: Vec<Effect>,
    /// Whether it is the user's turn afterwards.
    pub yields: bool,
}

/// What a plan is.
#[verifier::ext_equal]
pub struct PlanView {
    pub shown: Seq<MessageView>,
    pub reply: Option<MessageView>,
    pub effects: Seq<EffectView>,
    pub yields: bool,
}

pub open spec fn reply_view(reply: Option<Message>) -> Option<MessageView> {
    match reply {
        Some(reply) => Some(reply@),
        None => None,
    }
}

impl View for Plan {
    type V = PlanView;

    open spec fn view(&self) -> PlanView {
        PlanView {
            shown: message_views(self.shown@),
            reply: reply_view(self.reply),
            effects: effect_views(self.effects@),
            yields: self.yields,
        }
    }
}

impl PlanView {
    /// The changes to make, once the reply was shown and came back as `shown`.
    pub open spec fn completed(self, shown: Option<MessageView>) -> Seq<EffectView> {
        match shown {
            Some(message) => self.effects.push(EffectView::AppendMessage(message)),
            None => self.effects,
        }
    }
}

impl Plan {
    /// The result of the operation, once the reply was shown and came back as
    /// `shown`.
    pub fn complete(self, shown: Option<Message>) -> (r: OperationResult)
        ensures
            match r {
                OperationResult::NotApplicable => false,
                OperationResult::Applied(effects) => !self@.yields && effect_views(effects@)
                    == self@.completed(reply_view(shown)),
                OperationResult::Yielded(effects) => self@.yields && effect_views(effects@)
                    == self@.completed(reply_view(shown)),
            },
    {
        let mut effects: Vec<Effect> = self.effects;
        match shown {
            Some(message) => {
                effects.push(Effect::AppendMessage(message));
                assert(effect_views(effects@) =~= self@.effects.push(
                    EffectView::AppendMessage(message@),
                ));
            },
            None => {},
        }
        if self.yields {
            OperationResult::Yielded(effects)
        } else {
            OperationResult::Applied(effects)
        }
    }
}

/// The command's own message, hidden from the agent, and the reply to it, which
/// only the user sees either.
pub open spec fn command_reply_view(
    command_message: MessageView,
    text: Seq<char>,
    data: Option<Map<Key, JsonView>>,
) -> PlanView {
    PlanView {
        shown: seq![command_message.visible(true, false)],
        reply: Some(MessageView::empty(Role::Assistant).text(text).visible(true, false)),
        effects: seq![
            EffectView::SetMessageVisibility {
                message_id: command_message.id->0,
                user_visible: true,
                agent_visible: false,
            },
        ] + match data {
            Some(data) => seq![EffectView::SetExtensionData(data)],
            None => Seq::empty(),
        },
        yields: true,
    }
}

/// What a command answers: a plan, or why there is none. `turn` is the messages
/// of the turn, of which the first is the command itself.
pub open spec fn command_reply_spec(
    what: Seq<char>,
    turn: Seq<MessageView>,
    text: Seq<char>,
    data: Option<Map<Key, JsonView>>,
) -> Result<PlanView, Seq<char>> {
    if turn.len() == 0 {
        Err(what + " command conversation has no kickoff message"@)
    } else if turn[0].id is None {
        Err("Persisted slash command message has no id"@)
    } else {
        Ok(command_reply_view(turn[0], text, data))
    }
}

/// Whether an answer is the one that `expected` says.
pub open spec fn answers(
    r: Result<Plan, String>,
    expected: Result<PlanView, Seq<char>>,
) -> bool {
    match (r, expected) {
        (Ok(plan), Ok(view)) => plan@ == view,
        (Err(error), Err(text)) => error@ == text,
        _ => false,
    }
}

/// What an optional record of a session's extensions holds.
pub open spec fn data_view(data: Option<ExtensionData>) -> Option<Map<Key, JsonView>> {
    match data {
        Some(data) => Some(data@),
        None => None,
    }
}

/// The answer to a command: its message is hidden from the agent, and the reply
/// goes to the user alone. `what` names the command where there is no message to
/// answer to, and `data` is what the session's extensions are left with, where
/// that changes.
pub fn command_reply(
    what: &str,
    turn: &Vec<Message>,
    text: &str,
    data: Option<ExtensionData>,
) -> (r: Result<Plan, String>)
    ensures
        answers(r, command_reply_spec(what@, message_views(turn@), text@, data_view(data))),
{
    if turn.len() == 0 {
        let mut error: String = what.to_owned();
        error.append(" command conversation has no kickoff message");
        return Err(error);
    }
    let command_message: &Message = &turn[0];
    assert(message_views(turn@)[0] == turn@[0]@);
    let message_id: String = match &command_message.id {
        Some(id) => id.clone(),
        None => {
            return Err("Persisted slash command message has no id".to_owned());
        },
    };
    let mut shown: Vec<Message> = Vec::new();
    shown.push(command_message.clone().with_visibility(true, false));
    let reply: Message = Message::assistant().with_text(text).with_visibility(true, false);
    let mut effects: Vec<Effect> = Vec::new();
    effects.push(
        Effect::SetMessageVisibility { message_id, user_visible: true, agent_visible: false },
    );
    let ghost changed = data_view(data);
    match data {
        Some(data) => {
            effects.push(Effect::SetExtensionData(data));
        },
        None => {},
    }
    let plan = Plan { shown, reply: Some(reply), effects, yields: true };
    proof {
        let view = command_reply_view(turn@[0]@, text@, changed);
        assert(plan@.shown =~= view.shown);
        assert(plan@.effects =~= view.effects);
    }
    Ok(plan)
}

/// The reply to a command never reaches the agent, and neither does the command.
pub proof fn commands_stay_with_the_user(
    what: Seq<char>,
    turn: Seq<MessageView>,
    text: Seq<char>,
    data: Option<Map<Key, JsonView>>,
)
    requires
        command_reply_spec(what, turn, text, data) is Ok,
    ensures
        ({
            let plan = command_reply_spec(what, turn, text, data)->Ok_0;
            &&& plan.yields
            &&& !plan.reply->0.metadata.agent_visible
            &&& forall|i: int|
                0 <= i < plan.shown.len() ==> !(#[trigger] plan.shown[i]).metadata.agent_visible
            &&& plan.effects[0] == EffectView::SetMessageVisibility {
                message_id: turn[0].id->0,
                user_visible: true,
                agent_visible: false,
            }
        }),
{
}

/// A command is answered with one reply, in full. The command is shown as it was
/// typed, and hidden from the agent; the session's records change exactly where
/// there is something to change.
pub proof fn a_command_is_answered_in_full(
    what: Seq<char>,
    turn: Seq<MessageView>,
    text: Seq<char>,
    data: Option<Map<Key, JsonView>>,
)
    requires
        turn.len() > 0,
        turn[0].id is Some,
    ensures
        command_reply_spec(what, turn, text, data) is Ok,
        ({
            let plan = command_reply_spec(what, turn, text, data)->Ok_0;
            &&& plan.reply is Some
            &&& plan.reply->0.content == seq![ContentView::Text(text)]
            &&& plan.reply->0.role == Role::Assistant
            &&& plan.reply->0.metadata.user_visible
            &&& plan.shown.len() == 1
            &&& plan.shown[0].content == turn[0].content
            &&& plan.shown[0].role == turn[0].role
            &&& plan.shown[0].id == turn[0].id
            &&& plan.shown[0].metadata.user_visible
            &&& plan.effects.len() == if data is Some {
                2int
            } else {
                1int
            }
            &&& data is Some ==> plan.effects[1] == EffectView::SetExtensionData(data->0)
        }),
{
    let plan = command_reply_spec(what, turn, text, data)->Ok_0;
    assert(plan.reply->0.content =~= seq![ContentView::Text(text)]);
}

/// A command of which there is no message, or none that was kept, is not answered
/// but reported.
pub proof fn a_command_needs_its_message(
    what: Seq<char>,
    turn: Seq<MessageView>,
    text: Seq<char>,
    data: Option<Map<Key, JsonView>>,
)
    ensures
        (command_reply_spec(what, turn, text, data) is Err) == (turn.len() == 0
            || turn[0].id is None),
        turn.len() == 0 ==> command_reply_spec(what, turn, text, data)->Err_0 == what
            + " command conversation has no kickoff message"@,
        turn.len() > 0 && turn[0].id is None ==> command_reply_spec(what, turn, text, data)->Err_0
            == "Persisted slash command message has no id"@,
{
}

/// A plan comes to its own changes, in order, and then to the reply as it was
/// shown, where there was one.
pub proof fn the_reply_is_kept_last(plan: PlanView, shown: Option<MessageView>, i: int)
    requires
        0 <= i < plan.effects.len(),
    ensures
        plan.completed(shown)[i] == plan.effects[i],
        plan.completed(shown).len() == plan.effects.len() + if shown is Some {
            1int
        } else {
            0int
        },
        shown is Some ==> plan.completed(shown).last() == EffectView::AppendMessage(shown->0),
{
}

} // verus!
