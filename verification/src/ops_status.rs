//! `/status`: which model the session runs on and how full its context is.

use vstd::prelude::*;
use vstd::string::*;

use crate::conversation::{message_views, option_view, Message};
use crate::extension_data::Key;
use crate::json::JsonView;
use crate::session::Session;
use crate::session_requests::{requests_in, SessionRequestState};
use crate::state_machine::{answers, command_reply, command_reply_spec, Plan, SlashCommand};
use crate::text::{
    decimal, occurs, occurs_between, push_decimal, push_signed, same, signed_decimal,
    three_parts_are_one, two_parts_are_one, what_comes_last_occurs, what_occurs_stays,
};

verus! {

#[derive(Debug, PartialEq, Eq)]
pub struct StatusOperation {
    pub model_name: String,
    pub provider_name: String,
}

/// What is said of the note that a queued request carries.
pub open spec fn carrying_text(carry: Option<Seq<char>>) -> Seq<char> {
    match carry {
        Some(carry) => ", carrying "@ + decimal(carry.len()) + " character(s) of note"@,
        None => ""@,
    }
}

/// What is said of the requests that the records hold.
pub open spec fn pending_text(data: Map<Key, JsonView>) -> Seq<char> {
    let state = requests_in(data);
    match (state.pending_compaction, state.denied_compaction) {
        (Some(pending), _) => "\n- Compaction: requested ("@ + pending.reason + ")"@
            + carrying_text(pending.carry) + "; applied at the next turn boundary"@,
        (None, Some(_)) => "\n- Compaction: requested while not permitted; nothing was applied"@,
        (None, None) => ""@,
    }
}

/// A queued compaction request, if there is one, so a user reading /status knows
/// history is about to change.
pub fn pending_request(session: &Session) -> (r: String)
    ensures
        r@ == pending_text(session.extension_data@),
{
    let state: SessionRequestState = SessionRequestState::read(session);
    match &state.pending_compaction {
        Some(pending) => {
            let carried: String = match &pending.carry {
                Some(carry) => {
                    let mut carried: String = ", carrying ".to_owned();
                    push_decimal(&mut carried, carry.as_str().unicode_len() as u64);
                    carried.append(" character(s) of note");
                    carried
                },
                None => "".to_owned(),
            };
            let mut text: String = "\n- Compaction: requested (".to_owned();
            text.append(pending.reason.as_str());
            text.append(")");
            text.append(carried.as_str());
            text.append("; applied at the next turn boundary");
            text
        },
        None => match &state.denied_compaction {
            Some(_) => "\n- Compaction: requested while not permitted; nothing was applied".to_owned(),
            None => "".to_owned(),
        },
    }
}

/// A number of tokens, or zero where none was reported.
pub open spec fn reported(tokens: Option<i32>) -> int {
    match tokens {
        Some(tokens) => tokens as int,
        None => 0,
    }
}

/// How full the context is.
pub open spec fn fill_text(context_limit: usize, percent: usize) -> Seq<char> {
    if context_limit > 0 {
        decimal(percent as nat) + "%"@
    } else {
        "N/A"@
    }
}

/// What was archived, where anything was.
pub open spec fn archive_text(archive: Option<Seq<char>>) -> Seq<char> {
    match archive {
        Some(detail) => "\n- Archived history: "@ + detail,
        None => ""@,
    }
}

/// What `/status` says.
pub open spec fn status_text(
    model_name: Seq<char>,
    provider_name: Seq<char>,
    session: Session,
    context_limit: usize,
    percent: usize,
    archive: Option<Seq<char>>,
) -> Seq<char> {
    "**Session status**\n\n- Model: "@ + model_name + "\n- Provider: "@ + provider_name
        + "\n- Mode: "@ + session.goose_mode@ + "\n- Tokens (lifetime): "@ + signed_decimal(
        reported(session.accumulated_usage.total_tokens),
    ) + "\n- Context: "@ + signed_decimal(reported(session.usage.total_tokens)) + " / "@ + decimal(
        context_limit as nat,
    ) + " tokens ("@ + fill_text(context_limit, percent) + ")"@ + archive_text(archive)
        + pending_text(session.extension_data@)
}

fn reported_tokens(tokens: Option<i32>) -> (r: i64)
    ensures
        r == reported(tokens),
{
    match tokens {
        Some(tokens) => tokens as i64,
        None => 0,
    }
}

impl StatusOperation {
    pub fn new(provider_name: String, model_name: String) -> (r: Self)
        ensures
            r.provider_name == provider_name,
            r.model_name == model_name,
    {
        StatusOperation { model_name, provider_name }
    }

    pub fn name(&self) -> (r: &'static str)
        ensures
            r@ == "status"@,
    {
        "status"
    }

    /// Whether the command is `/status`, for which the context limit and the
    /// archive have to be looked up.
    pub fn answers_to(&self, command: &SlashCommand) -> (r: bool)
        ensures
            r == (command.command@ == "status"@),
    {
        same(command.command, "status")
    }

    /// Answers `/status`; any other command is not its own. `percent` is the
    /// share of the context limit that is used, `archive` what the archive
    /// holds, and `turn` the messages of the turn, of which the first is the
    /// command itself.
    pub fn run_command(
        &self,
        command: &SlashCommand,
        session: &Session,
        context_limit: usize,
        percent: usize,
        archive: &Option<String>,
        turn: &Vec<Message>,
    ) -> (r: Option<Result<Plan, String>>)
        ensures
            match r {
                None => command.command@ != "status"@,
                Some(answer) => command.command@ == "status"@ && answers(
                    answer,
                    command_reply_spec(
                        "status"@,
                        message_views(turn@),
                        status_text(
                            self.model_name@,
                            self.provider_name@,
                            *session,
                            context_limit,
                            percent,
                            option_view(*archive),
                        ),
                        None,
                    ),
                ),
            },
    {
        if !self.answers_to(command) {
            return None;
        }
        let fill: String = if context_limit > 0 {
            let mut fill: String = String::new();
            push_decimal(&mut fill, percent as u64);
            fill.append("%");
            assert(fill@ =~= decimal(percent as nat) + "%"@);
            fill
        } else {
            "N/A".to_owned()
        };
        let archived: String = match archive {
            Some(detail) => {
                let mut archived: String = "\n- Archived history: ".to_owned();
                archived.append(detail.as_str());
                archived
            },
            None => "".to_owned(),
        };
        let mut text: String = "**Session status**\n\n- Model: ".to_owned();
        text.append(self.model_name.as_str());
        text.append("\n- Provider: ");
        text.append(self.provider_name.as_str());
        text.append("\n- Mode: ");
        text.append(session.goose_mode.as_str());
        text.append("\n- Tokens (lifetime): ");
        push_signed(&mut text, reported_tokens(session.accumulated_usage.total_tokens));
        text.append("\n- Context: ");
        push_signed(&mut text, reported_tokens(session.usage.total_tokens));
        text.append(" / ");
        push_decimal(&mut text, context_limit as u64);
        text.append(" tokens (");
        text.append(fill.as_str());
        text.append(")");
        text.append(archived.as_str());
        let pending: String = pending_request(session);
        text.append(pending.as_str());
        Some(command_reply("status", turn, text.as_str(), None))
    }
}

proof fn lemma_status_parts(
    model: Seq<char>,
    provider: Seq<char>,
    mode: Seq<char>,
    lifetime: Seq<char>,
    used: Seq<char>,
    limit: Seq<char>,
    fill: Seq<char>,
    archived: Seq<char>,
    pending: Seq<char>,
)
    ensures
        ({
            let names = "**Session status**\n\n- Model: "@ + model + "\n- Provider: "@ + provider
                + "\n- Mode: "@ + mode;
            let whole = names + "\n- Tokens (lifetime): "@ + lifetime + "\n- Context: "@ + used
                + " / "@ + limit + " tokens ("@ + fill + ")"@ + archived + pending;
            &&& occurs(whole, names)
            &&& occurs(whole, "\n- Tokens (lifetime): "@ + lifetime)
            &&& occurs(whole, used + " / "@ + limit)
            &&& occurs(whole, " tokens ("@ + fill + ")"@)
            &&& occurs(whole, archived)
            &&& occurs(whole, pending)
        }),
{
    let names = "**Session status**\n\n- Model: "@ + model + "\n- Provider: "@ + provider
        + "\n- Mode: "@ + mode;
    let one = names + "\n- Tokens (lifetime): "@ + lifetime;
    let two = one + "\n- Context: "@;
    let three = two + used + " / "@ + limit;
    let four = three + " tokens ("@ + fill + ")"@;
    let five = four + archived;
    what_comes_last_occurs(Seq::empty(), names);
    assert(Seq::<char>::empty() + names =~= names);
    two_parts_are_one(names, "\n- Tokens (lifetime): "@, lifetime);
    what_comes_last_occurs(names, "\n- Tokens (lifetime): "@ + lifetime);
    what_occurs_stays(names, "\n- Tokens (lifetime): "@ + lifetime, names);
    lemma_on_to_the_end(one, "\n- Context: "@, used, " / "@, limit, fill, archived, pending, names);
    lemma_on_to_the_end(
        one,
        "\n- Context: "@,
        used,
        " / "@,
        limit,
        fill,
        archived,
        pending,
        "\n- Tokens (lifetime): "@ + lifetime,
    );
    three_parts_are_one(two, used, " / "@, limit);
    what_comes_last_occurs(two, used + " / "@ + limit);
    lemma_after_the_limit(three, fill, archived, pending, used + " / "@ + limit);
    three_parts_are_one(three, " tokens ("@, fill, ")"@);
    what_comes_last_occurs(three, " tokens ("@ + fill + ")"@);
    what_occurs_stays(four, archived, " tokens ("@ + fill + ")"@);
    what_occurs_stays(five, pending, " tokens ("@ + fill + ")"@);
    what_comes_last_occurs(four, archived);
    what_occurs_stays(five, pending, archived);
    what_comes_last_occurs(five, pending);
}

proof fn lemma_on_to_the_end(
    front: Seq<char>,
    a: Seq<char>,
    b: Seq<char>,
    c: Seq<char>,
    d: Seq<char>,
    fill: Seq<char>,
    archived: Seq<char>,
    pending: Seq<char>,
    needle: Seq<char>,
)
    requires
        occurs(front, needle),
    ensures
        occurs(
            front + a + b + c + d + " tokens ("@ + fill + ")"@ + archived + pending,
            needle,
        ),
{
    what_occurs_stays(front, a, needle);
    what_occurs_stays(front + a, b, needle);
    what_occurs_stays(front + a + b, c, needle);
    what_occurs_stays(front + a + b + c, d, needle);
    lemma_after_the_limit(front + a + b + c + d, fill, archived, pending, needle);
}

proof fn lemma_after_the_limit(
    front: Seq<char>,
    fill: Seq<char>,
    archived: Seq<char>,
    pending: Seq<char>,
    needle: Seq<char>,
)
    requires
        occurs(front, needle),
    ensures
        occurs(front + " tokens ("@ + fill + ")"@ + archived + pending, needle),
{
    what_occurs_stays(front, " tokens ("@, needle);
    what_occurs_stays(front + " tokens ("@, fill, needle);
    what_occurs_stays(front + " tokens ("@ + fill, ")"@, needle);
    what_occurs_stays(front + " tokens ("@ + fill + ")"@, archived, needle);
    what_occurs_stays(front + " tokens ("@ + fill + ")"@ + archived, pending, needle);
}

/// The status names the model, the provider and the mode, and tells the tokens:
/// those of the whole session, those of the last request and the limit. A share
/// is given exactly where there is a limit to take it of.
pub proof fn the_status_tells_the_numbers(
    model_name: Seq<char>,
    provider_name: Seq<char>,
    session: Session,
    context_limit: usize,
    percent: usize,
    archive: Option<Seq<char>>,
)
    ensures
        ({
            let text = status_text(
                model_name,
                provider_name,
                session,
                context_limit,
                percent,
                archive,
            );
            &&& occurs(
                text,
                "**Session status**\n\n- Model: "@ + model_name + "\n- Provider: "@
                    + provider_name + "\n- Mode: "@ + session.goose_mode@,
            )
            &&& session.accumulated_usage.total_tokens is Some ==> occurs(
                text,
                "\n- Tokens (lifetime): "@ + signed_decimal(
                    session.accumulated_usage.total_tokens->0 as int,
                ),
            )
            &&& session.accumulated_usage.total_tokens is None ==> occurs(
                text,
                "\n- Tokens (lifetime): "@ + signed_decimal(0),
            )
            &&& session.usage.total_tokens is Some ==> occurs(
                text,
                signed_decimal(session.usage.total_tokens->0 as int) + " / "@ + decimal(
                    context_limit as nat,
                ),
            )
            &&& session.usage.total_tokens is None ==> occurs(
                text,
                signed_decimal(0) + " / "@ + decimal(context_limit as nat),
            )
            &&& context_limit > 0 ==> occurs(
                text,
                " tokens ("@ + (decimal(percent as nat) + "%"@) + ")"@,
            )
            &&& context_limit == 0 ==> occurs(text, " tokens ("@ + "N/A"@ + ")"@)
            &&& archive is Some ==> occurs(text, "\n- Archived history: "@ + archive->0)
            &&& occurs(text, pending_text(session.extension_data@))
        }),
{
    lemma_status_parts(
        model_name,
        provider_name,
        session.goose_mode@,
        signed_decimal(reported(session.accumulated_usage.total_tokens)),
        signed_decimal(reported(session.usage.total_tokens)),
        decimal(context_limit as nat),
        fill_text(context_limit, percent),
        archive_text(archive),
        pending_text(session.extension_data@),
    );
}

/// A request that is pending is told with its reason in full and the length of
/// its note, before one that was denied; where there is neither, nothing is told.
pub proof fn the_status_tells_what_is_asked_for(data: Map<Key, JsonView>)
    ensures
        ({
            let state = requests_in(data);
            &&& state.pending_compaction is Some ==> occurs(
                pending_text(data),
                "\n- Compaction: requested ("@ + state.pending_compaction->0.reason + ")"@,
            )
            &&& state.pending_compaction is Some && state.pending_compaction->0.carry is Some
                ==> occurs(
                pending_text(data),
                ", carrying "@ + decimal(state.pending_compaction->0.carry->0.len())
                    + " character(s) of note"@,
            )
            &&& state.pending_compaction is None && state.denied_compaction is Some
                ==> pending_text(data)
                == "\n- Compaction: requested while not permitted; nothing was applied"@
            &&& (pending_text(data).len() == 0) == (state.pending_compaction is None
                && state.denied_compaction is None)
        }),
{
    reveal_strlit("");
    reveal_strlit("\n- Compaction: requested while not permitted; nothing was applied");
    let state = requests_in(data);
    if let Some(pending) = state.pending_compaction {
        let told = "\n- Compaction: requested ("@ + pending.reason + ")"@;
        let carrying = carrying_text(pending.carry);
        let rest = "; applied at the next turn boundary"@;
        lemma_told_first(told, carrying, rest);
        occurs_between(told, carrying, rest);
        reveal_strlit("\n- Compaction: requested (");
    }
}

proof fn lemma_told_first(told: Seq<char>, carrying: Seq<char>, rest: Seq<char>)
    ensures
        occurs(told + carrying + rest, told),
{
    what_comes_last_occurs(Seq::empty(), told);
    assert(Seq::<char>::empty() + told =~= told);
    what_occurs_stays(told, carrying, told);
    what_occurs_stays(told + carrying, rest, told);
}

} // verus!
