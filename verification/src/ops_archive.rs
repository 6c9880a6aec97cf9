//! Shows the history that compaction or `/clear` took away from the agent.

use vstd::prelude::*;

use crate::conversation::{message_views, Message};
use crate::state_machine::{answers, command_reply, command_reply_spec, Plan, SlashCommand};
use crate::text::same;

verus! {

pub struct ArchiveOperation {}

impl ArchiveOperation {
    pub fn new() -> (r: Self)
        ensures
            r == (ArchiveOperation {  }),
    {
        ArchiveOperation {  }
    }

    pub fn name(&self) -> (r: &'static str)
        ensures
            r@ == "archive"@,
    {
        "archive"
    }

    /// Whether the command is `/archive`, for which a report has to be made.
    pub fn answers_to(&self, command: &SlashCommand) -> (r: bool)
        ensures
            r == (command.command@ == "archive"@),
    {
        same(command.command, "archive")
    }

    /// Answers `/archive` with `report`; any other command is not its own. `turn`
    /// is the messages of the turn, of which the first is the command itself.
    pub fn run_command(&self, command: &SlashCommand, report: &str, turn: &Vec<Message>) -> (r:
        Option<Result<Plan, String>>)
        ensures
            match r {
                None => command.command@ != "archive"@,
                Some(answer) => command.command@ == "archive"@ && answers(
                    answer,
                    command_reply_spec("archive"@, message_views(turn@), report@, None),
                ),
            },
    {
        if !self.answers_to(command) {
            return None;
        }
        Some(command_reply("archive", turn, report, None))
    }
}

} // verus!
