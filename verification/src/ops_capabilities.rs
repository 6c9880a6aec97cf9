//! `/permit <capability>` and `/deny <capability>`: the only way the model's
//! capabilities are turned on and off. A grant is session-scoped and is written
//! to the session's own extension data, a key no tool can write.

use vstd::prelude::*;
use vstd::string::*;

use crate::capabilities::{
    capabilities, capability_called, capability_names, capability_view, find_capability,
    grants_are_finite, grants_in, list_capabilities, listing, permissions_key, permissions_record,
    with_grants, there_is_one_capability, written_grants_are_read_back, CapabilityDef,
    SessionPermissions, SESSION_MODIFICATION,
};
use crate::conversation::{message_views, Message, MessageView};
use crate::extension_data::{ExtensionData, Key};
use crate::json::JsonView;
use crate::session::Session;
use crate::session_requests::{decision, granting_leaves_requests_alone, requests_in};
use crate::state_machine::{answers, command_reply, command_reply_spec, Plan, SlashCommand};
use crate::text::{
    a_join_holds_every_part, join, joined, occurs, occurs_between, occurs_in_a_part,
    only_white_space_trims_to_nothing, same, trim, trimmed, two_parts_are_one, views,
    what_comes_last_occurs, what_occurs_stays, whitespace,
};

verus! {

pub struct CapabilityOperation;

/// Whether a capability is permitted, in words.
pub open spec fn standing(granted: bool) -> Seq<char> {
    if granted {
        "permitted"@
    } else {
        "denied"@
    }
}

/// A line of the report: a capability, what it is for, and how it stands.
pub open spec fn report_line(def: (Seq<char>, Seq<char>), granted: bool) -> Seq<char> {
    "- `"@ + def.0 + "` — "@ + def.1 + " ["@ + standing(granted) + "]"@
}

/// The report on every capability.
pub open spec fn report_text(verb: Seq<char>, grants: Set<Seq<char>>) -> Seq<char> {
    joined(
        seq!["**Capabilities** (use `/"@ + verb + " <name>`)"@] + capabilities().map_values(
            |def: (Seq<char>, Seq<char>)| report_line(def, grants.contains(def.0)),
        ),
        "\n"@,
    )
}

/// What is said of a name that no capability has.
pub open spec fn unknown_text(name: Seq<char>) -> Seq<char> {
    "`"@ + name + "` is not a capability. Available: "@ + joined(
        capabilities().map_values(|def: (Seq<char>, Seq<char>)| "`"@ + def.0 + "`"@),
        ", "@,
    ) + "."@
}

/// What is said of a capability that was permitted or denied.
pub open spec fn changed_text(name: Seq<char>, grant: bool, changed: bool) -> Seq<char> {
    "`"@ + name + "` is "@ + standing(grant) + " for this session"@ + (if changed {
        ""@
    } else {
        " (already in effect)"@
    }) + "."@
}

/// What a session's grants become.
pub open spec fn changed_grants(
    grants: Set<Seq<char>>,
    name: Seq<char>,
    grant: bool,
) -> Set<Seq<char>> {
    if grant {
        grants.insert(name)
    } else {
        grants.remove(name)
    }
}

/// What `/permit` and `/deny` say.
pub open spec fn answer_text(grant: bool, params: Seq<char>, data: Map<Key, JsonView>) -> Seq<char> {
    let name = trimmed(params);
    let grants = grants_in(data);
    if name.len() == 0 {
        report_text(
            if grant {
                "permit"@
            } else {
                "deny"@
            },
            grants,
        )
    } else if !capability_called(name) {
        unknown_text(name)
    } else {
        changed_text(name, grant, grants.contains(name) != grant)
    }
}

/// What `/permit` and `/deny` leave in the session's records, where they change
/// them.
pub open spec fn answer_data(grant: bool, params: Seq<char>, data: Map<Key, JsonView>) -> Option<
    Map<Key, JsonView>,
> {
    let name = trimmed(params);
    if name.len() == 0 || !capability_called(name) {
        None
    } else {
        Some(with_grants(data, changed_grants(grants_in(data), name, grant)))
    }
}

impl CapabilityOperation {
    pub fn name(&self) -> (r: &'static str)
        ensures
            r@ == "capabilities"@,
    {
        "capabilities"
    }

    /// Whether the command is `/permit` or `/deny`.
    pub fn answers_to(&self, command: &SlashCommand) -> (r: bool)
        ensures
            r == (command.command@ == "permit"@ || command.command@ == "deny"@),
    {
        same(command.command, "permit") || same(command.command, "deny")
    }

    pub fn report(&self, session: &Session, verb: &str) -> (r: String)
        ensures
            r@ == report_text(verb@, grants_in(session.extension_data@)),
    {
        let permissions: SessionPermissions = SessionPermissions::read(&session.extension_data);
        let ghost grants = grants_in(session.extension_data@);
        let mut heading: String = "**Capabilities** (use `/".to_owned();
        heading.append(verb);
        heading.append(" <name>`)");
        let all: Vec<CapabilityDef> = list_capabilities();
        let ghost shown = all@.map_values(|def: CapabilityDef| capability_view(def));
        let mut lines: Vec<String> = Vec::new();
        lines.push(heading);
        let mut i: usize = 0;
        while i < all.len()
            invariant
                i <= all@.len(),
                lines@.len() == i + 1,
                permissions@ == grants,
                shown == capabilities(),
                shown == all@.map_values(|def: CapabilityDef| capability_view(def)),
                lines@[0]@ == "**Capabilities** (use `/"@ + verb@ + " <name>`)"@,
                forall|j: int|
                    0 <= j < i ==> (#[trigger] lines@[j + 1])@ == report_line(
                        capabilities()[j],
                        grants.contains(capabilities()[j].0),
                    ),
            decreases all@.len() - i,
        {
            assert(shown[i as int] == capability_view(all@[i as int]));
            let def: CapabilityDef = all[i];
            let mut line: String = "- `".to_owned();
            line.append(def.name);
            line.append("` — ");
            line.append(def.description);
            line.append(" [");
            if permissions.is_granted(def.name) {
                line.append("permitted");
            } else {
                line.append("denied");
            }
            line.append("]");
            lines.push(line);
            i += 1;
        }
        proof {
            let expected = seq!["**Capabilities** (use `/"@ + verb@ + " <name>`)"@]
                + capabilities().map_values(
                |def: (Seq<char>, Seq<char>)| report_line(def, grants.contains(def.0)),
            );
            assert(views(lines@) =~= expected) by {
                assert forall|j: int| 0 <= j < expected.len() implies #[trigger] views(lines@)[j]
                    == expected[j] by {
                    if j > 0 {
                        assert(lines@[(j - 1) + 1]@ == report_line(
                            capabilities()[j - 1],
                            grants.contains(capabilities()[j - 1].0),
                        ));
                    }
                }
            }
        }
        join(&lines, "\n")
    }

    /// Answers `/permit` and `/deny`; any other command is not its own. `turn` is
    /// the messages of the turn, of which the first is the command itself.
    pub fn run_command(
        &self,
        command: &SlashCommand,
        session: &Session,
        turn: &Vec<Message>,
    ) -> (r: Option<Result<Plan, String>>)
        ensures
            match r {
                None => command.command@ != "permit"@ && command.command@ != "deny"@,
                Some(answer) => {
                    let grant = command.command@ == "permit"@;
                    let data = session.extension_data@;
                    &&& grant || command.command@ == "deny"@
                    &&& answers(
                        answer,
                        command_reply_spec(
                            "capability"@,
                            message_views(turn@),
                            answer_text(grant, command.params_str@, data),
                            answer_data(grant, command.params_str@, data),
                        ),
                    )
                },
            },
    {
        let grant: bool = if same(command.command, "permit") {
            true
        } else if same(command.command, "deny") {
            false
        } else {
            return None;
        };

        let name: &str = trim(command.params_str);
        if name.unicode_len() == 0 {
            let verb: &str = if grant {
                "permit"
            } else {
                "deny"
            };
            let text: String = self.report(session, verb);
            return Some(command_reply("capability", turn, text.as_str(), None));
        }
        if find_capability(name).is_none() {
            let text: String = CapabilityOperation::unknown(name);
            return Some(command_reply("capability", turn, text.as_str(), None));
        }
        let mut extension_data: ExtensionData = session.extension_data.clone();
        let mut permissions: SessionPermissions = SessionPermissions::read(&extension_data);
        let changed: bool = if grant {
            permissions.grant(name)
        } else {
            permissions.revoke(name)
        };
        let _ = permissions.write_into(&mut extension_data);

        let mut text: String = "`".to_owned();
        text.append(name);
        text.append("` is ");
        if grant {
            text.append("permitted");
        } else {
            text.append("denied");
        }
        text.append(" for this session");
        if changed {
            text.append("");
        } else {
            text.append(" (already in effect)");
        }
        text.append(".");
        Some(command_reply("capability", turn, text.as_str(), Some(extension_data)))
    }

    fn unknown(name: &str) -> (r: String)
        ensures
            r@ == unknown_text(name@),
    {
        let names: Vec<&'static str> = capability_names();
        let ghost shown = names@.map_values(|name: &'static str| name@);
        let ghost listed = capabilities().map_values(
            |def: (Seq<char>, Seq<char>)| "`"@ + def.0 + "`"@,
        );
        assert(names@.len() == capabilities().len()) by {
            assert(shown.len() == names@.len());
        }
        let mut quoted: Vec<String> = Vec::new();
        let mut i: usize = 0;
        while i < names.len()
            invariant
                i <= names@.len(),
                quoted@.len() == i,
                shown == names@.map_values(|name: &'static str| name@),
                shown == capabilities().map_values(|def: (Seq<char>, Seq<char>)| def.0),
                listed == capabilities().map_values(
                    |def: (Seq<char>, Seq<char>)| "`"@ + def.0 + "`"@,
                ),
                names@.len() == capabilities().len(),
                forall|j: int| 0 <= j < i ==> (#[trigger] quoted@[j])@ == listed[j],
            decreases names@.len() - i,
        {
            assert(shown[i as int] == names@[i as int]@);
            assert(shown[i as int] == capabilities()[i as int].0);
            let mut one: String = "`".to_owned();
            one.append(names[i]);
            one.append("`");
            quoted.push(one);
            i += 1;
        }
        assert(views(quoted@) =~= listed);
        let mut text: String = "`".to_owned();
        text.append(name);
        text.append("` is not a capability. Available: ");
        let available: String = join(&quoted, ", ");
        text.append(available.as_str());
        text.append(".");
        text
    }
}

/// `/permit` grants the capability it names and no other, and `/deny` takes it
/// back. Nothing else in the session's records changes.
pub proof fn a_command_changes_one_grant(
    grant: bool,
    params: Seq<char>,
    data: Map<Key, JsonView>,
)
    requires
        answer_data(grant, params, data) is Some,
    ensures
        ({
            let after = answer_data(grant, params, data)->0;
            &&& grants_in(after) == changed_grants(grants_in(data), trimmed(params), grant)
            &&& grants_in(after).contains(trimmed(params)) == grant
            &&& forall|name: Seq<char>|
                name != trimmed(params) ==> grants_in(after).contains(name) == grants_in(
                    data,
                ).contains(name)
            &&& requests_in(after) == requests_in(data)
            &&& forall|key: Key|
                key != permissions_key() ==> #[trigger] after.contains_key(key)
                    == data.contains_key(key) && (data.contains_key(key) ==> after[key]
                    == data[key])
        }),
{
    let grants = changed_grants(grants_in(data), trimmed(params), grant);
    grants_are_finite(data);
    written_grants_are_read_back(data, grants);
    granting_leaves_requests_alone(data, permissions_record(listing(grants)));
}

/// A name that no capability has changes nothing, and neither does asking for
/// the report.
pub proof fn only_capabilities_can_be_granted(
    grant: bool,
    params: Seq<char>,
    data: Map<Key, JsonView>,
)
    ensures
        answer_data(grant, params, data) is Some == (trimmed(params).len() > 0
            && capability_called(trimmed(params))),
{
}

/// Once the user permits session modification, no request of the model is denied;
/// once it is denied, every one is.
pub proof fn the_user_decides_what_the_model_may_compact(
    grant: bool,
    params: Seq<char>,
    data: Map<Key, JsonView>,
    messages: Seq<MessageView>,
    counted: Option<i32>,
)
    requires
        trimmed(params) == SESSION_MODIFICATION@,
    ensures
        answer_data(grant, params, data) is Some,
        (decision(answer_data(grant, params, data)->0, messages, counted) is Denied) == !grant,
{
    reveal_strlit("session-modification");
    assert(capabilities()[0].0 == SESSION_MODIFICATION@);
    a_command_changes_one_grant(grant, params, data);
}

/// The report has a line on every capability: its name, what it is for, and
/// whether it is permitted in this session.
pub proof fn the_report_tells_how_each_capability_stands(
    verb: Seq<char>,
    grants: Set<Seq<char>>,
    i: int,
)
    requires
        0 <= i < capabilities().len(),
    ensures
        grants.contains(capabilities()[i].0) ==> occurs(
            report_text(verb, grants),
            "- `"@ + capabilities()[i].0 + "` — "@ + capabilities()[i].1 + " ["@ + "permitted"@
                + "]"@,
        ),
        !grants.contains(capabilities()[i].0) ==> occurs(
            report_text(verb, grants),
            "- `"@ + capabilities()[i].0 + "` — "@ + capabilities()[i].1 + " ["@ + "denied"@
                + "]"@,
        ),
        occurs(report_text(verb, grants), "**Capabilities** (use `/"@ + verb + " <name>`)"@),
{
    let lines = seq!["**Capabilities** (use `/"@ + verb + " <name>`)"@] + capabilities().map_values(
        |def: (Seq<char>, Seq<char>)| report_line(def, grants.contains(def.0)),
    );
    assert(lines[i + 1] == report_line(capabilities()[i], grants.contains(capabilities()[i].0)));
    a_join_holds_every_part(lines, "\n"@, i + 1);
    assert(lines[0] == "**Capabilities** (use `/"@ + verb + " <name>`)"@);
    a_join_holds_every_part(lines, "\n"@, 0);
}

/// Where a name is none of a capability, the answer gives the name back and says
/// which there are.
pub proof fn an_unknown_name_is_answered_with_the_known(name: Seq<char>, i: int)
    requires
        0 <= i < capabilities().len(),
    ensures
        occurs(unknown_text(name), name + "` is not a capability. Available: "@),
        occurs(unknown_text(name), "`"@ + capabilities()[i].0 + "`"@),
{
    let listed = capabilities().map_values(|def: (Seq<char>, Seq<char>)| "`"@ + def.0 + "`"@);
    let says = "` is not a capability. Available: "@;
    let known = joined(listed, ", "@);
    two_parts_are_one("`"@, name, says);
    what_comes_last_occurs("`"@, name + says);
    what_occurs_stays("`"@ + name + says, known, name + says);
    what_occurs_stays("`"@ + name + says + known, "."@, name + says);
    assert(listed[i] == "`"@ + capabilities()[i].0 + "`"@);
    a_join_holds_every_part(listed, ", "@, i);
    occurs_in_a_part("`"@ + name + says, known, "."@, listed[i]);
}

/// What a command leaves a capability with is what it says, and whether that was
/// so before. Given again, it says that it is in effect already.
pub proof fn a_command_says_what_it_did(
    grant: bool,
    params: Seq<char>,
    data: Map<Key, JsonView>,
)
    requires
        answer_data(grant, params, data) is Some,
    ensures
        grants_in(data).contains(trimmed(params)) != grant ==> answer_text(grant, params, data)
            == "`"@ + trimmed(params) + "` is "@ + (if grant {
            "permitted"@
        } else {
            "denied"@
        }) + " for this session"@ + ""@ + "."@,
        grants_in(data).contains(trimmed(params)) == grant ==> answer_text(grant, params, data)
            == "`"@ + trimmed(params) + "` is "@ + (if grant {
            "permitted"@
        } else {
            "denied"@
        }) + " for this session"@ + " (already in effect)"@ + "."@,
        occurs(
            answer_text(grant, params, answer_data(grant, params, data)->0),
            " (already in effect)"@,
        ),
        answer_data(grant, params, answer_data(grant, params, data)->0) == answer_data(
            grant,
            params,
            data,
        ),
{
    a_command_changes_one_grant(grant, params, data);
    let after = answer_data(grant, params, data)->0;
    let name = trimmed(params);
    let front = "`"@ + name + "` is "@ + standing(grant) + " for this session"@;
    occurs_between(front, " (already in effect)"@, "."@);
    let grants = changed_grants(grants_in(data), name, grant);
    assert(changed_grants(grants, name, grant) =~= grants);
    let again = data.insert(permissions_key(), permissions_record(listing(grants)));
    assert(again.insert(permissions_key(), permissions_record(listing(grants))) =~= again);
}

/// Without a name the report is given, and with one that no capability has, that
/// it is none.
pub proof fn a_command_without_a_capability_only_tells(
    grant: bool,
    params: Seq<char>,
    data: Map<Key, JsonView>,
)
    ensures
        (forall|i: int| 0 <= i < params.len() ==> whitespace(#[trigger] params[i])) ==> answer_text(
            grant,
            params,
            data,
        ) == report_text(
            if grant {
                "permit"@
            } else {
                "deny"@
            },
            grants_in(data),
        ) && answer_data(grant, params, data) is None,
        trimmed(params).len() > 0 && trimmed(params) != "session-modification"@ ==> answer_text(
            grant,
            params,
            data,
        ) == unknown_text(trimmed(params)) && answer_data(grant, params, data) is None,
{
    there_is_one_capability(trimmed(params));
    if forall|i: int| 0 <= i < params.len() ==> whitespace(#[trigger] params[i]) {
        only_white_space_trims_to_nothing(params);
    }
}

} // verus!
