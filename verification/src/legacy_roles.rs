//! The older `roles` and `me` commands: which role and user a command means, what it asks to
//! be done, and what it answers.

use vstd::prelude::*;
use crate::error::{Error, ErrorView};
use crate::info::Me;
use crate::legacy_args::{MeArgs, RolesArgs};
use crate::roles::{
    find_role, has_role_id, has_role_named, parse_role_id, role_id_text, user_id_text, user_lookup,
    user_text_readable, user_text_splits_char, UserLookup,
};
use crate::text::{push_str, str_eq};

verus! {

/// A refusal of the older commands: "The action is forbidden: " and the reason, shown to the
/// user.
pub open spec fn denied(reason: Seq<char>) -> ErrorView {
    ErrorView { message: "The action is forbidden: "@ + reason, user_error: true }
}

fn denial(reason: &str) -> (e: Error)
    ensures
        e@ == denied(reason@),
{
    let mut s = String::new();
    push_str(&mut s, "The action is forbidden: ");
    push_str(&mut s, reason);
    Error::from_err(s, true)
}

/// The refusal when the role named in a `roles` command is not in the guild.
pub fn no_such_role() -> (e: Error)
    ensures
        e@ == denied("No such role."@),
{
    denial("No such role.")
}

/// The refusal when the user named in a `roles` command is not in the guild.
pub fn no_such_user() -> (e: Error)
    ensures
        e@ == denied("No such user."@),
{
    denial("No such user.")
}

/// How the user named in `text` is looked up, as [`user_lookup`] decides it.
pub open spec fn lookup_of(text: Seq<char>) -> UserLookup {
    match user_id_text(text) {
        Some(id) => UserLookup::ById(id),
        None => UserLookup::ByName,
    }
}

/// What a `roles` command asks to be done.
#[derive(Debug, Clone, PartialEq, Eq)]
pub enum RolesAction {
    /// Makes the role joinable, or no longer joinable.
    SetJoinable { role: u64, joinable: bool },
    /// Gives the role to the user, who is found as the lookup says.
    AddRole { role: u64, user: UserLookup },
    /// Takes the role from the user, who is found as the lookup says.
    RemoveRole { role: u64, user: UserLookup },
}

/// Which of the `roles` command's replies is owed once its action is done.
#[derive(Debug, Clone, Copy, PartialEq, Eq)]
pub enum RolesStep {
    RoleUpdated,
    AddedRole,
    RemovedRole,
}

/// The text of a `roles` reply.
pub open spec fn roles_reply_text(step: RolesStep) -> Seq<char> {
    match step {
        RolesStep::RoleUpdated => "Role updated."@,
        RolesStep::AddedRole => "Added role to user."@,
        RolesStep::RemovedRole => "Removed role from user."@,
    }
}

/// The reply of the `roles` command once its action is done.
pub fn roles_reply(step: RolesStep) -> (s: String)
    ensures
        s@ == roles_reply_text(step),
{
    match step {
        RolesStep::RoleUpdated => String::from_str("Role updated."),
        RolesStep::AddedRole => String::from_str("Added role to user."),
        RolesStep::RemovedRole => String::from_str("Removed role from user."),
    }
}

/// The role text of a `roles` command.
pub open spec fn roles_role_text(args: RolesArgs) -> Seq<char> {
    match args {
        RolesArgs::SetJoinable { role, .. } => role@,
        RolesArgs::AddUser { role, .. } => role@,
        RolesArgs::RemoveUser { role, .. } => role@,
    }
}

/// The user texts of a `roles` command can be read by serenity's user parse.
pub open spec fn roles_users_readable(args: RolesArgs) -> bool {
    match args {
        RolesArgs::SetJoinable { .. } => true,
        RolesArgs::AddUser { user, .. } => !user_text_splits_char(user@),
        RolesArgs::RemoveUser { user, .. } => !user_text_splits_char(user@),
    }
}

/// Whether the user text of a `roles` command can be read by serenity's user parse (see
/// [`user_text_splits_char`]).
pub fn roles_args_readable(args: &RolesArgs) -> (b: bool)
    ensures
        b == roles_users_readable(*args),
{
    match args {
        RolesArgs::SetJoinable { .. } => true,
        RolesArgs::AddUser { user, .. } => user_text_readable(user.as_str()),
        RolesArgs::RemoveUser { user, .. } => user_text_readable(user.as_str()),
    }
}

/// Action `a` does what `args` asks, on role `role`.
pub open spec fn action_fits(args: RolesArgs, a: RolesAction, role: u64) -> bool {
    match args {
        RolesArgs::SetJoinable { joinable, .. } => a == RolesAction::SetJoinable { role, joinable },
        RolesArgs::AddUser { user, .. } => a == RolesAction::AddRole { role, user: lookup_of(user@) },
        RolesArgs::RemoveUser { user, .. } => a == RolesAction::RemoveRole { role, user: lookup_of(user@) },
    }
}

impl RolesAction {
    /// The role the action is about.
    pub open spec fn spec_role(&self) -> u64 {
        match *self {
            RolesAction::SetJoinable { role, .. } => role,
            RolesAction::AddRole { role, .. } => role,
            RolesAction::RemoveRole { role, .. } => role,
        }
    }

    /// The reply owed once the action is done.
    pub fn step(&self) -> (s: RolesStep)
        ensures
            s == match *self {
                RolesAction::SetJoinable { .. } => RolesStep::RoleUpdated,
                RolesAction::AddRole { .. } => RolesStep::AddedRole,
                RolesAction::RemoveRole { .. } => RolesStep::RemovedRole,
            },
    {
        match self {
            RolesAction::SetJoinable { .. } => RolesStep::RoleUpdated,
            RolesAction::AddRole { .. } => RolesStep::AddedRole,
            RolesAction::RemoveRole { .. } => RolesStep::RemovedRole,
        }
    }
}

fn role_text_of(args: &RolesArgs) -> (t: &str)
    ensures
        t@ == roles_role_text(*args),
{
    match args {
        RolesArgs::SetJoinable { role, .. } => role.as_str(),
        RolesArgs::AddUser { role, .. } => role.as_str(),
        RolesArgs::RemoveUser { role, .. } => role.as_str(),
    }
}

/// The `roles` command of the older command set.
pub struct Roles;

impl Roles {
    /// What a `roles` command asks to be done in a guild with roles `roles` (`(id, name)` pairs):
    /// its role is the one the text names or mentions, else it is refused with "No such role.";
    /// a user is looked up by id when the text reads as one, else by name.
    pub fn action(args: &RolesArgs, roles: &Vec<(u64, String)>) -> (r: Result<RolesAction, Error>)
        requires
            roles_users_readable(*args),
        ensures
            match role_id_text(roles_role_text(*args)) {
                Some(id) => if has_role_id(roles@, id) {
                    r matches Ok(a) && action_fits(*args, a, id)
                } else {
                    r matches Err(e) && e@ == denied("No such role."@)
                },
                None => if has_role_named(roles@, roles_role_text(*args)) {
                    r matches Ok(a) && action_fits(*args, a, a.spec_role()) && exists|i: int|
                        0 <= i < roles@.len() && roles@[i].0 == a.spec_role() && roles@[i].1@ == roles_role_text(
                            *args,
                        )
                } else {
                    r matches Err(e) && e@ == denied("No such role."@)
                },
            },
    {
        let role = match find_role(Some(roles), role_text_of(args)) {
            Ok(id) => id,
            Err(_) => return Err(no_such_role()),
        };
        match args {
            RolesArgs::SetJoinable { joinable, .. } => Ok(RolesAction::SetJoinable { role, joinable: *joinable }),
            RolesArgs::AddUser { user, .. } => Ok(RolesAction::AddRole { role, user: user_lookup(user.as_str()) }),
            RolesArgs::RemoveUser { user, .. } => Ok(
                RolesAction::RemoveRole { role, user: user_lookup(user.as_str()) },
            ),
        }
    }
}

/// The refusal of the `me` command when no role of the guild is named or mentioned by `text`.
pub open spec fn no_role_identified(text: Seq<char>) -> ErrorView {
    ErrorView { message: "No such role could be identified in this guild: "@ + text, user_error: true }
}

impl Me {
    /// The role a `me` command names or mentions in `text`, among the guild's roles (`(id, name)`
    /// pairs): its id and name. A text that reads as an id must be the id of a role; any other
    /// text must be a role's name.
    pub fn role(text: &str, roles: &Vec<(u64, String)>) -> (r: Result<(u64, String), Error>)
        ensures
            match role_id_text(text@) {
                Some(id) => if has_role_id(roles@, id) {
                    r matches Ok((i, name)) && i == id && exists|k: int|
                        0 <= k < roles@.len() && roles@[k].0 == id && roles@[k].1@ == name@
                } else {
                    r matches Err(e) && e@ == no_role_identified(text@)
                },
                None => if has_role_named(roles@, text@) {
                    r matches Ok((i, name)) && name@ == text@ && exists|k: int|
                        0 <= k < roles@.len() && roles@[k].0 == i && roles@[k].1@ == text@
                } else {
                    r matches Err(e) && e@ == no_role_identified(text@)
                },
            },
    {
        let parsed = parse_role_id(text);
        let mut k: usize = 0;
        while k < roles.len()
            invariant
                k <= roles.len(),
                parsed == role_id_text(text@),
                forall|j: int| 0 <= j < k ==> match parsed {
                    Some(id) => roles@[j].0 != id,
                    None => roles@[j].1@ != text@,
                },
            decreases roles.len() - k,
        {
            let hit = match parsed {
                Some(id) => roles[k].0 == id,
                None => str_eq(roles[k].1.as_str(), text),
            };
            if hit {
                let name = roles[k].1.clone();
                assert(roles@[k as int].1@ == name@);
                return Ok((roles[k].0, name));
            }
            k = k + 1;
        }
        let mut s = String::new();
        push_str(&mut s, "No such role could be identified in this guild: ");
        push_str(&mut s, text);
        Err(Error::from_err(s, true))
    }
}

} // verus!
