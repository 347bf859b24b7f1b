//! Self-assignable roles: the `role` and `mod-role` commands' arguments and the decisions
//! they take.

use vstd::prelude::*;
use crate::dispatch::failure_view;
use crate::config::{uint_failure, uint_value};
use crate::error::{DatabaseError, Error, ErrorView, Failure, SqlError, code_starts_with};
use crate::filters::utf8_len;
use crate::text::{decimal, join_strings, joined, push_decimal, push_str, str_eq};

verus! {

/// The arguments of the `role` command.
pub enum RoleOpt {
    /// Joins a joinable role.
    Join { role: String },
    /// Leaves a joinable role.
    Leave { role: String },
    /// Lists all joinable roles.
    ListJoinable,
}

impl RoleOpt {
    /// The role to join or leave, if any.
    pub fn role(&self) -> (r: Option<&str>)
        ensures
            match self {
                RoleOpt::Join { role } => r matches Some(x) && x@ == role@,
                RoleOpt::Leave { role } => r matches Some(x) && x@ == role@,
                RoleOpt::ListJoinable => r is None,
            },
    {
        match self {
            RoleOpt::Join { role } => Some(role.as_str()),
            RoleOpt::Leave { role } => Some(role.as_str()),
            RoleOpt::ListJoinable => None,
        }
    }

    /// Whether the command joins a role (rather than leaving one or listing them).
    pub fn is_join(&self) -> (b: bool)
        ensures
            b == (self is Join),
    {
        matches!(self, RoleOpt::Join { .. })
    }
}

/// The arguments of the `mod-role` command.
pub enum ModRoleOpt {
    /// Makes a role joinable.
    AddJoinable { role: String },
    /// Removes a role from the joinable list.
    DelJoinable { role: String },
    /// Assigns a role to a user.
    Assign { role: String, user: String },
    /// Takes a role from a user.
    Unassign { role: String, user: String },
}

impl ModRoleOpt {
    /// The role the command acts on.
    pub fn extract_role(&self) -> (r: &str)
        ensures
            r@ == match self {
                ModRoleOpt::AddJoinable { role } => role@,
                ModRoleOpt::DelJoinable { role } => role@,
                ModRoleOpt::Assign { role, .. } => role@,
                ModRoleOpt::Unassign { role, .. } => role@,
            },
    {
        match self {
            ModRoleOpt::AddJoinable { role } => role.as_str(),
            ModRoleOpt::DelJoinable { role } => role.as_str(),
            ModRoleOpt::Assign { role, .. } => role.as_str(),
            ModRoleOpt::Unassign { role, .. } => role.as_str(),
        }
    }

    /// The user the command acts on, for assigning and unassigning.
    pub fn extract_user(&self) -> (r: Option<&str>)
        ensures
            match self {
                ModRoleOpt::Assign { user, .. } => r matches Some(x) && x@ == user@,
                ModRoleOpt::Unassign { user, .. } => r matches Some(x) && x@ == user@,
                _ => r is None,
            },
    {
        match self {
            ModRoleOpt::AddJoinable { .. } | ModRoleOpt::DelJoinable { .. } => None,
            ModRoleOpt::Assign { user, .. } => Some(user.as_str()),
            ModRoleOpt::Unassign { user, .. } => Some(user.as_str()),
        }
    }

    /// Whether the command assigns a role.
    pub fn is_assign(&self) -> (b: bool)
        ensures
            b == (self is Assign),
    {
        matches!(self, ModRoleOpt::Assign { .. })
    }
}

/// A member may join or leave a role only if it is on the guild's joinable list.
pub fn require_joinable(is_joinable: bool) -> (r: Result<(), Error>)
    ensures
        is_joinable ==> r is Ok,
        !is_joinable ==> (r matches Err(e) && e@ == failure_view(Failure::RoleNotSelfAssignable)),
{
    if is_joinable {
        Ok(())
    } else {
        Err(Failure::RoleNotSelfAssignable.into_error())
    }
}

/// Whether a role is joinable, from the number of matching rows (`None` counts as none).
pub fn joinable_from_count(count: Option<i64>) -> (b: bool)
    ensures
        b == match count {
            Some(c) => c > 0,
            None => false,
        },
{
    match count {
        Some(c) => c > 0,
        None => false,
    }
}

/// Role ids from the database's signed column, read back as unsigned.
pub fn role_ids_from_rows(rows: &Vec<i64>) -> (ids: Vec<u64>)
    ensures
        ids@.len() == rows@.len(),
        forall|i: int| 0 <= i < rows@.len() ==> ids@[i] == rows@[i] as u64,
{
    let mut ids: Vec<u64> = Vec::new();
    let mut i: usize = 0;
    while i < rows.len()
        invariant
            i <= rows.len(),
            ids@.len() == i,
            forall|k: int| 0 <= k < i ==> ids@[k] == rows@[k] as u64,
        decreases rows.len() - i,
    {
        ids.push(rows[i] as u64);
        i = i + 1;
    }
    ids
}

/// The text listing the joinable roles.
pub open spec fn joinable_list_text(names: Seq<Seq<char>>) -> Seq<char> {
    if names.len() == 0 {
        "No joinable roles."@
    } else {
        joined(names, ", "@)
    }
}

/// The text listing the joinable roles: their names joined by commas, or a notice when
/// there are none.
pub fn joinable_list_message(names: &Vec<String>) -> (s: String)
    ensures
        s@ == joinable_list_text(names@.map_values(|n: String| n@)),
{
    if names.len() == 0 {
        proof { reveal_strlit("No joinable roles."); }
        String::from_str("No joinable roles.")
    } else {
        join_strings(names, ", ")
    }
}

/// What making a role joinable ends in, given the database's answer: a `CHECK` violation
/// means the guild has too many joinable roles, a `UNIQUE` violation that the role already is
/// joinable; other database errors pass through.
pub fn add_joinable_outcome(res: Result<(), SqlError>) -> (r: Result<(), Error>)
    ensures
        res is Ok ==> r is Ok,
        res matches Err(e) ==> (r matches Err(x) && x@ == if code_starts_with(
            e.code,
            "23514"@,
        ) {
            failure_view(Failure::TooManyRoles)
        } else if code_starts_with(e.code, "23505"@) {
            failure_view(Failure::AlreadyJoinable)
        } else {
            ErrorView { message: e.message@, user_error: false }
        }),
{
    match res {
        Ok(()) => Ok(()),
        Err(e) => {
            if e.is_check() {
                Err(Failure::TooManyRoles.into_error())
            } else if e.is_unique() {
                Err(Failure::AlreadyJoinable.into_error())
            } else {
                Err(e.into_error())
            }
        },
    }
}

/// Some role `(id, name)` of `rs` has the id `id`.
pub open spec fn has_role_id(rs: Seq<(u64, String)>, id: u64) -> bool {
    exists|i: int| 0 <= i < rs.len() && #[trigger] rs[i].0 == id
}

/// Some role `(id, name)` of `rs` has the name `name`.
pub open spec fn has_role_named(rs: Seq<(u64, String)>, name: Seq<char>) -> bool {
    exists|i: int| 0 <= i < rs.len() && #[trigger] rs[i].1@ == name
}

/// The role named or mentioned by a user, among the guild's roles `(id, name)`. `parsed` is
/// what reading the text as a role mention or id gave. `None` for `roles` means the guild is
/// not cached. When several roles share the name, one of them is found.
pub fn resolve_role(
    roles: Option<&Vec<(u64, String)>>,
    parsed: Option<u64>,
    text: &str,
) -> (r: Result<u64, Error>)
    ensures
        roles is None ==> (r matches Err(e) && e@ == failure_view(Failure::GuildNotInCache)),
        roles matches Some(rs) ==> match parsed {
            Some(id) => if has_role_id(rs@, id) {
                r == Ok::<u64, Error>(id)
            } else {
                r matches Err(e) && e@ == failure_view(Failure::NoSuchRole)
            },
            None => if has_role_named(rs@, text@) {
                r matches Ok(id) && exists|i: int|
                    0 <= i < rs@.len() && rs@[i].0 == id && rs@[i].1@ == text@
            } else {
                r matches Err(e) && e@ == failure_view(Failure::NoSuchRole)
            },
        },
{
    let rs = match roles {
        None => return Err(Failure::GuildNotInCache.into_error()),
        Some(rs) => rs,
    };
    let mut i: usize = 0;
    while i < rs.len()
        invariant
            i <= rs.len(),
            roles == Some(rs),
            forall|k: int| 0 <= k < i ==> match parsed {
                Some(id) => rs@[k].0 != id,
                None => rs@[k].1@ != text@,
            },
        decreases rs.len() - i,
    {
        let found = match parsed {
            Some(id) => rs[i].0 == id,
            None => str_eq(rs[i].1.as_str(), text),
        };
        if found {
            proof {
                let w = rs@[i as int];
                match parsed {
                    Some(id) => assert(has_role_id(rs@, id)),
                    None => {
                        assert(rs@[i as int].1@ == text@);
                        assert(has_role_named(rs@, text@));
                    },
                }
            }
            return Ok(rs[i].0);
        }
        i = i + 1;
    }
    Err(Failure::NoSuchRole.into_error())
}

/// `text` read as a `u64` the way `str::parse` reads one: an optional `+`, then decimal digits,
/// no larger than `u64::MAX`.
pub open spec fn u64_text(text: Seq<char>) -> Option<u64> {
    if uint_failure(text, u64::MAX as nat) is None {
        Some(uint_value(text) as u64)
    } else {
        None
    }
}

/// The id that a mention wrapping `inner` between `prefix` and a closing `>` holds: `None`
/// when `text` is no such mention or what it wraps is no `u64`.
pub open spec fn wrapped_id(text: Seq<char>, prefix: Seq<char>) -> Option<u64> {
    if text.len() >= prefix.len() + 1 && text.take(prefix.len() as int) == prefix && text.last() == '>' {
        u64_text(text.subrange(prefix.len() as int, text.len() - 1))
    } else {
        None
    }
}

/// What serenity reads as a role id in `text`: the id of a role mention `<@&id>`, or else the
/// text read as a number.
pub open spec fn role_id_text(text: Seq<char>) -> Option<u64> {
    match wrapped_id(text, "<@&"@) {
        Some(id) => Some(id),
        None => u64_text(text),
    }
}

/// What serenity reads as a channel id in `text`: the id of a channel mention `<#id>`, or
/// else the text read as a number.
pub open spec fn channel_id_text(text: Seq<char>) -> Option<u64> {
    match wrapped_id(text, "<#"@) {
        Some(id) => Some(id),
        None => u64_text(text),
    }
}

/// What serenity reads as a user id in `text`: for a text of at least four UTF-8 bytes that
/// starts with `<@!` or `<@`, what lies between that start and the last character read as a
/// number (the last character is not checked); failing that, the text read as a number.
pub open spec fn user_id_text(text: Seq<char>) -> Option<u64> {
    let inner = if utf8_len(text) < 4 {
        None
    } else if text.len() >= 3 && text.take(3) == "<@!"@ {
        u64_text(text.subrange(3, text.len() - 1))
    } else if text.len() >= 2 && text.take(2) == "<@"@ {
        u64_text(text.subrange(2, text.len() - 1))
    } else {
        None
    };
    match inner {
        Some(id) => Some(id),
        None => u64_text(text),
    }
}

/// `RoleId::from_str(text)` of serenity, as a number: `parse_role` on a mention, else
/// `str::parse::<u64>` on the whole text (see [`role_id_text`]).
#[verifier::external_body]
pub(crate) fn parse_role_id(text: &str) -> (r: Option<u64>)
    ensures
        r == role_id_text(text@),
{
    <serenity::model::id::RoleId as std::str::FromStr>::from_str(text).ok().map(|r| r.0)
}

/// Whether serenity's user-mention parse cuts `text` inside a character: a text that starts
/// with `<@` and ends in a character of more than one UTF-8 byte (such as `<@é`) is sliced up
/// to one byte before its end, which is not a character boundary, and the slice panics.
pub open spec fn user_text_splits_char(text: Seq<char>) -> bool {
    text.len() >= 3 && text[0] == '<' && text[1] == '@' && (text.last() as u32) >= 0x80
}

/// Whether `text` can be handed to serenity's user-id parse (see [`user_text_splits_char`]).
pub fn user_text_readable(text: &str) -> (b: bool)
    ensures
        b == !user_text_splits_char(text@),
{
    let cs = crate::text::chars_of(text);
    let n = cs.len();
    !(n >= 3 && cs[0] == '<' && cs[1] == '@' && (cs[n - 1] as u32) >= 0x80)
}

/// `UserId::from_str(text)` of serenity, as a number: `parse_username` on a mention, else
/// `str::parse::<u64>` on the whole text (see [`user_id_text`]). It is not called on texts
/// whose mention parse would slice inside a character, where it panics.
#[verifier::external_body]
fn parse_user_id(text: &str) -> (r: Option<u64>)
    requires
        !user_text_splits_char(text@),
    ensures
        r == user_id_text(text@),
{
    <serenity::model::id::UserId as std::str::FromStr>::from_str(text).ok().map(|u| u.0)
}

/// `ChannelId::from_str(text)` of serenity, as a number: `parse_channel` on a mention, else
/// `str::parse::<u64>` on the whole text (see [`channel_id_text`]).
#[verifier::external_body]
fn parse_channel_id(text: &str) -> (r: Option<u64>)
    ensures
        r == channel_id_text(text@),
{
    <serenity::model::id::ChannelId as std::str::FromStr>::from_str(text).ok().map(|c| c.0)
}

/// The channel a user names or mentions in `text`, among the guild's channels `(id, name)`;
/// `channels` is `None` when the guild is not cached. When several channels share the name,
/// one of them is found.
pub fn find_channel(channels: Option<&Vec<(u64, String)>>, text: &str) -> (r: Result<u64, Error>)
    ensures
        channels is None ==> (r matches Err(e) && e@ == failure_view(Failure::GuildNotInCache)),
        channels matches Some(cs) ==> match channel_id_text(text@) {
            Some(id) => if has_role_id(cs@, id) {
                r == Ok::<u64, Error>(id)
            } else {
                r matches Err(e) && e@ == failure_view(Failure::NoSuchChannel)
            },
            None => if has_role_named(cs@, text@) {
                r matches Ok(id) && exists|i: int|
                    0 <= i < cs@.len() && cs@[i].0 == id && cs@[i].1@ == text@
            } else {
                r matches Err(e) && e@ == failure_view(Failure::NoSuchChannel)
            },
        },
{
    let parsed = parse_channel_id(text);
    match resolve_role(channels, parsed, text) {
        Ok(id) => Ok(id),
        Err(e) => match channels {
            None => Err(e),
            Some(_) => Err(Failure::NoSuchChannel.into_error()),
        },
    }
}

/// The role a user names or mentions in `text`, among the guild's roles (see
/// [`resolve_role`]); `roles` is `None` when the guild is not cached.
pub fn find_role(roles: Option<&Vec<(u64, String)>>, text: &str) -> (r: Result<u64, Error>)
    ensures
        roles is None ==> (r matches Err(e) && e@ == failure_view(Failure::GuildNotInCache)),
        roles matches Some(rs) ==> match role_id_text(text@) {
            Some(id) => if has_role_id(rs@, id) {
                r == Ok::<u64, Error>(id)
            } else {
                r matches Err(e) && e@ == failure_view(Failure::NoSuchRole)
            },
            None => if has_role_named(rs@, text@) {
                r matches Ok(id) && exists|i: int|
                    0 <= i < rs@.len() && rs@[i].0 == id && rs@[i].1@ == text@
            } else {
                r matches Err(e) && e@ == failure_view(Failure::NoSuchRole)
            },
        },
{
    let parsed = parse_role_id(text);
    resolve_role(roles, parsed, text)
}

/// How a user is looked up from the text naming them.
#[derive(Debug, Clone, PartialEq, Eq)]
pub enum UserLookup {
    /// By id, fetching the member.
    ById(u64),
    /// By name among the cached members.
    ByName,
}

/// How the user named in `text` is looked up: by id when the text reads as one, else by name.
/// Texts that serenity's parse cannot slice (see [`user_text_splits_char`]) are left out.
pub fn user_lookup(text: &str) -> (l: UserLookup)
    requires
        !user_text_splits_char(text@),
    ensures
        l == match user_id_text(text@) {
            Some(id) => UserLookup::ById(id),
            None => UserLookup::ByName,
        },
{
    match parse_user_id(text) {
        Some(id) => UserLookup::ById(id),
        None => UserLookup::ByName,
    }
}

/// The member found for a user's text, which must exist.
pub fn require_member(found: Option<u64>) -> (r: Result<u64, Error>)
    ensures
        found matches Some(u) ==> r == Ok::<u64, Error>(u),
        found is None ==> (r matches Err(e) && e@ == failure_view(Failure::NoSuchUser)),
{
    match found {
        Some(u) => Ok(u),
        None => Err(Failure::NoSuchUser.into_error()),
    }
}

/// The name of the entity `id` among `(id, name)` pairs, the first with that id.
pub open spec fn name_of(items: Seq<(u64, String)>, id: u64) -> Option<Seq<char>>
    decreases items.len(),
{
    if items.len() == 0 {
        None
    } else if items[0].0 == id {
        Some(items[0].1@)
    } else {
        name_of(items.skip(1), id)
    }
}

/// The name of `id` among `items`, if it is there.
fn lookup_name(items: &Vec<(u64, String)>, id: u64) -> (r: Option<String>)
    ensures
        match name_of(items@, id) {
            Some(n) => r matches Some(x) && x@ == n,
            None => r is None,
        },
{
    let mut i: usize = 0;
    assert(items@.skip(0) =~= items@);
    while i < items.len()
        invariant
            i <= items.len(),
            name_of(items@, id) == name_of(items@.skip(i as int), id),
        decreases items.len() - i,
    {
        assert(items@.skip(i as int)[0] == items@[i as int]);
        assert(items@.skip(i as int).skip(1) =~= items@.skip(i + 1));
        if items[i].0 == id {
            return Some(items[i].1.clone());
        }
        i = i + 1;
    }
    None
}

/// The name of a role in its guild: an error when the guild is not cached or has no such
/// role. `roles` lists the guild's roles `(id, name)`.
pub fn role_name(roles: Option<&Vec<(u64, String)>>, id: u64) -> (r: Result<String, Error>)
    ensures
        roles is None ==> (r matches Err(e) && e@ == failure_view(Failure::GuildNotInCache)),
        roles matches Some(rs) ==> match name_of(rs@, id) {
            Some(n) => r matches Ok(x) && x@ == n,
            None => r matches Err(e) && e@ == failure_view(Failure::NoSuchRole),
        },
{
    match roles {
        None => Err(Failure::GuildNotInCache.into_error()),
        Some(rs) => match lookup_name(rs, id) {
            Some(n) => Ok(n),
            None => Err(Failure::NoSuchRole.into_error()),
        },
    }
}

/// The name of a role, or its id when the name cannot be found.
pub fn role_name_or_id(roles: Option<&Vec<(u64, String)>>, id: u64) -> (s: String)
    ensures
        s@ == match roles {
            Some(rs) => match name_of(rs@, id) {
                Some(n) => n,
                None => decimal(id as nat),
            },
            None => decimal(id as nat),
        },
{
    match role_name(roles, id) {
        Ok(n) => n,
        Err(_) => {
            let mut s = String::new();
            push_decimal(&mut s, id);
            s
        },
    }
}

/// The name of a channel in its guild: an error when the guild is not cached or has no such
/// channel. `channels` lists the guild's channels `(id, name)`.
pub fn channel_name(channels: Option<&Vec<(u64, String)>>, id: u64) -> (r: Result<String, Error>)
    ensures
        channels is None ==> (r matches Err(e) && e@ == failure_view(Failure::GuildNotInCache)),
        channels matches Some(cs) ==> match name_of(cs@, id) {
            Some(n) => r matches Ok(x) && x@ == n,
            None => r matches Err(e) && e@ == failure_view(Failure::NoSuchChannel),
        },
{
    match channels {
        None => Err(Failure::GuildNotInCache.into_error()),
        Some(cs) => match lookup_name(cs, id) {
            Some(n) => Ok(n),
            None => Err(Failure::NoSuchChannel.into_error()),
        },
    }
}

/// The name of a channel, or its mention `<#id>` when the name cannot be found.
pub fn channel_name_or_id(channels: Option<&Vec<(u64, String)>>, id: u64) -> (s: String)
    ensures
        s@ == match channels {
            Some(cs) => match name_of(cs@, id) {
                Some(n) => n,
                None => "<#"@ + decimal(id as nat) + ">"@,
            },
            None => "<#"@ + decimal(id as nat) + ">"@,
        },
{
    match channel_name(channels, id) {
        Ok(n) => n,
        Err(_) => {
            let mut s = String::new();
            push_str(&mut s, "<#");
            push_decimal(&mut s, id);
            push_str(&mut s, ">");
            s
        },
    }
}

/// A member as the guild's cache knows them: their id, nickname and user name.
pub struct MemberName {
    pub id: u64,
    pub nick: Option<String>,
    pub name: String,
}

/// The name a member goes by: their nickname, else their user name.
pub open spec fn display_name_of(m: MemberName) -> Seq<char> {
    match m.nick {
        Some(n) => n@,
        None => m.name@,
    }
}

/// The name of a user in their guild: an error when the guild is not cached or the user is
/// not a member. `members` lists the guild's members.
pub fn user_name(members: Option<&Vec<MemberName>>, id: u64) -> (r: Result<String, Error>)
    ensures
        members is None ==> (r matches Err(e) && e@ == failure_view(Failure::GuildNotInCache)),
        members matches Some(ms) ==> if exists|i: int| 0 <= i < ms@.len() && #[trigger] ms@[i].id == id {
            r matches Ok(x) && exists|i: int|
                0 <= i < ms@.len() && ms@[i].id == id && #[trigger] display_name_of(ms@[i]) == x@
        } else {
            r matches Err(e) && e@ == failure_view(Failure::NoSuchUser)
        },
{
    let ms = match members {
        None => return Err(Failure::GuildNotInCache.into_error()),
        Some(ms) => ms,
    };
    let mut i: usize = 0;
    while i < ms.len()
        invariant
            i <= ms.len(),
            members == Some(ms),
            forall|k: int| 0 <= k < i ==> ms@[k].id != id,
        decreases ms.len() - i,
    {
        if ms[i].id == id {
            let n = match &ms[i].nick {
                Some(n) => n.clone(),
                None => ms[i].name.clone(),
            };
            assert(display_name_of(ms@[i as int]) == n@);
            return Ok(n);
        }
        i = i + 1;
    }
    Err(Failure::NoSuchUser.into_error())
}

/// The name of a user, or their mention `<@id>` when the name cannot be found.
pub fn user_name_or_id(members: Option<&Vec<MemberName>>, id: u64) -> (s: String)
    ensures
        members is None ==> s@ == "<@"@ + decimal(id as nat) + ">"@,
        members matches Some(ms) ==> if exists|i: int| 0 <= i < ms@.len() && #[trigger] ms@[i].id == id {
            exists|i: int| 0 <= i < ms@.len() && ms@[i].id == id && #[trigger] display_name_of(ms@[i]) == s@
        } else {
            s@ == "<@"@ + decimal(id as nat) + ">"@
        },
{
    match user_name(members, id) {
        Ok(n) => n,
        Err(_) => {
            let mut s = String::new();
            push_str(&mut s, "<@");
            push_decimal(&mut s, id);
            push_str(&mut s, ">");
            s
        },
    }
}

/// The most roles a guild may make joinable.
pub const MAX_JOINABLE_ROLES: usize = 25;

/// `s` is in strictly increasing order (so no role occurs twice).
pub open spec fn strictly_sorted(s: Seq<u64>) -> bool {
    forall|i: int, j: int| 0 <= i < j < s.len() ==> s[i] < s[j]
}

/// A guild's joinable roles, in increasing order of id.
pub struct JoinableRoles {
    roles: Vec<u64>,
}

impl JoinableRoles {
    /// The joinable roles, in increasing order.
    pub closed spec fn spec_roles(&self) -> Seq<u64> {
        self.roles@
    }

    /// The roles are in increasing order, and no more than [`MAX_JOINABLE_ROLES`].
    pub open spec fn wf(&self) -> bool {
        strictly_sorted(self.spec_roles()) && self.spec_roles().len() <= MAX_JOINABLE_ROLES
    }

    /// No joinable roles.
    pub fn new() -> (j: JoinableRoles)
        ensures
            j.wf(),
            j.spec_roles() == Seq::<u64>::empty(),
    {
        JoinableRoles { roles: Vec::new() }
    }

    /// The joinable roles, in increasing order.
    pub fn roles(&self) -> (v: &Vec<u64>)
        ensures
            v@ == self.spec_roles(),
    {
        &self.roles
    }

    /// Whether `role` is joinable.
    pub fn contains(&self, role: u64) -> (b: bool)
        ensures
            b == self.spec_roles().contains(role),
    {
        let mut i: usize = 0;
        while i < self.roles.len()
            invariant
                i <= self.roles.len(),
                forall|k: int| 0 <= k < i ==> self.roles@[k] != role,
            decreases self.roles.len() - i,
        {
            if self.roles[i] == role {
                assert(self.roles@[i as int] == role);
                return true;
            }
            i = i + 1;
        }
        false
    }

    /// Makes `role` joinable: refused when it already is, or when the guild has
    /// [`MAX_JOINABLE_ROLES`] joinable roles; the roles stay in increasing order.
    pub fn add(&mut self, role: u64) -> (r: Result<(), Error>)
        requires
            old(self).wf(),
        ensures
            final(self).wf(),
            old(self).spec_roles().contains(role) ==> (r matches Err(e) && e@ == failure_view(
                Failure::AlreadyJoinable,
            ) && final(self).spec_roles() == old(self).spec_roles()),
            !old(self).spec_roles().contains(role) && old(self).spec_roles().len() >= MAX_JOINABLE_ROLES ==> (
            r matches Err(e) && e@ == failure_view(Failure::TooManyRoles) && final(self).spec_roles() == old(
                self,
            ).spec_roles()),
            !old(self).spec_roles().contains(role) && old(self).spec_roles().len() < MAX_JOINABLE_ROLES ==> (r
                is Ok && final(self).spec_roles().len() == old(self).spec_roles().len() + 1 && forall|x: u64|
                #[trigger] final(self).spec_roles().contains(x) <==> (old(self).spec_roles().contains(x) || x
                    == role)),
    {
        let mut i: usize = 0;
        while i < self.roles.len() && self.roles[i] < role
            invariant
                i <= self.roles.len(),
                self.roles@ == old(self).roles@,
                forall|k: int| 0 <= k < i ==> self.roles@[k] < role,
            decreases self.roles.len() - i,
        {
            i = i + 1;
        }
        if i < self.roles.len() && self.roles[i] == role {
            assert(self.roles@[i as int] == role);
            return Err(Failure::AlreadyJoinable.into_error());
        }
        proof {
            assert forall|k: int| 0 <= k < self.roles@.len() implies self.roles@[k] != role by {
                if k >= i {
                    assert(self.roles@[i as int] > role);
                    if k > i {
                        assert(self.roles@[i as int] < self.roles@[k]);
                    }
                }
            }
        }
        if self.roles.len() >= MAX_JOINABLE_ROLES {
            return Err(Failure::TooManyRoles.into_error());
        }
        let ghost before = self.roles@;
        self.roles.insert(i, role);
        proof {
            let after = self.roles@;
            assert(after == before.insert(i as int, role));
            assert forall|a: int, b: int| 0 <= a < b < after.len() implies after[a] < after[b] by {
                if b < i {
                } else if b == i {
                } else if a < i {
                    assert(after[b] == before[b - 1]);
                    if i < before.len() {
                        assert(before[i as int] > role);
                        if b - 1 > i {
                            assert(before[i as int] < before[b - 1]);
                        }
                    }
                } else if a == i {
                    assert(after[b] == before[b - 1]);
                    assert(before[i as int] > role);
                    if b - 1 > i {
                        assert(before[i as int] < before[b - 1]);
                    }
                } else {
                    assert(after[a] == before[a - 1] && after[b] == before[b - 1]);
                }
            }
            assert forall|x: u64| #[trigger] after.contains(x) <==> (before.contains(x) || x == role) by {
                if after.contains(x) {
                    let k = choose|k: int| 0 <= k < after.len() && after[k] == x;
                    if k < i {
                        assert(before[k] == x);
                    } else if k > i {
                        assert(before[k - 1] == x);
                    }
                }
                if before.contains(x) {
                    let k = choose|k: int| 0 <= k < before.len() && before[k] == x;
                    if k < i {
                        assert(after[k] == x);
                    } else {
                        assert(after[k + 1] == x);
                    }
                }
                if x == role {
                    assert(after[i as int] == x);
                }
            }
        }
        Ok(())
    }

    /// Removes `role` from the joinable roles, if it is there.
    pub fn remove(&mut self, role: u64)
        requires
            old(self).wf(),
        ensures
            final(self).wf(),
            forall|x: u64| #[trigger] final(self).spec_roles().contains(x) <==> (old(self).spec_roles().contains(x)
                && x != role),
    {
        let mut i: usize = 0;
        while i < self.roles.len()
            invariant
                i <= self.roles.len(),
                self.roles@ == old(self).roles@,
                old(self).wf(),
                forall|k: int| 0 <= k < i ==> self.roles@[k] != role,
            decreases self.roles.len() - i,
        {
            if self.roles[i] == role {
                let ghost before = self.roles@;
                self.roles.remove(i);
                proof {
                    let after = self.roles@;
                    assert(after == before.remove(i as int));
                    assert forall|a: int, b: int| 0 <= a < b < after.len() implies after[a] < after[b] by {
                        let a2 = if a < i { a } else { a + 1 };
                        let b2 = if b < i { b } else { b + 1 };
                        assert(after[a] == before[a2] && after[b] == before[b2]);
                    }
                    assert forall|x: u64| #[trigger] after.contains(x) <==> (before.contains(x) && x != role) by {
                        if after.contains(x) {
                            let k = choose|k: int| 0 <= k < after.len() && after[k] == x;
                            let k2 = if k < i { k } else { k + 1 };
                            assert(before[k2] == x);
                            if x == role {
                                assert(before[i as int] == role);
                                assert(k2 != i);
                            }
                        }
                        if before.contains(x) && x != role {
                            let k = choose|k: int| 0 <= k < before.len() && before[k] == x;
                            assert(k != i);
                            if k < i {
                                assert(after[k] == x);
                            } else {
                                assert(after[k - 1] == x);
                            }
                        }
                    }
                }
                return;
            }
            i = i + 1;
        }
    }
}

} // verus!
