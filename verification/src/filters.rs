//! The command filters: the base filter (length and bots), the owner filter and the privilege
//! filter, and the check that keeps members from handing out roles above their own.

use vstd::prelude::*;
use crate::dispatch::{Dispatch, failure_view, module_position, no_such_command_message};
use crate::error::{Error, ErrorView, Failure};
use crate::sensitivity::{Sensitivity, strictly_less};
use crate::text::chars_of;

verus! {

/// The most UTF-8 bytes a command message may have.
pub const MAX_COMMAND_LEN: usize = 1500;

/// The number of bytes `c` takes in UTF-8.
pub open spec fn utf8_width(c: char) -> nat {
    if (c as u32) < 0x80 {
        1
    } else if (c as u32) < 0x800 {
        2
    } else if (c as u32) < 0x10000 {
        3
    } else {
        4
    }
}

/// The number of bytes `s` takes in UTF-8.
pub open spec fn utf8_len(s: Seq<char>) -> nat
    decreases s.len(),
{
    if s.len() == 0 {
        0
    } else {
        utf8_len(s.drop_last()) + utf8_width(s.last())
    }
}

proof fn lemma_utf8_len_grows(s: Seq<char>, i: int, j: int)
    requires
        0 <= i <= j <= s.len(),
    ensures
        utf8_len(s.take(i)) <= utf8_len(s.take(j)),
    decreases j - i,
{
    if i < j {
        lemma_utf8_len_grows(s, i, j - 1);
        assert(s.take(j).drop_last() =~= s.take(j - 1));
    }
}

/// The number of bytes the characters `cs` take in UTF-8, if it is at most `limit`.
pub fn utf8_len_within(cs: &Vec<char>, limit: usize) -> (r: Option<usize>)
    ensures
        r matches Some(n) ==> n == utf8_len(cs@) && n <= limit,
        r is None ==> utf8_len(cs@) > limit,
{
    let mut total: usize = 0;
    let mut i: usize = 0;
    while i < cs.len()
        invariant
            i <= cs.len(),
            total == utf8_len(cs@.take(i as int)),
            total <= limit,
        decreases cs.len() - i,
    {
        let c = cs[i];
        let u = c as u32;
        let w: usize = if u < 0x80 {
            1
        } else if u < 0x800 {
            2
        } else if u < 0x10000 {
            3
        } else {
            4
        };
        assert(cs@.take(i + 1).drop_last() =~= cs@.take(i as int));
        assert(w == utf8_width(cs@[i as int]));
        if w > limit - total {
            proof {
                lemma_utf8_len_grows(cs@, i + 1, cs.len() as int);
                assert(cs@.take(cs.len() as int) =~= cs@);
            }
            return None;
        }
        total = total + w;
        i = i + 1;
    }
    assert(cs@.take(cs.len() as int) =~= cs@);
    Some(total)
}

/// Whether `s` takes more than `limit` bytes in UTF-8.
pub fn utf8_longer_than(s: &str, limit: usize) -> (b: bool)
    ensures
        b == (utf8_len(s@) > limit),
{
    let cs = chars_of(s);
    utf8_len_within(&cs, limit).is_none()
}

/// The base filter: refuses messages longer than [`MAX_COMMAND_LEN`] bytes, then messages
/// from bots, and otherwise passes the command's name on unchanged.
pub fn base_filter(content: &str, author_is_bot: bool, name: String) -> (r: Result<String, Error>)
    ensures
        utf8_len(content@) > MAX_COMMAND_LEN ==> (r matches Err(e) && e@ == failure_view(
            Failure::CommandTooLong,
        )),
        utf8_len(content@) <= MAX_COMMAND_LEN && author_is_bot ==> (r matches Err(e) && e@
            == failure_view(Failure::NoBots)),
        utf8_len(content@) <= MAX_COMMAND_LEN && !author_is_bot ==> (r matches Ok(n) && n@
            == name@),
{
    if utf8_longer_than(content, MAX_COMMAND_LEN) {
        return Err(Failure::CommandTooLong.into_error());
    }
    if author_is_bot {
        return Err(Failure::NoBots.into_error());
    }
    Ok(name)
}

/// The error when a filter is asked about a command that does not exist.
pub open spec fn no_such_command_view(name: Seq<char>) -> ErrorView {
    ErrorView { message: no_such_command_message(name), user_error: true }
}

/// The owner filter: a command of owner sensitivity runs only for the bot's owner.
pub fn owner_filter(dis: &Dispatch, author: u64, name: String) -> (r: Result<String, Error>)
    requires
        dis.well_formed(),
    ensures
        match module_position(dis.modules(), name@) {
            Some(i) if dis.modules()[i].command => if dis.modules()[i].sensitivity
                == Sensitivity::Owner && author != dis.spec_owner() {
                r matches Err(e) && e@ == failure_view(Failure::MustBeBotOwner)
            } else {
                r matches Ok(n) && n@ == name@
            },
            _ => r matches Err(e) && e@ == no_such_command_view(name@),
        },
{
    match dis.command_module(name.as_str()) {
        Err(e) => Err(e.into_error()),
        Ok(m) => {
            if m.sensitivity == Sensitivity::Owner {
                if author == dis.owner() {
                    Ok(name)
                } else {
                    Err(Failure::MustBeBotOwner.into_error())
                }
            } else {
                Ok(name)
            }
        },
    }
}

/// The first step of the privilege filter: whether the command needs elevated privilege
/// (high or owner sensitivity), or an error if it does not exist.
pub fn needs_privilege(dis: &Dispatch, name: &str) -> (r: Result<bool, Error>)
    requires
        dis.well_formed(),
    ensures
        match module_position(dis.modules(), name@) {
            Some(i) if dis.modules()[i].command => r == Ok::<bool, Error>(
                !strictly_less(dis.modules()[i].sensitivity, Sensitivity::High),
            ),
            _ => r matches Err(e) && e@ == no_such_command_view(name@),
        },
{
    match dis.command_module(name) {
        Err(e) => Err(e.into_error()),
        Ok(m) => Ok(!m.sensitivity.below_high()),
    }
}

/// The text of the error when the guild's owner could not be found.
pub open spec fn guild_info_message() -> Seq<char> {
    "Couldn't retrieve guild info."@
}

/// The text of the error when no moderator role is set.
pub open spec fn no_mod_role_message() -> Seq<char> {
    "Need to set a moderator role -- see privileged_role config option."@
}

/// The text of the error when the author lacks the moderator role.
pub open spec fn no_permission_message() -> Seq<char> {
    "You do not have permission to run that command."@
}

/// The second step of the privilege filter: whether the author owns the guild (and may run
/// the command), given the guild's owner if it could be found.
pub fn is_guild_owner(guild_owner: Option<u64>, author: u64) -> (r: Result<bool, Error>)
    ensures
        guild_owner is None ==> (r matches Err(e) && e@ == ErrorView {
            message: guild_info_message(),
            user_error: false,
        }),
        guild_owner matches Some(o) ==> r == Ok::<bool, Error>(o == author),
{
    match guild_owner {
        None => {
            proof { reveal_strlit("Couldn't retrieve guild info."); }
            Err(Error::from_err(String::from_str("Couldn't retrieve guild info."), false))
        },
        Some(o) => Ok(o == author),
    }
}

/// The third step of the privilege filter: the guild's moderator role, which must be set.
pub fn required_mod_role(mod_role: Option<u64>) -> (r: Result<u64, Error>)
    ensures
        mod_role matches Some(m) ==> r == Ok::<u64, Error>(m),
        mod_role is None ==> (r matches Err(e) && e@ == ErrorView {
            message: no_mod_role_message(),
            user_error: true,
        }),
{
    match mod_role {
        Some(m) => Ok(m),
        None => {
            proof {
                reveal_strlit("Need to set a moderator role -- see privileged_role config option.");
            }
            Err(
                Error::from_err(
                    String::from_str(
                        "Need to set a moderator role -- see privileged_role config option.",
                    ),
                    true,
                ),
            )
        },
    }
}

/// The last step of the privilege filter: the command passes when the author has the
/// moderator role.
pub fn privilege_verdict(has_mod_role: bool, name: String) -> (r: Result<String, Error>)
    ensures
        has_mod_role ==> (r matches Ok(n) && n@ == name@),
        !has_mod_role ==> (r matches Err(e) && e@ == ErrorView {
            message: no_permission_message(),
            user_error: true,
        }),
{
    if has_mod_role {
        Ok(name)
    } else {
        proof { reveal_strlit("You do not have permission to run that command."); }
        Err(
            Error::from_err(
                String::from_str("You do not have permission to run that command."),
                true,
            ),
        )
    }
}

/// Whether a member may hand out a role: the guild's owner always may; anyone else only if
/// their highest role is not below it. `guild_owner` is `None` when the guild is not cached,
/// `highest_position` is `None` when the member's roles are not cached.
pub fn ensure_authorized_for_role(
    guild_owner: Option<u64>,
    member: u64,
    highest_position: Option<i64>,
    role_position: i64,
) -> (r: Result<(), Error>)
    ensures
        guild_owner is None ==> (r matches Err(e) && e@ == failure_view(Failure::GuildNotInCache)),
        guild_owner matches Some(o) ==> if o == member {
            r is Ok
        } else {
            match highest_position {
                None => r matches Err(e) && e@ == failure_view(Failure::RoleNotInCache),
                Some(p) => if p < role_position {
                    r matches Err(e) && e@ == failure_view(Failure::DeputyConfused)
                } else {
                    r is Ok
                },
            }
        },
{
    match guild_owner {
        None => Err(Failure::GuildNotInCache.into_error()),
        Some(o) => {
            if o == member {
                return Ok(());
            }
            match highest_position {
                None => Err(Failure::RoleNotInCache.into_error()),
                Some(p) => {
                    if p < role_position {
                        Err(Failure::DeputyConfused.into_error())
                    } else {
                        Ok(())
                    }
                },
            }
        },
    }
}

} // verus!
