//! The `config` command: setting, showing, listing and describing guild settings.

use vstd::prelude::*;
use crate::dispatch::{Dispatch, no_such_config_message, setting_named};
use crate::config::{Parseable, read_uint, uint_failure, uint_value};
use crate::dispatch::failure_view;
use crate::error::{Error, ErrorView, Failure};
use crate::roles::{channel_id_text, find_channel, find_role, has_role_id, has_role_named, role_id_text};
use crate::settings::{SettingInfo, SettingKind};
use crate::text::{decimal, u64_to_string};
use crate::text::{join_strings, joined, push_str, string_views};

verus! {

/// The arguments of the `config` command.
#[derive(Debug, Clone)]
pub enum ConfigOpt {
    /// Sets a setting.
    SetValue { key: String, value: String },
    /// Shows a setting's value.
    Show { key: String },
    /// Lists the settings.
    List,
    /// Describes a setting.
    Info { key: String },
}

/// The error shown to the user when a setting's value does not read: the reason, as a user
/// error.
pub open spec fn refused(message: Seq<char>) -> ErrorView {
    ErrorView { message, user_error: true }
}

/// What validating an id among a guild's `(id, name)` items ends in: `parsed` is what reading
/// the text as a mention or id gave, `missing` the failure when no item matches.
pub open spec fn id_outcome(
    r: Result<String, Error>,
    items: Option<Seq<(u64, String)>>,
    parsed: Option<u64>,
    text: Seq<char>,
    missing: Failure,
) -> bool {
    match items {
        None => r matches Err(e) && e@ == refused(failure_message_of(Failure::GuildNotInCache)),
        Some(xs) => match parsed {
            Some(id) => if has_role_id(xs, id) {
                r matches Ok(v) && v@ == decimal(id as nat)
            } else {
                r matches Err(e) && e@ == refused(failure_message_of(missing))
            },
            None => if has_role_named(xs, text) {
                r matches Ok(v) && exists|i: int|
                    0 <= i < xs.len() && xs[i].1@ == text && v@ == decimal(xs[i].0 as nat)
            } else {
                r matches Err(e) && e@ == refused(failure_message_of(missing))
            },
        },
    }
}

/// The fixed message of a failure.
pub open spec fn failure_message_of(f: Failure) -> Seq<char> {
    failure_view(f).message
}

fn user_refusal(e: Error) -> (out: Error)
    ensures
        out@ == refused(e@.message),
{
    let m = e.message().clone();
    Error::from_err(m, true)
}

/// Reads the text a user gave for a setting of kind `kind`, as the setting's type reads it:
/// a single character; `true` or `false`; an unsigned 64-bit integer; or a role or channel of
/// the guild, named or mentioned (`roles` and `channels` are the guild's `(id, name)` pairs,
/// `None` when the guild is not cached). Gives the value to store: the character, the boolean
/// or the number in decimal, or the id in decimal. Any failure is a user error.
pub fn validate_setting(
    kind: SettingKind,
    text: &str,
    roles: Option<&Vec<(u64, String)>>,
    channels: Option<&Vec<(u64, String)>>,
) -> (r: Result<String, Error>)
    ensures
        kind == SettingKind::Char ==> match <char as Parseable>::parse_failure(text@) {
            Some(m) => r matches Err(e) && e@ == refused(m),
            None => r matches Ok(v) && v@ == text@,
        },
        kind == SettingKind::Bool ==> match <bool as Parseable>::parse_failure(text@) {
            Some(m) => r matches Err(e) && e@ == refused(m),
            None => r matches Ok(v) && v@ == text@,
        },
        kind == SettingKind::U64 ==> match uint_failure(text@, u64::MAX as nat) {
            Some(m) => r matches Err(e) && e@ == refused(m),
            None => r matches Ok(v) && v@ == decimal(uint_value(text@)),
        },
        kind == SettingKind::Role ==> id_outcome(
            r,
            match roles {
                Some(rs) => Some(rs@),
                None => None,
            },
            role_id_text(text@),
            text@,
            Failure::NoSuchRole,
        ),
        kind == SettingKind::Channel ==> id_outcome(
            r,
            match channels {
                Some(cs) => Some(cs@),
                None => None,
            },
            channel_id_text(text@),
            text@,
            Failure::NoSuchChannel,
        ),
{
    match kind {
        SettingKind::Char => match <char as Parseable>::check_parse(text) {
            Some(m) => Err(Error::from_err(m, true)),
            None => Ok(String::from_str(text)),
        },
        SettingKind::Bool => match <bool as Parseable>::check_parse(text) {
            Some(m) => Err(Error::from_err(m, true)),
            None => Ok(String::from_str(text)),
        },
        SettingKind::U64 => match read_uint(text, u64::MAX) {
            Err(m) => Err(Error::from_err(m, true)),
            Ok(v) => Ok(u64_to_string(v)),
        },
        SettingKind::Role => match find_role(roles, text) {
            Ok(id) => Ok(u64_to_string(id)),
            Err(e) => Err(user_refusal(e)),
        },
        SettingKind::Channel => match find_channel(channels, text) {
            Ok(id) => Ok(u64_to_string(id)),
            Err(e) => Err(user_refusal(e)),
        },
    }
}

/// How a stored setting value is shown: a role as its mention `<@&id>`, a channel as its
/// mention `<#id>`, anything else as stored.
pub open spec fn shown_setting(kind: SettingKind, stored: Seq<char>) -> Seq<char> {
    match kind {
        SettingKind::Role => "<@&"@ + stored + ">"@,
        SettingKind::Channel => "<#"@ + stored + ">"@,
        _ => stored,
    }
}

/// Shows a stored setting value of kind `kind` (see [`shown_setting`]).
pub fn display_setting(kind: SettingKind, stored: &str) -> (s: String)
    ensures
        s@ == shown_setting(kind, stored@),
{
    let mut s = String::new();
    match kind {
        SettingKind::Role => {
            push_str(&mut s, "<@&");
            push_str(&mut s, stored);
            push_str(&mut s, ">");
        },
        SettingKind::Channel => {
            push_str(&mut s, "<#");
            push_str(&mut s, stored);
            push_str(&mut s, ">");
        },
        _ => {
            push_str(&mut s, stored);
        },
    }
    proof {
        reveal_strlit("");
    }
    assert(s@ =~= shown_setting(kind, stored@));
    s
}

/// The reply after setting `key`.
pub fn set_reply(key: &str) -> (s: String)
    ensures
        s@ == "Set "@ + key@ + " to specified value."@,
{
    let mut s = String::new();
    push_str(&mut s, "Set ");
    push_str(&mut s, key);
    push_str(&mut s, " to specified value.");
    s
}

/// What `show` replies for a setting with no value.
pub fn unset_reply() -> (s: String)
    ensures
        s@ == "<unset>"@,
{
    String::from_str("<unset>")
}

/// The names of the registered settings, in order.
pub open spec fn setting_names(vs: Seq<SettingInfo>) -> Seq<Seq<char>> {
    vs.map_values(|v: SettingInfo| v.name@)
}

/// The reply listing the settings: their names in order, separated by commas.
pub fn list_reply(dis: &Dispatch) -> (s: String)
    ensures
        s@ == joined(setting_names(dis.settings()), ", "@),
{
    let vs = dis.config_values();
    let mut names: Vec<String> = Vec::new();
    let mut i: usize = 0;
    while i < vs.len()
        invariant
            i <= vs.len(),
            vs@ == dis.settings(),
            string_views(names@) == setting_names(vs@).take(i as int),
        decreases vs.len() - i,
    {
        let ghost before = names@;
        let n = String::from_str(vs[i].name);
        assert(n@ == vs@[i as int].name@);
        names.push(n);
        assert(names@ == before.push(n));
        assert(setting_names(vs@).take(i + 1) =~= setting_names(vs@).take(i as int).push(vs@[i as int].name@));
        i = i + 1;
        assert(string_views(names@) =~= setting_names(vs@).take(i as int));
    }
    assert(setting_names(vs@).take(vs.len() as int) =~= setting_names(vs@));
    join_strings(&names, ", ")
}

/// The reply describing a setting: its name, a colon and its help text; an error when no
/// setting has that name.
pub fn info_reply(dis: &Dispatch, key: &str) -> (r: Result<String, Error>)
    requires
        dis.well_formed(),
    ensures
        match setting_named(dis.settings(), key@) {
            Some(v) => r matches Ok(s) && s@ == key@ + ": "@ + v.help@,
            None => r matches Err(e) && e@.message == no_such_config_message(key@) && e@.user_error,
        },
{
    match dis.config_value(key) {
        Err(e) => Err(e),
        Ok(v) => {
            let mut s = String::new();
            push_str(&mut s, key);
            push_str(&mut s, ": ");
            push_str(&mut s, v.help);
            Ok(s)
        },
    }
}

} // verus!
