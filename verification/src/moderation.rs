//! The `mod` command: warning, kicking, banning and muting users, the report sent to the
//! moderation log, and the follow-up that lifts a ban or a mute.

use vstd::prelude::*;
use crate::dispatch::failure_view;
use crate::error::{Error, Failure};
use crate::text::{decimal, push_decimal, push_str};
use crate::timed;

verus! {

/// Nanoseconds in a second.
pub const NANOS_PER_SECOND: u32 = 1_000_000_000;

/// A span of time given by a moderator, such as `5d 2h`.
#[derive(Debug, Clone, Copy, PartialEq, Eq, Structural)]
pub struct TimeSpan {
    pub secs: u64,
    pub nanos: u32,
}

/// How `humantime` writes a span, such as `5days 2h`.
pub uninterp spec fn humantime_text(secs: u64, nanos: u32) -> Seq<char>;

/// `humantime::format_duration(Duration::new(secs, nanos)).to_string()`. How the span is
/// written is not stated; it depends on the span alone.
#[verifier::external_body]
pub(crate) fn format_span(secs: u64, nanos: u32) -> (s: String)
    requires
        nanos < NANOS_PER_SECOND,
    ensures
        s@ == humantime_text(secs, nanos),
{
    humantime::format_duration(std::time::Duration::new(secs, nanos)).to_string()
}

/// The arguments every moderation action takes.
#[derive(Debug, Clone)]
pub struct CommonOpts {
    /// Which user the action applies to.
    pub user: String,
    /// Why the action is taken.
    pub reason: Option<String>,
}

/// The arguments of the `mod` command.
#[derive(Debug, Clone)]
pub enum ModOpt {
    /// Warns a user and notes it in the moderation log.
    Warn(CommonOpts),
    /// Kicks a user from the guild.
    Kick(CommonOpts),
    /// Bans a user, for a span if one is given, deleting some days of their messages.
    Ban { common: CommonOpts, duration: Option<TimeSpan>, delete_messages: Option<u64> },
    /// Bans a user deleting a week of messages, then lifts the ban.
    SoftBan(CommonOpts),
    /// Gives a user the mute role, for a span if one is given.
    Mute { common: CommonOpts, duration: Option<TimeSpan> },
}

/// The kind of a moderation action.
#[derive(Debug, Clone, Copy, PartialEq, Eq, Structural)]
pub enum ActionKind {
    Warn,
    Kick,
    SoftBan,
    Ban,
    Mute,
}

impl ModOpt {
    /// The arguments common to all actions.
    pub fn common_args(&self) -> (c: &CommonOpts)
        ensures
            *c == match *self {
                ModOpt::Warn(c) => c,
                ModOpt::Kick(c) => c,
                ModOpt::Ban { common, .. } => common,
                ModOpt::SoftBan(c) => c,
                ModOpt::Mute { common, .. } => common,
            },
    {
        match self {
            ModOpt::Warn(c) => c,
            ModOpt::Kick(c) => c,
            ModOpt::Ban { common, .. } => common,
            ModOpt::SoftBan(c) => c,
            ModOpt::Mute { common, .. } => common,
        }
    }

    /// The kind of action asked for.
    pub fn kind(&self) -> (k: ActionKind)
        ensures
            k == match *self {
                ModOpt::Warn(_) => ActionKind::Warn,
                ModOpt::Kick(_) => ActionKind::Kick,
                ModOpt::Ban { .. } => ActionKind::Ban,
                ModOpt::SoftBan(_) => ActionKind::SoftBan,
                ModOpt::Mute { .. } => ActionKind::Mute,
            },
    {
        match self {
            ModOpt::Warn(_) => ActionKind::Warn,
            ModOpt::Kick(_) => ActionKind::Kick,
            ModOpt::Ban { .. } => ActionKind::Ban,
            ModOpt::SoftBan(_) => ActionKind::SoftBan,
            ModOpt::Mute { .. } => ActionKind::Mute,
        }
    }

    /// The span of a ban or mute, if one was given.
    pub fn duration(&self) -> (d: Option<TimeSpan>)
        ensures
            d == match *self {
                ModOpt::Ban { duration, .. } => duration,
                ModOpt::Mute { duration, .. } => duration,
                _ => None,
            },
    {
        match self {
            ModOpt::Ban { duration, .. } => *duration,
            ModOpt::Mute { duration, .. } => *duration,
            _ => None,
        }
    }

    /// The days of messages a ban deletes, if given.
    pub fn deletion_time(&self) -> (d: Option<u64>)
        ensures
            d == match *self {
                ModOpt::Ban { delete_messages, .. } => delete_messages,
                _ => None,
            },
    {
        match self {
            ModOpt::Ban { delete_messages, .. } => *delete_messages,
            _ => None,
        }
    }
}

/// The colour of the report of an action.
pub open spec fn kind_color(k: ActionKind) -> u32 {
    match k {
        ActionKind::Warn => 0xEED202,
        ActionKind::Kick => 0xFF6700,
        ActionKind::SoftBan => 0xFAB1ED,
        ActionKind::Ban => 0xB8D113,
        ActionKind::Mute => 0x206694,
    }
}

/// The title of the report of an action.
pub open spec fn kind_title(k: ActionKind) -> Seq<char> {
    match k {
        ActionKind::Warn => "Warning"@,
        ActionKind::Kick => "Kick"@,
        ActionKind::SoftBan => "Soft ban"@,
        ActionKind::Ban => "Ban"@,
        ActionKind::Mute => "Mute"@,
    }
}

impl ActionKind {
    /// The colour of the report: safety yellow, safety orange, fabled pink, traffic red and
    /// dark blue.
    pub fn color(&self) -> (c: u32)
        ensures
            c == kind_color(*self),
    {
        match self {
            ActionKind::Warn => 0xEED202,
            ActionKind::Kick => 0xFF6700,
            ActionKind::SoftBan => 0xFAB1ED,
            ActionKind::Ban => 0xB8D113,
            ActionKind::Mute => 0x206694,
        }
    }

    /// The action's name in running text.
    pub fn name(&self) -> (s: &'static str)
        ensures
            s@ == match *self {
                ActionKind::Warn => "warning"@,
                ActionKind::Kick => "kick"@,
                ActionKind::SoftBan => "soft ban"@,
                ActionKind::Ban => "ban"@,
                ActionKind::Mute => "mute"@,
            },
    {
        match self {
            ActionKind::Warn => "warning",
            ActionKind::Kick => "kick",
            ActionKind::SoftBan => "soft ban",
            ActionKind::Ban => "ban",
            ActionKind::Mute => "mute",
        }
    }

    /// The action's name as a title.
    pub fn title_name(&self) -> (s: &'static str)
        ensures
            s@ == kind_title(*self),
    {
        match self {
            ActionKind::Warn => "Warning",
            ActionKind::Kick => "Kick",
            ActionKind::SoftBan => "Soft ban",
            ActionKind::Ban => "Ban",
            ActionKind::Mute => "Mute",
        }
    }

    /// Whether the action can last for a span.
    pub fn has_duration(&self) -> (b: bool)
        ensures
            b == (*self == ActionKind::Ban || *self == ActionKind::Mute),
    {
        match self {
            ActionKind::Ban | ActionKind::Mute => true,
            _ => false,
        }
    }
}

/// The reason given when a moderator gives none.
pub open spec fn no_reason_text() -> Seq<char> {
    "No reason specified."@
}

/// A moderation action on a member of a guild.
#[derive(Debug, Clone)]
pub struct ModAction {
    pub user: u64,
    pub user_display: String,
    pub guild: u64,
    pub action: ActionKind,
    pub moderator: u64,
    pub channel: u64,
    pub reason: Option<String>,
    pub original_message: Option<u64>,
    pub duration: Option<TimeSpan>,
    pub deletion_days: Option<u64>,
}

/// What carrying out an action does on Discord.
#[derive(Debug, Clone, PartialEq, Eq)]
pub enum ActStep {
    /// Nothing (a warning is only reported).
    Nothing,
    /// Kicks the member with the reason.
    Kick,
    /// Bans the member deleting this many days of messages, then lifts the ban.
    BanThenUnban(u8),
    /// Bans the member deleting this many days of messages.
    Ban(u8),
    /// Gives the member the guild's mute role.
    Mute,
}

/// A report of an action: colour, title, and named fields in order.
#[derive(Debug)]
pub struct Embed {
    pub color: u32,
    pub title: &'static str,
    pub fields: Vec<(String, String)>,
}

/// The link to a message.
pub open spec fn message_link(guild: u64, channel: u64, message: u64) -> Seq<char> {
    "https://discord.com/channels/"@ + decimal(guild as nat) + "/"@ + decimal(channel as nat)
        + "/"@ + decimal(message as nat)
}

/// The fields of the report of `a`, in order.
pub open spec fn embed_fields(a: ModAction) -> Seq<(Seq<char>, Seq<char>)> {
    let base = seq![
        ("User"@, a.user_display@ + " ("@ + decimal(a.user as nat) + ")"@),
        ("Reason"@, match a.reason {
            Some(r) => r@,
            None => no_reason_text(),
        }),
        ("Moderator"@, "<@"@ + decimal(a.moderator as nat) + ">"@),
        ("Channel"@, "<#"@ + decimal(a.channel as nat) + ">"@),
    ];
    let with_duration = if a.action == ActionKind::Ban || a.action == ActionKind::Mute {
        base.push(
            (
                "Duration"@,
                match a.duration {
                    Some(d) => humantime_text(d.secs, d.nanos),
                    None => "Indefinite"@,
                },
            ),
        )
    } else {
        base
    };
    match a.original_message {
        Some(m) => with_duration.push(("In response to"@, message_link(a.guild, a.channel, m))),
        None => with_duration,
    }
}

/// The report of an action has a `Duration` field exactly when the action is one that can
/// last for a span (a ban or a mute); the field then comes after the four fields every report
/// has, and tells the span, or that there is none.
pub proof fn report_has_duration_exactly_for_lasting_actions(a: ModAction)
    ensures
        (exists|i: int| 0 <= i < embed_fields(a).len() && #[trigger] embed_fields(a)[i].0 == "Duration"@) <==> (
        a.action == ActionKind::Ban || a.action == ActionKind::Mute),
        (a.action == ActionKind::Ban || a.action == ActionKind::Mute) ==> embed_fields(a)[4] == (
            "Duration"@,
            match a.duration {
                Some(d) => humantime_text(d.secs, d.nanos),
                None => "Indefinite"@,
            },
        ),
{
    reveal_strlit("Duration");
    reveal_strlit("User");
    reveal_strlit("Reason");
    reveal_strlit("Moderator");
    reveal_strlit("Channel");
    reveal_strlit("In response to");
    let f = embed_fields(a);
    if !(a.action == ActionKind::Ban || a.action == ActionKind::Mute) {
        assert forall|i: int| 0 <= i < f.len() implies #[trigger] f[i].0 != "Duration"@ by {
            assert(f[i].0.len() != "Duration"@.len() || f[i].0[0] != 'D');
        }
    } else {
        assert(f[4].0 == "Duration"@);
    }
}

/// The message of a ban asked to delete more than seven days of messages.
pub open spec fn too_many_days_message() -> Seq<char> {
    "Messages can be deleted for at most 7 days."@
}

/// The views of named fields.
pub open spec fn field_views(fs: Seq<(String, String)>) -> Seq<(Seq<char>, Seq<char>)> {
    fs.map_values(|f: (String, String)| (f.0@, f.1@))
}

impl ModAction {
    /// An action of `kind` by `moderator` in `channel` on the member `user` of `guild`,
    /// shown as `user_display`; no reason, span or original message yet.
    pub fn new(
        user: u64,
        user_display: String,
        guild: u64,
        channel: u64,
        moderator: u64,
        kind: ActionKind,
    ) -> (a: ModAction)
        ensures
            a.user == user,
            a.user_display == user_display,
            a.guild == guild,
            a.channel == channel,
            a.moderator == moderator,
            a.action == kind,
            a.reason is None,
            a.original_message is None,
            a.duration is None,
            a.deletion_days is None,
    {
        ModAction {
            user,
            user_display,
            guild,
            action: kind,
            moderator,
            channel,
            reason: None,
            original_message: None,
            duration: None,
            deletion_days: None,
        }
    }

    /// Sets the span of the action.
    pub fn with_duration(self, duration: Option<TimeSpan>) -> (a: ModAction)
        ensures
            a == (ModAction { duration, ..self }),
    {
        ModAction { duration, ..self }
    }

    /// Sets how many days of the user's messages a ban deletes: the days a `-m` option asked
    /// for, refused when more than seven, the most a ban can delete.
    pub fn with_deletion_days(self, days: Option<u64>) -> (r: Result<ModAction, Error>)
        ensures
            match days {
                Some(d) => if d <= 7 {
                    r == Ok::<ModAction, Error>(ModAction { deletion_days: Some(d), ..self })
                } else {
                    r matches Err(e) && e@.message == too_many_days_message() && e@.user_error
                },
                None => r == Ok::<ModAction, Error>(ModAction { deletion_days: None, ..self }),
            },
    {
        match days {
            Some(d) => if d <= 7 {
                Ok(ModAction { deletion_days: Some(d), ..self })
            } else {
                Err(Error::from_err(String::from_str("Messages can be deleted for at most 7 days."), true))
            },
            None => Ok(ModAction { deletion_days: None, ..self }),
        }
    }

    /// Sets the reason for the action.
    pub fn with_reason(self, reason: String) -> (a: ModAction)
        ensures
            a == (ModAction { reason: Some(reason), ..self }),
    {
        ModAction { reason: Some(reason), ..self }
    }

    /// Sets the message the action answers.
    pub fn with_original_message(self, message: u64) -> (a: ModAction)
        ensures
            a == (ModAction { original_message: Some(message), ..self }),
    {
        ModAction { original_message: Some(message), ..self }
    }

    /// The reason for the action, or a notice that none was given.
    pub fn reason(&self) -> (r: &str)
        ensures
            r@ == match self.reason {
                Some(s) => s@,
                None => no_reason_text(),
            },
    {
        match &self.reason {
            Some(r) => r.as_str(),
            None => "No reason specified.",
        }
    }

    /// The guild the action takes place in.
    pub fn guild(&self) -> (g: u64)
        ensures
            g == self.guild,
    {
        self.guild
    }

    /// What carrying out the action does: a soft ban deletes a week of messages, a ban the
    /// days it was given (none by default).
    pub fn step(&self) -> (s: ActStep)
        requires
            self.deletion_days matches Some(d) ==> d <= 7,
        ensures
            s == match self.action {
                ActionKind::Warn => ActStep::Nothing,
                ActionKind::Kick => ActStep::Kick,
                ActionKind::SoftBan => ActStep::BanThenUnban(7),
                ActionKind::Ban => ActStep::Ban(
                    match self.deletion_days {
                        Some(d) => d as u8,
                        None => 0,
                    },
                ),
                ActionKind::Mute => ActStep::Mute,
            },
    {
        match self.action {
            ActionKind::Warn => ActStep::Nothing,
            ActionKind::Kick => ActStep::Kick,
            ActionKind::SoftBan => ActStep::BanThenUnban(7),
            ActionKind::Ban => {
                let d: u64 = match self.deletion_days {
                    Some(d) => d,
                    None => 0,
                };
                ActStep::Ban(d as u8)
            },
            ActionKind::Mute => ActStep::Mute,
        }
    }

    /// The timed action that undoes this one when its span runs out: lifting a ban, or
    /// unmuting. Other actions, and actions without a span, have none.
    pub fn follow_up(&self, now: i128) -> (f: Option<timed::Action>)
        requires
            i128::MIN + timed::ONE_MINUTE_NANOS <= now <= i128::MAX
                - timed::ONE_HUNDREDISH_YEARS_NANOS,
        ensures
            match self.duration {
                Some(d) => match self.action {
                    ActionKind::Ban => f == Some(
                        timed::Action {
                            expiry: (now + timed::clamped_delay(d.secs, d.nanos)) as i128,
                            target_user: self.user,
                            guild: self.guild,
                            kind: timed::ActionKind::Ban,
                        },
                    ),
                    ActionKind::Mute => f == Some(
                        timed::Action {
                            expiry: (now + timed::clamped_delay(d.secs, d.nanos)) as i128,
                            target_user: self.user,
                            guild: self.guild,
                            kind: timed::ActionKind::Mute,
                        },
                    ),
                    _ => f is None,
                },
                None => f is None,
            },
    {
        match self.duration {
            None => None,
            Some(d) => match self.action {
                ActionKind::Ban => Some(timed::Action::unban(self.user, self.guild, now, d.secs, d.nanos)),
                ActionKind::Mute => Some(timed::Action::unmute(self.user, self.guild, now, d.secs, d.nanos)),
                _ => None,
            },
        }
    }

    /// The report of the action for the moderation log.
    pub fn create_embed(&self) -> (e: Embed)
        requires
            self.duration matches Some(d) ==> d.nanos < NANOS_PER_SECOND,
        ensures
            e.color == kind_color(self.action),
            e.title@ == kind_title(self.action),
            field_views(e.fields@) == embed_fields(*self),
    {
        let mut fields: Vec<(String, String)> = Vec::new();
        let mut user = String::new();
        push_str(&mut user, self.user_display.as_str());
        push_str(&mut user, " (");
        push_decimal(&mut user, self.user);
        push_str(&mut user, ")");
        fields.push((String::from_str("User"), user));
        fields.push((String::from_str("Reason"), String::from_str(self.reason())));
        let mut moderator = String::new();
        push_str(&mut moderator, "<@");
        push_decimal(&mut moderator, self.moderator);
        push_str(&mut moderator, ">");
        fields.push((String::from_str("Moderator"), moderator));
        let mut channel = String::new();
        push_str(&mut channel, "<#");
        push_decimal(&mut channel, self.channel);
        push_str(&mut channel, ">");
        fields.push((String::from_str("Channel"), channel));
        if self.action.has_duration() {
            let dur = match self.duration {
                Some(d) => format_span(d.secs, d.nanos),
                None => String::from_str("Indefinite"),
            };
            fields.push((String::from_str("Duration"), dur));
        }
        if let Some(m) = self.original_message {
            let mut url = String::new();
            push_str(&mut url, "https://discord.com/channels/");
            push_decimal(&mut url, self.guild);
            push_str(&mut url, "/");
            push_decimal(&mut url, self.channel);
            push_str(&mut url, "/");
            push_decimal(&mut url, m);
            fields.push((String::from_str("In response to"), url));
        }
        proof {
            reveal_strlit("User");
            reveal_strlit("Reason");
            reveal_strlit("Moderator");
            reveal_strlit("Channel");
            reveal_strlit("Duration");
            reveal_strlit("Indefinite");
            reveal_strlit("In response to");
            assert(field_views(fields@) =~= embed_fields(*self));
        }
        Embed { color: self.action.color(), title: self.action.title_name(), fields }
    }
}

/// A mute needs the guild's mute role to be set.
pub fn require_mute_role(role: Option<u64>) -> (r: Result<u64, Error>)
    ensures
        role matches Some(x) ==> r == Ok::<u64, Error>(x),
        role is None ==> (r matches Err(e) && e@ == failure_view(Failure::NoMuteRoleSet)),
{
    match role {
        Some(x) => Ok(x),
        None => Err(Failure::NoMuteRoleSet.into_error()),
    }
}

/// A report needs the guild's moderation log channel to be set.
pub fn require_mod_channel(channel: Option<u64>) -> (r: Result<u64, Error>)
    ensures
        channel matches Some(x) ==> r == Ok::<u64, Error>(x),
        channel is None ==> (r matches Err(e) && e@ == failure_view(Failure::NoModChannelSet)),
{
    match channel {
        Some(x) => Ok(x),
        None => Err(Failure::NoModChannelSet.into_error()),
    }
}

} // verus!
