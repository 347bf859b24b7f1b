//! Actions that fall due later (lifting a ban, unmuting), and what happens when they fail.

use vstd::prelude::*;
use crate::error::{Error, Failure};
use crate::text::{decimal, push_decimal, push_str};

verus! {

/// Nanoseconds in a second.
pub const NANOS_PER_SECOND: u64 = 1_000_000_000;

/// One minute, in nanoseconds: the shortest delay of a timed action.
pub const ONE_MINUTE_NANOS: i128 = 60_000_000_000;

/// About one hundred years (36500 days), in nanoseconds: the longest delay of a timed action.
pub const ONE_HUNDREDISH_YEARS_NANOS: i128 = 3_153_600_000_000_000_000;

/// The longest span the time library can hold: `i64::MAX` milliseconds, in nanoseconds.
pub const MAX_SPAN_NANOS: i128 = 9_223_372_036_854_775_807_000_000;

/// The kind of action taken when a timed event falls due.
#[derive(Debug, Clone, Copy, PartialEq, Eq, Structural)]
pub enum ActionKind {
    /// A ban is lifted.
    Ban,
    /// A user is unmuted.
    Mute,
    /// A debug message is logged.
    Debug,
}

/// An action to take at `expiry` (nanoseconds since the Unix epoch) on a user of a guild.
#[derive(Debug, Clone, Copy, PartialEq, Eq, Structural)]
pub struct Action {
    pub expiry: i128,
    pub target_user: u64,
    pub guild: u64,
    pub kind: ActionKind,
}

/// The delay, in nanoseconds, for a span of `secs` seconds and `nanos` nanoseconds: a span
/// the time library cannot hold counts as a hundred years, and the result is kept between a
/// minute and a hundred years.
pub open spec fn clamped_delay(secs: u64, nanos: u32) -> int {
    let d = secs * 1_000_000_000 + nanos;
    let held = if d <= MAX_SPAN_NANOS {
        d
    } else {
        ONE_HUNDREDISH_YEARS_NANOS as int
    };
    if held < ONE_MINUTE_NANOS {
        ONE_MINUTE_NANOS as int
    } else if held > ONE_HUNDREDISH_YEARS_NANOS {
        ONE_HUNDREDISH_YEARS_NANOS as int
    } else {
        held
    }
}

/// The delay of a timed action for a span of `secs` seconds and `nanos` nanoseconds (see
/// [`clamped_delay`]).
pub fn delay_nanos(secs: u64, nanos: u32) -> (d: i128)
    ensures
        d == clamped_delay(secs, nanos),
        ONE_MINUTE_NANOS <= d <= ONE_HUNDREDISH_YEARS_NANOS,
{
    let d: i128 = (secs as i128) * 1_000_000_000 + (nanos as i128);
    let held: i128 = if d <= MAX_SPAN_NANOS {
        d
    } else {
        ONE_HUNDREDISH_YEARS_NANOS
    };
    if held < ONE_MINUTE_NANOS {
        ONE_MINUTE_NANOS
    } else if held > ONE_HUNDREDISH_YEARS_NANOS {
        ONE_HUNDREDISH_YEARS_NANOS
    } else {
        held
    }
}

impl Action {
    /// An action on `user` in `guild` at `expiry`.
    pub fn new(user: u64, guild: u64, kind: ActionKind, expiry: i128) -> (a: Action)
        ensures
            a == (Action { expiry, target_user: user, guild, kind }),
    {
        Action { expiry, target_user: user, guild, kind }
    }

    /// An action on `user` in `guild`, falling due a clamped span after `now` (see
    /// [`clamped_delay`]).
    pub fn with_duration(
        user: u64,
        guild: u64,
        kind: ActionKind,
        now: i128,
        secs: u64,
        nanos: u32,
    ) -> (a: Action)
        requires
            i128::MIN + ONE_MINUTE_NANOS <= now <= i128::MAX - ONE_HUNDREDISH_YEARS_NANOS,
        ensures
            a == (Action {
                expiry: (now + clamped_delay(secs, nanos)) as i128,
                target_user: user,
                guild,
                kind,
            }),
    {
        let d = delay_nanos(secs, nanos);
        Action::new(user, guild, kind, now + d)
    }

    /// Lifts the ban on `user` after a clamped span.
    pub fn unban(user: u64, guild: u64, now: i128, secs: u64, nanos: u32) -> (a: Action)
        requires
            i128::MIN + ONE_MINUTE_NANOS <= now <= i128::MAX - ONE_HUNDREDISH_YEARS_NANOS,
        ensures
            a == (Action {
                expiry: (now + clamped_delay(secs, nanos)) as i128,
                target_user: user,
                guild,
                kind: ActionKind::Ban,
            }),
    {
        Action::with_duration(user, guild, ActionKind::Ban, now, secs, nanos)
    }

    /// Unmutes `user` after a clamped span.
    pub fn unmute(user: u64, guild: u64, now: i128, secs: u64, nanos: u32) -> (a: Action)
        requires
            i128::MIN + ONE_MINUTE_NANOS <= now <= i128::MAX - ONE_HUNDREDISH_YEARS_NANOS,
        ensures
            a == (Action {
                expiry: (now + clamped_delay(secs, nanos)) as i128,
                target_user: user,
                guild,
                kind: ActionKind::Mute,
            }),
    {
        Action::with_duration(user, guild, ActionKind::Mute, now, secs, nanos)
    }

    /// A debug action after a clamped span, on the default user and guild.
    pub fn debug(now: i128, secs: u64, nanos: u32) -> (a: Action)
        requires
            i128::MIN + ONE_MINUTE_NANOS <= now <= i128::MAX - ONE_HUNDREDISH_YEARS_NANOS,
        ensures
            a == (Action {
                expiry: (now + clamped_delay(secs, nanos)) as i128,
                target_user: 0,
                guild: 0,
                kind: ActionKind::Debug,
            }),
    {
        Action::with_duration(0, 0, ActionKind::Debug, now, secs, nanos)
    }

    /// The guild the action takes place in.
    pub fn guild(&self) -> (g: u64)
        ensures
            g == self.guild,
    {
        self.guild
    }
}

/// What went wrong while taking a timed action.
#[derive(Debug, Clone)]
pub enum FailureKind {
    /// The target user is not in the guild.
    UserNotInGuild,
    /// No mute role is set.
    NoMuteRole,
    /// Some other failure, with its text.
    SysError(String),
}

/// A timed action that failed, and why.
#[derive(Debug, Clone)]
pub struct ActionFailure {
    pub action: Action,
    pub kind: FailureKind,
}

/// What failed, by the kind of action.
pub open spec fn failure_message_text(kind: ActionKind) -> Seq<char> {
    match kind {
        ActionKind::Ban => "could not unban"@,
        ActionKind::Mute => "could not unmute"@,
        ActionKind::Debug => "could not print debug statement"@,
    }
}

/// Why it failed.
pub open spec fn failure_info_text(f: ActionFailure) -> Seq<char> {
    match f.kind {
        FailureKind::UserNotInGuild => "user "@ + decimal(f.action.target_user as nat)
            + " is not a member of this guild"@,
        FailureKind::NoMuteRole => "guild doesn't have a mute role set"@,
        FailureKind::SysError(s) => s@,
    }
}

/// The text of a glimbot error kept in a failure: its message when it is the user's,
/// otherwise a generic notice.
pub open spec fn kept_error_text(message: Seq<char>, user_error: bool) -> Seq<char> {
    if user_error {
        message
    } else {
        "backend failure"@
    }
}

impl ActionFailure {
    /// A failure of `action` of the given kind.
    pub fn new(action: Action, kind: FailureKind) -> (f: ActionFailure)
        ensures
            f.action == action,
            f.kind == kind,
    {
        ActionFailure { action, kind }
    }

    /// A failure of `action` caused by a glimbot error, which keeps the error's message only
    /// when it is the user's.
    pub fn from_err(action: Action, e: Error) -> (f: ActionFailure)
        ensures
            f.action == action,
            sys_error_text(f) == Some(kept_error_text(e@.message, e@.user_error)),
    {
        let m = if e.is_user_error() {
            e.message().clone()
        } else {
            proof { reveal_strlit("backend failure"); }
            String::from_str("backend failure")
        };
        ActionFailure { action, kind: FailureKind::SysError(m) }
    }

    /// What failed.
    pub fn failure_message(&self) -> (s: &'static str)
        ensures
            s@ == failure_message_text(self.action.kind),
    {
        match self.action.kind {
            ActionKind::Ban => "could not unban",
            ActionKind::Mute => "could not unmute",
            ActionKind::Debug => "could not print debug statement",
        }
    }

    /// Why it failed.
    pub fn failure_info(&self) -> (s: String)
        ensures
            s@ == failure_info_text(*self),
    {
        match &self.kind {
            FailureKind::UserNotInGuild => {
                let mut s = String::new();
                push_str(&mut s, "user ");
                push_decimal(&mut s, self.action.target_user);
                push_str(&mut s, " is not a member of this guild");
                s
            },
            FailureKind::NoMuteRole => {
                proof { reveal_strlit("guild doesn't have a mute role set"); }
                String::from_str("guild doesn't have a mute role set")
            },
            FailureKind::SysError(s) => s.clone(),
        }
    }

    /// The failure as logged: what failed, a colon, and why.
    pub fn describe(&self) -> (s: String)
        ensures
            s@ == failure_message_text(self.action.kind) + ": "@ + failure_info_text(*self),
    {
        let mut s = String::new();
        push_str(&mut s, self.failure_message());
        push_str(&mut s, ": ");
        let info = self.failure_info();
        push_str(&mut s, info.as_str());
        s
    }
}

/// The text of a failure of the `SysError` kind.
pub open spec fn sys_error_text(f: ActionFailure) -> Option<Seq<char>> {
    match f.kind {
        FailureKind::SysError(s) => Some(s@),
        _ => None,
    }
}

/// The first step of unmuting: the guild's mute role, given what reading it gave. A missing
/// role, or a failed read, fails the action.
pub fn unmute_role(action: Action, read: Result<Option<u64>, Error>) -> (r: Result<u64, ActionFailure>)
    ensures
        match read {
            Ok(Some(role)) => r == Ok::<u64, ActionFailure>(role),
            Ok(None) => r matches Err(f) && f.action == action && sys_error_text(f) == Some(
                crate::error::failure_message(Failure::NoMuteRoleSet),
            ),
            Err(e) => r matches Err(f) && f.action == action && sys_error_text(f) == Some(
                kept_error_text(e@.message, e@.user_error),
            ),
        },
{
    match read {
        Ok(Some(role)) => Ok(role),
        Ok(None) => Err(ActionFailure::from_err(action, Failure::NoMuteRoleSet.into_error())),
        Err(e) => Err(ActionFailure::from_err(action, e)),
    }
}

/// The second step of unmuting: whether the member still has the mute role, given the
/// member's roles if the member is in the guild.
pub fn needs_unmute(action: Action, member_roles: Option<&Vec<u64>>, mute_role: u64) -> (r: Result<
    bool,
    ActionFailure,
>)
    ensures
        match member_roles {
            None => r matches Err(f) && f.action == action && f.kind is UserNotInGuild,
            Some(roles) => r == Ok::<bool, ActionFailure>(roles@.contains(mute_role)),
        },
{
    match member_roles {
        None => Err(ActionFailure::new(action, FailureKind::UserNotInGuild)),
        Some(roles) => {
            let mut i: usize = 0;
            while i < roles.len()
                invariant
                    i <= roles.len(),
                    member_roles == Some(roles),
                    forall|k: int| 0 <= k < i ==> roles@[k] != mute_role,
                decreases roles.len() - i,
            {
                if roles[i] == mute_role {
                    assert(roles@[i as int] == mute_role);
                    return Ok(true);
                }
                i = i + 1;
            }
            Ok(false)
        },
    }
}

/// The most timed events taken in one tick.
pub const BATCH_LIMIT: usize = 1024;

/// `SliceRandom::shuffle` with `thread_rng()` of the `rand` crate: the same actions, in a
/// random order.
#[verifier::external_body]
pub(crate) fn shuffle_actions(batch: &mut Vec<Action>)
    ensures
        final(batch)@.to_multiset() == old(batch)@.to_multiset(),
{
    rand::seq::SliceRandom::shuffle(batch.as_mut_slice(), &mut rand::thread_rng());
}

/// The order in which a tick takes its due actions: the same actions, shuffled so that a
/// long run of one guild's actions does not come first.
pub fn order_batch(batch: Vec<Action>) -> (r: Vec<Action>)
    ensures
        r@.to_multiset() == batch@.to_multiset(),
        r@.len() == batch@.len(),
{
    let mut b = batch;
    shuffle_actions(&mut b);
    proof {
        vstd::seq_lib::to_multiset_len::<Action>(b@);
        vstd::seq_lib::to_multiset_len::<Action>(batch@);
    }
    b
}

} // verus!
