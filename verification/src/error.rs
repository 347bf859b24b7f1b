//! Glimbot's error type: a message and whether users may see it.

use vstd::prelude::*;

verus! {

/// A glimbot error. User errors are shown to the user who caused them; other errors are
/// only logged, and the user is told that an internal error occurred.
#[derive(Debug, Clone)]
pub struct Error {
    message: String,
    user_error: bool,
}

/// The abstract content of an [`Error`].
pub struct ErrorView {
    pub message: Seq<char>,
    pub user_error: bool,
}

impl View for Error {
    type V = ErrorView;

    closed spec fn view(&self) -> ErrorView {
        ErrorView { message: self.message@, user_error: self.user_error }
    }
}

impl View for UserError {
    type V = Seq<char>;

    closed spec fn view(&self) -> Seq<char> {
        self.info@
    }
}

impl View for SysError {
    type V = Seq<char>;

    closed spec fn view(&self) -> Seq<char> {
        self.info@
    }
}

impl Error {
    /// An error with the given message, marked as a user error or not.
    pub fn from_err(message: String, user_error: bool) -> (e: Error)
        ensures
            e@.message == message@,
            e@.user_error == user_error,
    {
        Error { message, user_error }
    }

    /// Whether the error should be shown to users as it is.
    pub fn is_user_error(&self) -> (b: bool)
        ensures
            b == self@.user_error,
    {
        self.user_error
    }

    /// The error's message.
    pub fn message(&self) -> (m: &String)
        ensures
            m@ == self@.message,
    {
        &self.message
    }

    /// The text a user is shown for this error.
    pub fn user_facing_text(&self) -> (m: String)
        ensures
            self@.user_error ==> m@ == self@.message,
            !self@.user_error ==> m@ == internal_error_text(),
    {
        if self.user_error {
            self.message.clone()
        } else {
            proof { reveal_strlit("An internal error occurred. If this continues, please contact the bot owner."); }
            String::from_str("An internal error occurred. If this continues, please contact the bot owner.")
        }
    }
}

/// What users see in place of an error that is not theirs.
pub open spec fn internal_error_text() -> Seq<char> {
    "An internal error occurred. If this continues, please contact the bot owner."@
}

/// How loudly a failed result should be logged.
#[derive(Debug, Clone, Copy, PartialEq, Eq)]
pub enum LogLevel {
    Trace,
    Error,
}

/// Decides how a result's error should be logged: user errors at trace level, others as errors.
pub trait LogErrorExt {
    /// The level at which the error should be logged, or `None` when there is no error.
    fn log_error(&self) -> Option<LogLevel>;
}

impl<T> LogErrorExt for Result<T, Error> {
    fn log_error(&self) -> (l: Option<LogLevel>)
        ensures
            match self {
                Ok(_) => l is None,
                Err(e) => l == Some(if e@.user_error { LogLevel::Trace } else { LogLevel::Error }),
            },
    {
        match self {
            Ok(_) => None,
            Err(e) => if e.is_user_error() {
                Some(LogLevel::Trace)
            } else {
                Some(LogLevel::Error)
            },
        }
    }
}

/// An error shown to the user as it is.
#[derive(Debug, Clone)]
pub struct UserError {
    info: String,
}

impl UserError {
    /// A user error with the given text.
    pub fn new(info: &str) -> (e: UserError)
        ensures
            e@ == info@,
    {
        UserError { info: String::from_str(info) }
    }

    /// The text of the error.
    pub fn info(&self) -> (s: &String)
        ensures
            s@ == self@,
    {
        &self.info
    }
}

/// An error meant for the logs only.
#[derive(Debug, Clone)]
pub struct SysError {
    info: String,
}

impl SysError {
    /// A system error with the given text.
    pub fn new(info: &str) -> (e: SysError)
        ensures
            e@ == info@,
    {
        SysError { info: String::from_str(info) }
    }

    /// The text of the error.
    pub fn info(&self) -> (s: &String)
        ensures
            s@ == self@,
    {
        &self.info
    }
}

impl From<UserError> for Error {
    fn from(e: UserError) -> (out: Error)
        ensures
            out@ == (ErrorView { message: e@, user_error: true }),
    {
        Error { message: e.info, user_error: true }
    }
}

impl vstd::std_specs::convert::FromSpecImpl<UserError> for Error {
    open spec fn obeys_from_spec() -> bool {
        true
    }

    closed spec fn from_spec(v: UserError) -> Error {
        Error { message: v.info, user_error: true }
    }
}

impl From<SysError> for Error {
    fn from(e: SysError) -> (out: Error)
        ensures
            out@ == (ErrorView { message: e@, user_error: false }),
    {
        Error { message: e.info, user_error: false }
    }
}

impl vstd::std_specs::convert::FromSpecImpl<SysError> for Error {
    open spec fn obeys_from_spec() -> bool {
        true
    }

    closed spec fn from_spec(v: SysError) -> Error {
        Error { message: v.info, user_error: false }
    }
}

/// Converts results whose error is a message into bot results.
pub trait IntoBotErr<T>: Sized {
    /// Marks the error as a user error.
    fn into_user_err(self) -> Result<T, Error>;
    /// Marks the error as a system error.
    fn into_sys_err(self) -> Result<T, Error>;
}

impl<T> IntoBotErr<T> for Result<T, String> {
    fn into_user_err(self) -> (r: Result<T, Error>)
        ensures
            match self {
                Ok(v) => r == Ok::<T, Error>(v),
                Err(m) => r matches Err(e) && e@.message == m@ && e@.user_error,
            },
    {
        match self {
            Ok(v) => Ok(v),
            Err(m) => Err(Error::from_err(m, true)),
        }
    }

    fn into_sys_err(self) -> (r: Result<T, Error>)
        ensures
            match self {
                Ok(v) => r == Ok::<T, Error>(v),
                Err(m) => r matches Err(e) && e@.message == m@ && !e@.user_error,
            },
    {
        match self {
            Ok(v) => Ok(v),
            Err(m) => Err(Error::from_err(m, false)),
        }
    }
}

/// The failures that glimbot reports with a fixed message.
#[derive(Debug, Clone, Copy, PartialEq, Eq)]
pub enum Failure {
    GuildNotInCache,
    RoleNotInCache,
    InsufficientPermissions,
    DeputyConfused,
    NoSuchRole,
    NoSuchChannel,
    NoSuchUser,
    NoDefaultSpecified,
    NoDMs,
    ExpectedString,
    UnimplementedModule,
    NoBots,
    CommandTooLong,
    MustBeBotOwner,
    TooManyRoles,
    AlreadyJoinable,
    RoleNotSelfAssignable,
    NoModChannelSet,
    NoMuteRoleSet,
    BadCast,
    BadLayout,
}

/// The fixed message of a failure.
pub open spec fn failure_message(f: Failure) -> Seq<char> {
    match f {
        Failure::GuildNotInCache => "Couldn't find guild in cache."@,
        Failure::RoleNotInCache => "Couldn't find role in cache."@,
        Failure::InsufficientPermissions => "You do not have the permissions to run this command."@,
        Failure::DeputyConfused => "Performing that action would confuse the deputy. See https://en.wikipedia.org/wiki/Confused_deputy_problem for an explanation."@,
        Failure::NoSuchRole => "There is no such role in this guild."@,
        Failure::NoSuchChannel => "No such channel in this guild."@,
        Failure::NoSuchUser => "No such user in guild, or two members have the same nickname."@,
        Failure::NoDefaultSpecified => "No default is specified for that value."@,
        Failure::NoDMs => "Glimbot is not designed to respond to DMs."@,
        Failure::ExpectedString => "Expected at least once string to appear in the command."@,
        Failure::UnimplementedModule => "This module hasn't been finished yet."@,
        Failure::NoBots => "Glimbot does not accept command strings from bots."@,
        Failure::CommandTooLong => "Command too long: must be no longer than 1500 UTF-8 code points"@,
        Failure::MustBeBotOwner => "You must be the bot owner to do the specified command."@,
        Failure::TooManyRoles => "Can't add more roles to joinable; you have too many!"@,
        Failure::AlreadyJoinable => "This role is already joinable."@,
        Failure::RoleNotSelfAssignable => "Role is not self-assignable/removable."@,
        Failure::NoModChannelSet => "No mod channel has been set for this guild (mod_log_channel)."@,
        Failure::NoMuteRoleSet => "No mute role has been set for this guild (mute_role)."@,
        Failure::BadCast => "Cache contained a mismatched type."@,
        Failure::BadLayout => "Improper layout seen for type."@,
    }
}

/// Whether a failure is shown to users.
pub open spec fn failure_is_user_error(f: Failure) -> bool {
    !(f == Failure::GuildNotInCache || f == Failure::RoleNotInCache || f == Failure::ExpectedString
        || f == Failure::BadCast || f == Failure::BadLayout)
}

impl Failure {
    /// The failure's fixed message.
    pub fn message(&self) -> (s: String)
        ensures
            s@ == failure_message(*self),
    {
        let t: &str = match self {
            Failure::GuildNotInCache => "Couldn't find guild in cache.",
            Failure::RoleNotInCache => "Couldn't find role in cache.",
            Failure::InsufficientPermissions => "You do not have the permissions to run this command.",
            Failure::DeputyConfused => "Performing that action would confuse the deputy. See https://en.wikipedia.org/wiki/Confused_deputy_problem for an explanation.",
            Failure::NoSuchRole => "There is no such role in this guild.",
            Failure::NoSuchChannel => "No such channel in this guild.",
            Failure::NoSuchUser => "No such user in guild, or two members have the same nickname.",
            Failure::NoDefaultSpecified => "No default is specified for that value.",
            Failure::NoDMs => "Glimbot is not designed to respond to DMs.",
            Failure::ExpectedString => "Expected at least once string to appear in the command.",
            Failure::UnimplementedModule => "This module hasn't been finished yet.",
            Failure::NoBots => "Glimbot does not accept command strings from bots.",
            Failure::CommandTooLong => "Command too long: must be no longer than 1500 UTF-8 code points",
            Failure::MustBeBotOwner => "You must be the bot owner to do the specified command.",
            Failure::TooManyRoles => "Can't add more roles to joinable; you have too many!",
            Failure::AlreadyJoinable => "This role is already joinable.",
            Failure::RoleNotSelfAssignable => "Role is not self-assignable/removable.",
            Failure::NoModChannelSet => "No mod channel has been set for this guild (mod_log_channel).",
            Failure::NoMuteRoleSet => "No mute role has been set for this guild (mute_role).",
            Failure::BadCast => "Cache contained a mismatched type.",
            Failure::BadLayout => "Improper layout seen for type.",
        };
        String::from_str(t)
    }

    /// Whether the failure is shown to users.
    pub fn is_user_error(&self) -> (b: bool)
        ensures
            b == failure_is_user_error(*self),
    {
        !matches!(self, Failure::GuildNotInCache | Failure::RoleNotInCache | Failure::ExpectedString | Failure::BadCast | Failure::BadLayout)
    }
}

impl Failure {
    /// The failure as a glimbot error.
    pub fn into_error(self) -> (out: Error)
        ensures
            out@.message == failure_message(self),
            out@.user_error == failure_is_user_error(self),
    {
        Error { message: self.message(), user_error: self.is_user_error() }
    }
}

/// What glimbot reads of a database error: its SQLSTATE code, the violated constraint and
/// the error's text.
#[derive(Debug, Clone)]
pub struct SqlError {
    pub code: Option<String>,
    pub constraint: Option<String>,
    pub message: String,
}

impl SqlError {
    /// The database error as a glimbot error, which users do not see.
    pub fn into_error(self) -> (e: Error)
        ensures
            e@.message == self.message@,
            !e@.user_error,
    {
        Error::from_err(self.message, false)
    }
}

/// `code` is a SQLSTATE that starts with `prefix`.
pub open spec fn code_starts_with(code: Option<String>, prefix: Seq<char>) -> bool {
    match code {
        Some(c) => c@.len() >= prefix.len() && c@.take(prefix.len() as int) == prefix,
        None => false,
    }
}

/// Questions about the cause of a database error.
pub trait DatabaseError {
    /// The name of the violated constraint, if the error is a constraint violation.
    fn constraint(&self) -> Option<&str>;
    /// Whether the error is a constraint violation (SQLSTATE class 23).
    fn is_constraint(&self) -> bool;
    /// Whether the error is a `UNIQUE` violation (SQLSTATE 23505).
    fn is_unique(&self) -> bool;
    /// Whether the error is a `CHECK` violation (SQLSTATE 23514).
    fn is_check(&self) -> bool;
    /// The SQLSTATE code, if any.
    fn sqlstate(&self) -> Option<&str>;
}

impl DatabaseError for SqlError {
    fn constraint(&self) -> (r: Option<&str>)
        ensures
            match self.constraint {
                Some(c) => r matches Some(x) && x@ == c@,
                None => r is None,
            },
    {
        match &self.constraint {
            Some(c) => Some(c.as_str()),
            None => None,
        }
    }

    fn is_constraint(&self) -> (b: bool)
        ensures
            b == code_starts_with(self.code, "23"@),
    {
        proof { reveal_strlit("23"); }
        match &self.code {
            Some(c) => crate::text::starts_with(c.as_str(), "23"),
            None => false,
        }
    }

    fn is_unique(&self) -> (b: bool)
        ensures
            b == code_starts_with(self.code, "23505"@),
    {
        proof { reveal_strlit("23505"); }
        match &self.code {
            Some(c) => crate::text::starts_with(c.as_str(), "23505"),
            None => false,
        }
    }

    fn is_check(&self) -> (b: bool)
        ensures
            b == code_starts_with(self.code, "23514"@),
    {
        proof { reveal_strlit("23514"); }
        match &self.code {
            Some(c) => crate::text::starts_with(c.as_str(), "23514"),
            None => false,
        }
    }

    fn sqlstate(&self) -> (r: Option<&str>)
        ensures
            match self.code {
                Some(c) => r matches Some(x) && x@ == c@,
                None => r is None,
            },
    {
        match &self.code {
            Some(c) => Some(c.as_str()),
            None => None,
        }
    }
}

/// What glimbot reads of a Discord library error: its kind and its text.
#[derive(Debug, Clone)]
pub enum DiscordFailure {
    /// The message was too long to send.
    MessageTooLong(String),
    /// Discord's model refused the request for another reason.
    Model(String),
    /// Any other failure.
    Other(String),
}

impl DiscordFailure {
    /// The failure as a glimbot error: model refusals are shown to the user, except an
    /// overlong message; other failures are not.
    pub fn into_error(self) -> (e: Error)
        ensures
            match self {
                DiscordFailure::MessageTooLong(m) => e@.message == m@ && !e@.user_error,
                DiscordFailure::Model(m) => e@.message == m@ && e@.user_error,
                DiscordFailure::Other(m) => e@.message == m@ && !e@.user_error,
            },
    {
        match self {
            DiscordFailure::MessageTooLong(m) => Error::from_err(m, false),
            DiscordFailure::Model(m) => Error::from_err(m, true),
            DiscordFailure::Other(m) => Error::from_err(m, false),
        }
    }
}

} // verus!
