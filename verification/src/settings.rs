//! Typed guild settings, and identifiers known to exist in a guild.

use vstd::prelude::*;
use crate::text::{decimal, push_decimal, push_str};

verus! {

/// The kinds of value a guild setting can hold.
#[derive(Debug, Clone, Copy, PartialEq, Eq, Structural)]
pub enum SettingKind {
    Char,
    Bool,
    U64,
    Role,
    Channel,
}

/// Types that guild settings can hold.
pub trait ValueType {
    /// The kind of value.
    spec fn spec_kind() -> SettingKind;

    /// The kind of value.
    fn kind() -> (k: SettingKind)
        ensures
            k == Self::spec_kind(),
    ;
}

impl ValueType for char {
    open spec fn spec_kind() -> SettingKind {
        SettingKind::Char
    }

    fn kind() -> (k: SettingKind) {
        SettingKind::Char
    }
}

impl ValueType for bool {
    open spec fn spec_kind() -> SettingKind {
        SettingKind::Bool
    }

    fn kind() -> (k: SettingKind) {
        SettingKind::Bool
    }
}

impl ValueType for u64 {
    open spec fn spec_kind() -> SettingKind {
        SettingKind::U64
    }

    fn kind() -> (k: SettingKind) {
        SettingKind::U64
    }
}

impl ValueType for VerifiedRole {
    open spec fn spec_kind() -> SettingKind {
        SettingKind::Role
    }

    fn kind() -> (k: SettingKind) {
        SettingKind::Role
    }
}

impl ValueType for VerifiedChannel {
    open spec fn spec_kind() -> SettingKind {
        SettingKind::Channel
    }

    fn kind() -> (k: SettingKind) {
        SettingKind::Channel
    }
}

/// A guild setting of type `T`: its name, its help text and an optional default.
pub struct Value<T> {
    name: &'static str,
    help: &'static str,
    default: Option<T>,
}

/// What a module registers about one of its settings.
#[derive(Debug, Clone, Copy)]
pub struct SettingInfo {
    pub name: &'static str,
    pub help: &'static str,
    pub has_default: bool,
    pub kind: SettingKind,
}

impl<T> Value<T> {
    /// A setting with no default.
    pub fn new(name: &'static str, help: &'static str) -> (v: Value<T>)
        ensures
            v.spec_name() == name@,
            v.spec_help() == help@,
            v.spec_default() is None,
    {
        Value { name, help, default: None }
    }

    /// A setting whose default is `default`.
    pub fn with_default(name: &'static str, help: &'static str, default: T) -> (v: Value<T>)
        ensures
            v.spec_name() == name@,
            v.spec_help() == help@,
            v.spec_default() == Some(default),
    {
        let mut out = Self::new(name, help);
        out.default = Some(default);
        out
    }

    /// The name of the setting.
    pub closed spec fn spec_name(&self) -> Seq<char> {
        self.name@
    }

    /// The help text of the setting.
    pub closed spec fn spec_help(&self) -> Seq<char> {
        self.help@
    }

    /// The default of the setting.
    pub closed spec fn spec_default(&self) -> Option<T> {
        self.default
    }

    /// The name of the setting.
    pub fn name(&self) -> (s: &'static str)
        ensures
            s@ == self.spec_name(),
    {
        self.name
    }

    /// The help text of the setting.
    pub fn help(&self) -> (s: &'static str)
        ensures
            s@ == self.spec_help(),
    {
        self.help
    }

    /// The default of the setting, if any.
    pub fn default_value(&self) -> (d: Option<&T>)
        ensures
            match self.spec_default() {
                Some(x) => d == Some(&x),
                None => d is None,
            },
    {
        self.default.as_ref()
    }

    /// The default a read that finds no value stores: an error when the setting has none.
    pub fn require_default(&self) -> (r: Result<&T, crate::error::Error>)
        ensures
            match self.spec_default() {
                Some(x) => r == Ok::<&T, crate::error::Error>(&x),
                None => r matches Err(e) && e@ == crate::dispatch::failure_view(
                    crate::error::Failure::NoDefaultSpecified,
                ),
            },
    {
        match &self.default {
            Some(x) => Ok(x),
            None => Err(crate::error::Failure::NoDefaultSpecified.into_error()),
        }
    }

}

impl<T: ValueType> Value<T> {
    /// What a module registers about this setting.
    pub fn info(&self) -> (i: SettingInfo)
        ensures
            i.name@ == self.spec_name(),
            i.help@ == self.spec_help(),
            i.has_default == self.spec_default() is Some,
            i.kind == T::spec_kind(),
    {
        SettingInfo { name: self.name, help: self.help, has_default: self.default.is_some(), kind: T::kind() }
    }
}

/// A role known to exist in a guild.
#[derive(Debug, Copy, Clone, PartialEq, Eq, Hash)]
pub struct VerifiedRole(pub u64);

/// The big-endian value of a sequence of bytes.
pub open spec fn be_value(b: Seq<u8>) -> nat
    decreases b.len(),
{
    if b.len() == 0 {
        0
    } else {
        be_value(b.drop_last()) * 256 + (b.last() as nat)
    }
}

impl VerifiedRole {
    /// The role's id.
    pub fn into_inner(self) -> (r: u64)
        ensures
            r == self.0,
    {
        self.0
    }

    /// The id as a signed integer with the same bits, as databases store it.
    pub fn to_i64(&self) -> (r: i64)
        ensures
            r == if self.0 <= i64::MAX {
                self.0 as int
            } else {
                self.0 - 0x1_0000_0000_0000_0000
            },
    {
        let v = self.0;
        if v <= i64::MAX as u64 {
            v as i64
        } else {
            let w: i128 = v as i128 - 0x1_0000_0000_0000_0000i128;
            w as i64
        }
    }

    /// The id's bytes, most significant first.
    pub fn into_be_bytes(self) -> (r: [u8; 8])
        ensures
            r@.len() == 8,
            be_value(r@) == self.0,
    {
        let v = self.0;
        let r = [
            (v >> 56u64) as u8,
            (v >> 48u64) as u8,
            (v >> 40u64) as u8,
            (v >> 32u64) as u8,
            (v >> 24u64) as u8,
            (v >> 16u64) as u8,
            (v >> 8u64) as u8,
            v as u8,
        ];
        proof {
            let b = r@;
            assert(b.len() == 8);
            assert(b.drop_last().drop_last().drop_last().drop_last().drop_last().drop_last().drop_last().drop_last() =~= Seq::<u8>::empty());
            reveal_with_fuel(be_value, 9);
            assert(((v >> 56u64) as u8) as int * 0x100000000000000 + ((v >> 48u64) as u8) as int * 0x1000000000000
                + ((v >> 40u64) as u8) as int * 0x10000000000 + ((v >> 32u64) as u8) as int * 0x100000000
                + ((v >> 24u64) as u8) as int * 0x1000000 + ((v >> 16u64) as u8) as int * 0x10000
                + ((v >> 8u64) as u8) as int * 0x100 + (v as u8) as int == v) by (bit_vector);
        }
        r
    }

    /// The role as a mention: `<@&id>`.
    pub fn to_display_string(&self) -> (s: String)
        ensures
            s@ == "<@&"@ + decimal(self.0 as nat) + ">"@,
    {
        let mut s = String::from_str("<@&");
        push_decimal(&mut s, self.0);
        push_str(&mut s, ">");
        s
    }
}

/// A channel known to exist in a guild.
#[derive(Debug, Copy, Clone, PartialEq, Eq, Hash)]
pub struct VerifiedChannel(pub u64);

impl VerifiedChannel {
    /// Wraps a channel id known to exist.
    pub fn from_known(c: u64) -> (r: VerifiedChannel)
        ensures
            r.0 == c,
    {
        VerifiedChannel(c)
    }

    /// The channel's id.
    pub fn into_inner(self) -> (r: u64)
        ensures
            r == self.0,
    {
        self.0
    }

    /// The channel as a mention: `<#id>`.
    pub fn to_display_string(&self) -> (s: String)
        ensures
            s@ == "<#"@ + decimal(self.0 as nat) + ">"@,
    {
        let mut s = String::from_str("<#");
        push_decimal(&mut s, self.0);
        push_str(&mut s, ">");
        s
    }
}

/// A user known to be a member of a guild.
#[derive(Debug, Copy, Clone, PartialEq, Eq, Hash)]
pub struct VerifiedUser(pub u64);

impl VerifiedUser {
    /// Wraps a user id known to be a member.
    pub fn from_known(u: u64) -> (r: VerifiedUser)
        ensures
            r.0 == u,
    {
        VerifiedUser(u)
    }

    /// The user's id.
    pub fn into_inner(self) -> (r: u64)
        ensures
            r == self.0,
    {
        self.0
    }

    /// The user as a mention: `<@id>`.
    pub fn to_display_string(&self) -> (s: String)
        ensures
            s@ == "<@"@ + decimal(self.0 as nat) + ">"@,
    {
        let mut s = String::from_str("<@");
        push_decimal(&mut s, self.0);
        push_str(&mut s, ">");
        s
    }
}

} // verus!
