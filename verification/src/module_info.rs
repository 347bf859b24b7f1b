//! What a module tells the dispatcher about itself, and the modules glimbot ships.

use vstd::prelude::*;
use crate::sensitivity::Sensitivity;
use crate::settings::{SettingInfo, Value, ValueType, VerifiedChannel, VerifiedRole};

verus! {

/// Information about a module: its name, sensitivity, and which hooks it has.
#[derive(Debug)]
pub struct ModInfo {
    /// The name of the module, which is also the name of its command.
    pub name: &'static str,
    /// A short description of the module.
    pub short_desc: &'static str,
    /// Who may run the module's command.
    pub sensitivity: Sensitivity,
    /// Whether the module filters commands.
    pub does_filtering: bool,
    /// Whether the module has a command.
    pub command: bool,
    /// The settings the module introduces.
    pub config_values: Vec<SettingInfo>,
    /// Whether the module has a hook run at each tick.
    pub on_tick: bool,
    /// Whether the module has a hook run on every message.
    pub on_message: bool,
}

impl ModInfo {
    /// A module with the given name, owner sensitivity, no hooks and no settings.
    pub fn with_name(name: &'static str) -> (m: ModInfo)
        ensures
            m.name@ == name@,
            m.short_desc@ == ""@,
            m.sensitivity == Sensitivity::Owner,
            !m.does_filtering,
            !m.command,
            m.config_values@ == Seq::<SettingInfo>::empty(),
            !m.on_tick,
            !m.on_message,
    {
        ModInfo {
            name,
            short_desc: "",
            sensitivity: Sensitivity::Owner,
            does_filtering: false,
            command: false,
            config_values: Vec::new(),
            on_tick: false,
            on_message: false,
        }
    }

    /// Sets the short description.
    pub fn with_short_desc(self, desc: &'static str) -> (m: ModInfo)
        ensures
            m.short_desc == desc,
            m.name == self.name,
            m.sensitivity == self.sensitivity,
            m.does_filtering == self.does_filtering,
            m.command == self.command,
            m.config_values@ == self.config_values@,
            m.on_tick == self.on_tick,
            m.on_message == self.on_message,
    {
        let mut m = self;
        m.short_desc = desc;
        m
    }

    /// Sets whether the module has a command.
    pub fn with_command(self, command: bool) -> (m: ModInfo)
        ensures
            m.command == command,
            m.name == self.name,
            m.short_desc == self.short_desc,
            m.sensitivity == self.sensitivity,
            m.does_filtering == self.does_filtering,
            m.config_values@ == self.config_values@,
            m.on_tick == self.on_tick,
            m.on_message == self.on_message,
    {
        let mut m = self;
        m.command = command;
        m
    }

    /// Adds a setting to the module.
    pub fn with_config_value<T: ValueType>(self, v: Value<T>) -> (m: ModInfo)
        ensures
            m.config_values@ == self.config_values@.push(
                SettingInfo {
                    name: m.config_values@.last().name,
                    help: m.config_values@.last().help,
                    has_default: v.spec_default() is Some,
                    kind: T::spec_kind(),
                },
            ),
            m.config_values@.last().name@ == v.spec_name(),
            m.config_values@.last().help@ == v.spec_help(),
            m.name == self.name,
            m.short_desc == self.short_desc,
            m.sensitivity == self.sensitivity,
            m.does_filtering == self.does_filtering,
            m.command == self.command,
            m.on_tick == self.on_tick,
            m.on_message == self.on_message,
    {
        let mut m = self;
        m.config_values.push(v.info());
        m
    }

    /// Sets whether the module filters commands.
    pub fn with_filter(self, does_filtering: bool) -> (m: ModInfo)
        ensures
            m.does_filtering == does_filtering,
            m.name == self.name,
            m.short_desc == self.short_desc,
            m.sensitivity == self.sensitivity,
            m.command == self.command,
            m.config_values@ == self.config_values@,
            m.on_tick == self.on_tick,
            m.on_message == self.on_message,
    {
        let mut m = self;
        m.does_filtering = does_filtering;
        m
    }

    /// Sets the module's sensitivity.
    pub fn with_sensitivity(self, s: Sensitivity) -> (m: ModInfo)
        ensures
            m.sensitivity == s,
            m.name == self.name,
            m.short_desc == self.short_desc,
            m.does_filtering == self.does_filtering,
            m.command == self.command,
            m.config_values@ == self.config_values@,
            m.on_tick == self.on_tick,
            m.on_message == self.on_message,
    {
        let mut m = self;
        m.sensitivity = s;
        m
    }

    /// Sets whether the module has a hook run at each tick.
    pub fn with_tick_hook(self, with_hook: bool) -> (m: ModInfo)
        ensures
            m.on_tick == with_hook,
            m.name == self.name,
            m.short_desc == self.short_desc,
            m.sensitivity == self.sensitivity,
            m.does_filtering == self.does_filtering,
            m.command == self.command,
            m.config_values@ == self.config_values@,
            m.on_message == self.on_message,
    {
        let mut m = self;
        m.on_tick = with_hook;
        m
    }

    /// Sets whether the module has a hook run on every message.
    pub fn with_message_hook(self, with_hook: bool) -> (m: ModInfo)
        ensures
            m.on_message == with_hook,
            m.name == self.name,
            m.short_desc == self.short_desc,
            m.sensitivity == self.sensitivity,
            m.does_filtering == self.does_filtering,
            m.command == self.command,
            m.config_values@ == self.config_values@,
            m.on_tick == self.on_tick,
    {
        let mut m = self;
        m.on_message = with_hook;
        m
    }
}

/// Filters out overlong commands and commands sent by bots; owns the `command_prefix` setting.
pub struct BaseFilter;

/// Sets, shows, lists and explains guild settings.
pub struct ConfigModule;

/// Lists commands and describes them.
pub struct HelpModule;

/// Warns, kicks, bans and mutes users.
pub struct ModerationModule;

/// Reserves owner-sensitivity commands for the bot owner.
pub struct OwnerFilter;

/// Reserves high-sensitivity commands for the guild owner and the privileged role.
pub struct PrivilegeFilter;

/// Lets users join and leave joinable roles.
pub struct RoleModule;

/// Lets moderators assign roles and make roles joinable.
pub struct ModRoleModule;

/// Shuts the bot down.
pub struct Shutdown;

/// Reports the bot's status.
pub struct StatusModule;

/// Replays a burst of generated messages, for load testing.
pub struct MockRaidModule;

/// The name of the setting holding the command prefix.
pub const COMMAND_PREFIX_KEY: &'static str = "command_prefix";
/// The name of the setting holding the moderation log channel.
pub const MOD_CHANNEL: &'static str = "mod_log_channel";
/// The name of the setting holding the mute role.
pub const MUTE_ROLE: &'static str = "mute_role";
/// The name of the setting holding the privileged role.
pub const PRIV_NAME: &'static str = "privileged_role";

impl BaseFilter {
    /// The module's information.
    pub fn info() -> (m: ModInfo)
        ensures
            m.name@ == "base-filter"@,
            m.does_filtering,
            !m.command,
            m.sensitivity == Sensitivity::Low,
            m.config_values@.len() == 1,
            m.config_values@[0].name@ == "command_prefix"@,
            m.config_values@[0].has_default,
    {
        ModInfo::with_name("base-filter").with_filter(true).with_sensitivity(
            Sensitivity::Low,
        ).with_config_value(
            Value::<char>::with_default(
                "command_prefix",
                "A single character which will precede commands.",
                '!',
            ),
        )
    }
}

impl ConfigModule {
    /// The module's information.
    pub fn info() -> (m: ModInfo)
        ensures
            m.name@ == "config"@,
            m.command,
            !m.does_filtering,
            m.sensitivity == Sensitivity::High,
            m.config_values@.len() == 0,
    {
        ModInfo::with_name("config").with_command(true).with_sensitivity(Sensitivity::High)
    }
}

impl HelpModule {
    /// The module's information.
    pub fn info() -> (m: ModInfo)
        ensures
            m.name@ == "info"@,
            m.short_desc@ == "get information about available commands."@,
            m.command,
            !m.does_filtering,
            m.sensitivity == Sensitivity::Low,
            m.config_values@.len() == 0,
    {
        ModInfo::with_name("info").with_short_desc(
            "get information about available commands.",
        ).with_command(true).with_sensitivity(Sensitivity::Low)
    }
}

impl ModerationModule {
    /// The module's information.
    pub fn info() -> (m: ModInfo)
        ensures
            m.name@ == "mod"@,
            m.command,
            !m.does_filtering,
            m.sensitivity == Sensitivity::High,
            m.config_values@.len() == 2,
            m.config_values@[0].name@ == "mod_log_channel"@,
            m.config_values@[1].name@ == "mute_role"@,
    {
        ModInfo::with_name("mod").with_sensitivity(Sensitivity::High).with_command(
            true,
        ).with_config_value(
            Value::<VerifiedChannel>::new("mod_log_channel", "Channel for logging moderation actions."),
        ).with_config_value(Value::<VerifiedRole>::new("mute_role", "Role to assign to muted users."))
    }
}

impl OwnerFilter {
    /// The module's information.
    pub fn info() -> (m: ModInfo)
        ensures
            m.name@ == "owner-check"@,
            m.does_filtering,
            !m.command,
            m.sensitivity == Sensitivity::Low,
            m.config_values@.len() == 0,
    {
        ModInfo::with_name("owner-check").with_sensitivity(Sensitivity::Low).with_filter(true)
    }
}

impl PrivilegeFilter {
    /// The module's information.
    pub fn info() -> (m: ModInfo)
        ensures
            m.name@ == "privilege-check"@,
            m.does_filtering,
            !m.command,
            m.sensitivity == Sensitivity::High,
            m.config_values@.len() == 1,
            m.config_values@[0].name@ == "privileged_role"@,
    {
        ModInfo::with_name("privilege-check").with_filter(true).with_sensitivity(
            Sensitivity::High,
        ).with_config_value(
            Value::<VerifiedRole>::new(
                "privileged_role",
                "A role which may run commands requiring elevated privilege.",
            ),
        )
    }
}

impl RoleModule {
    /// The module's information.
    pub fn info() -> (m: ModInfo)
        ensures
            m.name@ == "role"@,
            m.short_desc@ == "allows users to self-manage roles."@,
            m.command,
            !m.does_filtering,
            m.sensitivity == Sensitivity::Low,
            m.config_values@.len() == 0,
    {
        ModInfo::with_name("role").with_short_desc("allows users to self-manage roles.").with_sensitivity(
            Sensitivity::Low,
        ).with_filter(false).with_command(true)
    }
}

impl ModRoleModule {
    /// The module's information.
    pub fn info() -> (m: ModInfo)
        ensures
            m.name@ == "mod-role"@,
            m.command,
            !m.does_filtering,
            m.sensitivity == Sensitivity::High,
            m.config_values@.len() == 0,
    {
        ModInfo::with_name("mod-role").with_short_desc(
            "allows moderators to assign/unassign roles, and to make/unmake roles assignable.",
        ).with_command(true).with_sensitivity(Sensitivity::High)
    }
}

/// The older `roles` command, for administering roles.
pub struct RolesCommand;

/// The older `me` command, for users joining and leaving joinable roles.
pub struct MeCommand;

impl RolesCommand {
    /// The module's information: a command that only privileged users may run.
    pub fn info() -> (m: ModInfo)
        ensures
            m.name@ == "roles"@,
            m.command,
            !m.does_filtering,
            m.sensitivity == Sensitivity::High,
            m.config_values@.len() == 0,
    {
        ModInfo::with_name("roles").with_short_desc("administers user roles.").with_sensitivity(
            Sensitivity::High,
        ).with_command(true)
    }
}

impl MeCommand {
    /// The module's information: a command that anyone may run.
    pub fn info() -> (m: ModInfo)
        ensures
            m.name@ == "me"@,
            m.command,
            !m.does_filtering,
            m.sensitivity == Sensitivity::Low,
            m.config_values@.len() == 0,
    {
        ModInfo::with_name("me").with_short_desc("lets users join and leave joinable roles.").with_sensitivity(
            Sensitivity::Low,
        ).with_command(true)
    }
}

impl Shutdown {
    /// The module's information.
    pub fn info() -> (m: ModInfo)
        ensures
            m.name@ == "shutdown"@,
            m.command,
            !m.does_filtering,
            m.sensitivity == Sensitivity::Owner,
            m.config_values@.len() == 0,
    {
        ModInfo::with_name("shutdown").with_short_desc("shuts down glimbot.").with_sensitivity(
            Sensitivity::Owner,
        ).with_command(true)
    }
}

impl StatusModule {
    /// The module's information.
    pub fn info() -> (m: ModInfo)
        ensures
            m.name@ == "bot-status"@,
            m.command,
            m.does_filtering,
            m.sensitivity == Sensitivity::Owner,
            m.config_values@.len() == 0,
    {
        ModInfo::with_name("bot-status").with_filter(true).with_command(true)
    }
}

impl MockRaidModule {
    /// The module's information.
    pub fn info() -> (m: ModInfo)
        ensures
            m.name@ == "mock-raid"@,
            m.command,
            !m.does_filtering,
            m.sensitivity == Sensitivity::Owner,
            m.config_values@.len() == 0,
    {
        ModInfo::with_name("mock-raid").with_short_desc(
            "mocks a raid in this server in glimbot.",
        ).with_sensitivity(Sensitivity::Owner).with_command(true)
    }
}

} // verus!
