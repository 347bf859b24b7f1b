//! The command hooks of the older module system, and its module descriptions.

use vstd::prelude::*;
use crate::config::{ConfigValidatorFn, Value, ValueView, value_views};
use crate::filters::{utf8_len, utf8_len_within};
use crate::text::{decimal, push_decimal, push_str, str_eq, string_views};

verus! {

/// How Rust's `{:?}` writes a list of strings, such as `["admin"]`.
pub uninterp spec fn debug_list_text(items: Seq<Seq<char>>) -> Seq<char>;

/// `format!("{:?}", items)`. How each string is quoted and escaped is not stated; the text
/// depends on the strings alone.
#[verifier::external_body]
fn debug_list(items: &Vec<String>) -> (s: String)
    ensures
        s@ == debug_list_text(string_views(items@)),
{
    format!("{:?}", items)
}

/// Why a hook refused a command.
#[derive(Debug, Clone)]
pub enum HookError {
    /// Refused for no stated reason.
    Denied,
    /// Refused, with the reason.
    DeniedWithReason(String),
    /// The user needs one of these roles (by name).
    NeedRole(Vec<String>),
    /// The command does not exist.
    CommandNotFound(String),
    /// Some lower failure, with its description and whether users may see it.
    Failed { description: String, user_error: bool },
}

/// The text of a hook's refusal.
pub open spec fn hook_error_text(e: HookError) -> Seq<char> {
    match e {
        HookError::Denied => "The action is forbidden."@,
        HookError::DeniedWithReason(r) => "The action is forbidden: "@ + r@,
        HookError::NeedRole(roles) => "You need one of these roles to perform that action: "@
            + debug_list_text(string_views(roles@)),
        HookError::CommandNotFound(_) => "Command not found."@,
        HookError::Failed { description, .. } => "Failed while processing event. "@
            + description@,
    }
}

impl HookError {
    /// The refusal's text.
    pub fn message(&self) -> (s: String)
        ensures
            s@ == hook_error_text(*self),
    {
        let mut s = String::new();
        match self {
            HookError::Denied => push_str(&mut s, "The action is forbidden."),
            HookError::DeniedWithReason(r) => {
                push_str(&mut s, "The action is forbidden: ");
                push_str(&mut s, r.as_str());
            },
            HookError::NeedRole(roles) => {
                push_str(&mut s, "You need one of these roles to perform that action: ");
                let l = debug_list(roles);
                push_str(&mut s, l.as_str());
            },
            HookError::CommandNotFound(_) => push_str(&mut s, "Command not found."),
            HookError::Failed { description, .. } => {
                push_str(&mut s, "Failed while processing event. ");
                push_str(&mut s, description.as_str());
            },
        }
        s
    }

    /// Whether users may see the refusal: all may, but lower failures that are not theirs.
    pub fn is_user_error(&self) -> (b: bool)
        ensures
            b == match *self {
                HookError::Failed { user_error, .. } => user_error,
                _ => true,
            },
    {
        match self {
            HookError::Failed { user_error, .. } => *user_error,
            _ => true,
        }
    }
}

/// The longest message, in bytes, that may be passed to a command.
pub const MAX_COMMAND_INVOCATION_LENGTH: usize = 1500;

/// The reason a too long message is refused.
pub open spec fn too_long_text(len: nat) -> Seq<char> {
    "Argument string was too long ("@ + decimal(len) + " bytes). Must be less than "@
        + decimal(MAX_COMMAND_INVOCATION_LENGTH as nat) + " bytes (not characters)."@
}

/// Refuses messages longer than [`MAX_COMMAND_INVOCATION_LENGTH`] bytes.
pub fn length_hook(content: &str, name: String) -> (r: Result<String, HookError>)
    requires
        utf8_len(content@) <= usize::MAX,
    ensures
        utf8_len(content@) <= MAX_COMMAND_INVOCATION_LENGTH ==> (r matches Ok(n) && n@ == name@),
        utf8_len(content@) > MAX_COMMAND_INVOCATION_LENGTH ==> (r matches Err(
            HookError::DeniedWithReason(m),
        ) && m@ == too_long_text(utf8_len(content@))),
{
    let cs = crate::text::chars_of(content);
    match utf8_len_within(&cs, MAX_COMMAND_INVOCATION_LENGTH) {
        Some(_) => Ok(name),
        None => {
            let len = match utf8_len_within(&cs, usize::MAX) {
                Some(l) => l,
                None => 0,
            };
            let mut m = String::new();
            push_str(&mut m, "Argument string was too long (");
            push_decimal(&mut m, len as u64);
            push_str(&mut m, " bytes). Must be less than ");
            push_decimal(&mut m, MAX_COMMAND_INVOCATION_LENGTH as u64);
            push_str(&mut m, " bytes (not characters).");
            Err(HookError::DeniedWithReason(m))
        },
    }
}

/// Refuses commands sent outside a guild.
pub fn reject_dm_command_hook(guild: Option<u64>, name: String) -> (r: Result<String, HookError>)
    ensures
        guild is Some ==> (r matches Ok(n) && n@ == name@),
        guild is None ==> (r matches Err(HookError::DeniedWithReason(m)) && m@
            == "Commands must be run from inside a guild."@),
{
    match guild {
        Some(_) => Ok(name),
        None => Err(HookError::DeniedWithReason(String::from_str("Commands must be run from inside a guild."))),
    }
}

/// Refuses commands from bots, unless the guild allows them.
pub fn no_bot_hook(bots_allowed: bool, author_is_bot: bool, name: String) -> (r: Result<String, HookError>)
    ensures
        (bots_allowed || !author_is_bot) ==> (r matches Ok(n) && n@ == name@),
        !(bots_allowed || !author_is_bot) ==> (r matches Err(HookError::DeniedWithReason(m)) && m@
            == "Bots are not allowed to issue commands in this server."@),
{
    if bots_allowed || !author_is_bot {
        Ok(name)
    } else {
        Err(
            HookError::DeniedWithReason(
                String::from_str("Bots are not allowed to issue commands in this server."),
            ),
        )
    }
}

/// What the role hook needs to learn next about a command.
#[derive(Debug, Clone, PartialEq, Eq)]
pub enum RoleCheck {
    /// The command may run.
    Allow,
    /// The command is restricted: the author needs the admin role.
    NeedsAdmin,
}

/// The first steps of the role hook: the guild's owner may run anything; other users may run
/// commands that are neither sensitive nor restricted. `module_sensitive` is `None` when the
/// command does not exist.
pub fn role_hook_check(
    author: u64,
    owner: u64,
    module_sensitive: Option<bool>,
    restricted: bool,
) -> (r: Result<RoleCheck, HookError>)
    ensures
        author == owner ==> r == Ok::<RoleCheck, HookError>(RoleCheck::Allow),
        author != owner ==> match module_sensitive {
            None => r matches Err(HookError::DeniedWithReason(m)) && m@ == "No such command."@,
            Some(s) => r == Ok::<RoleCheck, HookError>(
                if s || restricted {
                    RoleCheck::NeedsAdmin
                } else {
                    RoleCheck::Allow
                },
            ),
        },
{
    if author == owner {
        return Ok(RoleCheck::Allow);
    }
    match module_sensitive {
        None => Err(HookError::DeniedWithReason(String::from_str("No such command."))),
        Some(s) => {
            if s || restricted {
                Ok(RoleCheck::NeedsAdmin)
            } else {
                Ok(RoleCheck::Allow)
            }
        },
    }
}

/// The last step of the role hook for a restricted command: admins may run it; others are
/// told the admin role's name, or refused if that role no longer exists.
pub fn role_hook_verdict(is_admin: bool, admin_role_name: Option<String>, name: String) -> (r: Result<String, HookError>)
    ensures
        is_admin ==> (r matches Ok(n) && n@ == name@),
        !is_admin ==> match admin_role_name {
            Some(role) => r matches Err(HookError::NeedRole(roles)) && string_views(roles@) == seq![role@],
            None => r matches Err(HookError::DeniedWithReason(m)) && m@
                == "Not an admin or admin role outdated."@,
        },
{
    if is_admin {
        return Ok(name);
    }
    match admin_role_name {
        Some(role) => {
            let mut roles: Vec<String> = Vec::new();
            roles.push(role);
            assert(string_views(roles@) =~= seq![roles@[0]@]);
            Err(HookError::NeedRole(roles))
        },
        None => Err(HookError::DeniedWithReason(String::from_str("Not an admin or admin role outdated."))),
    }
}

/// The hooks a module of the older system may run before commands.
#[derive(Debug, Clone, Copy, PartialEq, Eq, Structural)]
pub enum CommandHook {
    RejectDm,
    Length,
    NoBot,
    Role,
}

/// A module of the older system: its name, whether it has a command, its hooks, settings,
/// dependencies (by name, each once) and whether its command is restricted by default.
pub struct LegacyModule {
    name: String,
    has_command: bool,
    command_hooks: Vec<CommandHook>,
    config_values: Vec<Value>,
    dependencies: Vec<String>,
    sensitive: bool,
}

/// `names` with `n` added, unless it is there already.
pub open spec fn set_insert(names: Seq<Seq<char>>, n: Seq<char>) -> Seq<Seq<char>> {
    if names.contains(n) {
        names
    } else {
        names.push(n)
    }
}

impl LegacyModule {
    /// The module's name.
    pub closed spec fn spec_name(&self) -> Seq<char> {
        self.name@
    }

    /// The module's dependencies, each once.
    pub closed spec fn deps(&self) -> Seq<Seq<char>> {
        string_views(self.dependencies@)
    }

    /// The module's hooks, in order.
    pub closed spec fn hooks(&self) -> Seq<CommandHook> {
        self.command_hooks@
    }

    /// Whether the module has a command.
    pub closed spec fn spec_has_command(&self) -> bool {
        self.has_command
    }

    /// Whether the module's command is restricted.
    pub closed spec fn spec_sensitive(&self) -> bool {
        self.sensitive
    }

    /// The settings the module registers, in order.
    pub closed spec fn settings(&self) -> Seq<ValueView> {
        value_views(self.config_values@)
    }

    /// A module with the given name, no command, hooks or settings, restricted, and
    /// depending on the base hooks.
    pub fn with_name(name: &str) -> (m: LegacyModule)
        ensures
            m.spec_name() == name@,
            m.deps() == seq!["base_hooks"@],
            m.hooks() == Seq::<CommandHook>::empty(),
            !m.spec_has_command(),
            m.spec_sensitive(),
            m.settings() == Seq::<ValueView>::empty(),
    {
        let mut deps: Vec<String> = Vec::new();
        deps.push(String::from_str("base_hooks"));
        let m = LegacyModule {
            name: String::from_str(name),
            has_command: false,
            command_hooks: Vec::new(),
            config_values: Vec::new(),
            dependencies: deps,
            sensitive: true,
        };
        assert(m.deps() =~= seq!["base_hooks"@]);
        assert(m.settings() =~= Seq::<ValueView>::empty());
        m
    }

    /// Removes all dependencies.
    pub fn clear_dependencies(self) -> (m: LegacyModule)
        ensures
            m.deps() == Seq::<Seq<char>>::empty(),
            m.spec_name() == self.spec_name(),
            m.hooks() == self.hooks(),
            m.spec_has_command() == self.spec_has_command(),
            m.spec_sensitive() == self.spec_sensitive(),
            m.settings() == self.settings(),
    {
        let m = LegacyModule { dependencies: Vec::new(), ..self };
        assert(m.deps() =~= Seq::<Seq<char>>::empty());
        m
    }

    /// Sets whether the module's command is restricted.
    pub fn with_sensitivity(self, is_sensitive: bool) -> (m: LegacyModule)
        ensures
            m.spec_sensitive() == is_sensitive,
            m.spec_name() == self.spec_name(),
            m.deps() == self.deps(),
            m.hooks() == self.hooks(),
            m.spec_has_command() == self.spec_has_command(),
            m.settings() == self.settings(),
    {
        LegacyModule { sensitive: is_sensitive, ..self }
    }

    /// Adds a hook after the others.
    pub fn with_command_hook(self, h: CommandHook) -> (m: LegacyModule)
        ensures
            m.hooks() == self.hooks().push(h),
            m.spec_name() == self.spec_name(),
            m.deps() == self.deps(),
            m.spec_has_command() == self.spec_has_command(),
            m.spec_sensitive() == self.spec_sensitive(),
            m.settings() == self.settings(),
    {
        let mut m = self;
        m.command_hooks.push(h);
        m
    }

    /// Gives the module a command.
    pub fn with_command(self) -> (m: LegacyModule)
        ensures
            m.spec_has_command(),
            m.spec_name() == self.spec_name(),
            m.deps() == self.deps(),
            m.hooks() == self.hooks(),
            m.spec_sensitive() == self.spec_sensitive(),
            m.settings() == self.settings(),
    {
        LegacyModule { has_command: true, ..self }
    }

    /// Adds a setting.
    pub fn with_config_value(self, v: Value) -> (m: LegacyModule)
        ensures
            m.settings() == self.settings().push(v@),
            m.spec_name() == self.spec_name(),
            m.deps() == self.deps(),
            m.hooks() == self.hooks(),
            m.spec_has_command() == self.spec_has_command(),
            m.spec_sensitive() == self.spec_sensitive(),
    {
        let mut m = self;
        let ghost before = m.config_values@;
        m.config_values.push(v);
        assert(value_views(m.config_values@) =~= value_views(before).push(v@));
        m
    }

    /// Adds a dependency, unless it is there already.
    pub fn with_dependency(self, d: &str) -> (m: LegacyModule)
        ensures
            m.deps() == set_insert(self.deps(), d@),
            m.spec_name() == self.spec_name(),
            m.hooks() == self.hooks(),
            m.spec_has_command() == self.spec_has_command(),
            m.spec_sensitive() == self.spec_sensitive(),
            m.settings() == self.settings(),
    {
        let mut m = self;
        let ghost before = string_views(m.dependencies@);
        let mut i: usize = 0;
        while i < m.dependencies.len()
            invariant
                i <= m.dependencies.len(),
                m == self,
                before == string_views(m.dependencies@),
                forall|k: int| 0 <= k < i ==> before[k] != d@,
            decreases m.dependencies.len() - i,
        {
            if str_eq(m.dependencies[i].as_str(), d) {
                assert(before[i as int] == d@);
                return m;
            }
            i = i + 1;
        }
        assert(!before.contains(d@));
        let s = String::from_str(d);
        m.dependencies.push(s);
        assert(string_views(m.dependencies@) =~= before.push(d@));
        m
    }

    /// The module's name.
    pub fn name(&self) -> (n: &str)
        ensures
            n@ == self.spec_name(),
    {
        self.name.as_str()
    }

    /// Whether the module's command is restricted by default.
    pub fn is_sensitive(&self) -> (b: bool)
        ensures
            b == self.spec_sensitive(),
    {
        self.sensitive
    }

    /// The module's dependencies.
    pub fn dependencies(&self) -> (d: &Vec<String>)
        ensures
            string_views(d@) == self.deps(),
    {
        &self.dependencies
    }

    /// The module's hooks, in order.
    pub fn command_hooks(&self) -> (h: &Vec<CommandHook>)
        ensures
            h@ == self.hooks(),
    {
        &self.command_hooks
    }

    /// The module's settings.
    pub fn config_values(&self) -> (v: &Vec<Value>)
        ensures
            value_views(v@) == self.settings(),
    {
        &self.config_values
    }
}

/// The module of the base hooks: refusing commands outside guilds and too long ones, and
/// the command prefix setting. It depends on nothing.
pub fn base_hooks() -> (m: LegacyModule)
    ensures
        m.spec_name() == "base_hooks"@,
        m.hooks() == seq![CommandHook::RejectDm, CommandHook::Length],
        m.settings() == seq![
            ValueView {
                name: "command_prefix"@,
                help: "The single character before a command."@,
                validator: ConfigValidatorFn::CommandPrefix,
                default: Some("!"@),
            },
        ],
        m.deps() == Seq::<Seq<char>>::empty(),
        !m.spec_has_command(),
        m.spec_sensitive(),
{
    let m = LegacyModule::with_name("base_hooks")
        .with_command_hook(CommandHook::RejectDm)
        .with_command_hook(CommandHook::Length)
        .with_config_value(
            Value::new(
                "command_prefix",
                "The single character before a command.",
                ConfigValidatorFn::CommandPrefix,
                Some("!"),
            ),
        )
        .clear_dependencies();
    assert(m.hooks() =~= seq![CommandHook::RejectDm, CommandHook::Length]);
    m
}

/// The module refusing commands from bots where the guild does not allow them.
pub fn deny_bot_mod() -> (m: LegacyModule)
    ensures
        m.spec_name() == "deny_bot"@,
        m.hooks() == seq![CommandHook::NoBot],
        m.settings() == seq![
            ValueView {
                name: "ignore_bots"@,
                help: "Whether or not bots are allowed to send Glimbot commands. Default is false."@,
                validator: ConfigValidatorFn::Bool,
                default: Some("false"@),
            },
        ],
        m.deps() == seq!["base_hooks"@],
        !m.spec_has_command(),
        m.spec_sensitive(),
{
    let m = LegacyModule::with_name("deny_bot")
        .with_config_value(
            Value::new(
                "ignore_bots",
                "Whether or not bots are allowed to send Glimbot commands. Default is false.",
                ConfigValidatorFn::Bool,
                Some("false"),
            ),
        )
        .with_command_hook(CommandHook::NoBot)
        .with_sensitivity(true);
    assert(m.hooks() =~= seq![CommandHook::NoBot]);
    m
}

/// The module of the `ping` command (restricted, as modules are by default).
pub fn ping_module() -> (m: LegacyModule)
    ensures
        m.spec_name() == "ping"@,
        m.spec_has_command(),
        m.spec_sensitive(),
        m.deps() == seq!["base_hooks"@],
        m.hooks() == Seq::<CommandHook>::empty(),
        m.settings() == Seq::<ValueView>::empty(),
{
    LegacyModule::with_name("ping").with_command()
}

/// The module of the `help` command, open to everyone.
pub fn help_module() -> (m: LegacyModule)
    ensures
        m.spec_name() == "help"@,
        m.spec_has_command(),
        !m.spec_sensitive(),
        m.deps() == seq!["base_hooks"@],
        m.hooks() == Seq::<CommandHook>::empty(),
        m.settings() == Seq::<ValueView>::empty(),
{
    LegacyModule::with_name("help").with_command().with_sensitivity(false)
}

/// The module of the `me` command, open to everyone, which needs the roles module.
pub fn me_mod() -> (m: LegacyModule)
    ensures
        m.spec_name() == "me"@,
        m.spec_has_command(),
        !m.spec_sensitive(),
        m.deps() == seq!["base_hooks"@, "roles"@],
        m.hooks() == Seq::<CommandHook>::empty(),
        m.settings() == Seq::<ValueView>::empty(),
{
    let m = LegacyModule::with_name("me").with_command().with_sensitivity(false).with_dependency("roles");
    proof {
        reveal_strlit("base_hooks");
        reveal_strlit("roles");
        assert(!seq!["base_hooks"@].contains("roles"@)) by {
            assert("base_hooks"@ != "roles"@) by {
                assert("base_hooks"@.len() != "roles"@.len());
            }
        }
    }
    assert(m.deps() =~= seq!["base_hooks"@, "roles"@]);
    m
}

/// The module of the `config` command, restricted.
pub fn config_mod() -> (m: LegacyModule)
    ensures
        m.spec_name() == "config"@,
        m.spec_has_command(),
        m.spec_sensitive(),
        m.deps() == seq!["base_hooks"@],
        m.hooks() == Seq::<CommandHook>::empty(),
        m.settings() == Seq::<ValueView>::empty(),
{
    LegacyModule::with_name("config").with_command().with_sensitivity(true)
}

/// The module of the `define` command, open to everyone, with the setting that limits how
/// many definitions are shown; it needs the config module.
pub fn define_mod() -> (m: LegacyModule)
    ensures
        m.spec_name() == "define"@,
        m.spec_has_command(),
        !m.spec_sensitive(),
        m.deps() == seq!["base_hooks"@, "config"@],
        m.hooks() == Seq::<CommandHook>::empty(),
        m.settings() == seq![
            ValueView {
                name: "defines_limit"@,
                help: "The maximum number of definitions to return. Numbers greater than Discord embed limit are treated as Discord embed limit."@,
                validator: ConfigValidatorFn::U64,
                default: Some("10"@),
            },
        ],
{
    let m = LegacyModule::with_name("define")
        .with_sensitivity(false)
        .with_command()
        .with_config_value(
            Value::new(
                "defines_limit",
                "The maximum number of definitions to return. Numbers greater than Discord embed limit are treated as Discord embed limit.",
                ConfigValidatorFn::U64,
                Some("10"),
            ),
        )
        .with_dependency("config");
    proof {
        reveal_strlit("base_hooks");
        reveal_strlit("config");
        assert(!seq!["base_hooks"@].contains("config"@)) by {
            assert("base_hooks"@ != "config"@) by {
                assert("base_hooks"@.len() != "config"@.len());
            }
        }
    }
    assert(m.deps() =~= seq!["base_hooks"@, "config"@]);
    m
}

} // verus!
