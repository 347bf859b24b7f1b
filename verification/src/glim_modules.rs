//! The modules of the older dispatcher: the commands each offers, their arguments and the
//! permissions they need, and the hooks each installs.

use vstd::prelude::*;
use crate::text::str_eq;

verus! {

/// The `SEND_MESSAGES` permission bit.
pub const SEND_MESSAGES: u64 = 0x800;

/// The type of a command argument.
#[derive(Debug, Clone, Copy, PartialEq, Eq, Structural)]
pub enum ArgType {
    Str,
    Int,
}

/// What a command declares: its name, help, argument names, the types of its required and
/// optional arguments, and the permissions it needs.
#[derive(Debug, Clone)]
pub struct CommandSpec {
    pub name: &'static str,
    pub help: Option<&'static str>,
    pub arg_names: Vec<&'static str>,
    pub required: Vec<ArgType>,
    pub optional: Vec<ArgType>,
    pub permissions: u64,
}

/// The events a hook can be installed for.
#[derive(Debug, Clone, Copy, PartialEq, Eq, Structural)]
pub enum EventKind {
    MessageCreate,
    MessageDelete,
    MessageDeleteBulk,
    MessageUpdate,
    Other,
}

/// The kinds of hooks.
#[derive(Debug, Clone, Copy, PartialEq, Eq, Structural)]
pub enum HandlerKind {
    Generic,
    Message,
    Command,
}

/// Which hooks suit which events: new messages take message and command hooks; edited and
/// deleted messages take message hooks; every other event takes generic hooks.
pub open spec fn hook_fits(event: EventKind, handler: HandlerKind) -> bool {
    match event {
        EventKind::MessageCreate => handler == HandlerKind::Message || handler == HandlerKind::Command,
        EventKind::MessageDelete | EventKind::MessageDeleteBulk | EventKind::MessageUpdate => handler
            == HandlerKind::Message,
        EventKind::Other => handler == HandlerKind::Generic,
    }
}

/// How a module makes its default configuration.
#[derive(Debug, Clone, Copy, PartialEq, Eq, Structural)]
pub enum ConfigGen {
    /// An empty configuration.
    Empty,
    /// The bag's configuration.
    Bag,
}

/// A module of the older dispatcher.
pub struct GlimModule {
    name: String,
    commands: Vec<CommandSpec>,
    hooks: Vec<(EventKind, HandlerKind)>,
    create_config: ConfigGen,
    req_permissions: u64,
}

/// The names of commands, in order.
pub open spec fn command_names(cs: Seq<CommandSpec>) -> Seq<Seq<char>> {
    cs.map_values(|c: CommandSpec| c.name@)
}

/// The hook installed for `event`, if any.
pub open spec fn hook_for(hs: Seq<(EventKind, HandlerKind)>, event: EventKind) -> Option<HandlerKind>
    decreases hs.len(),
{
    if hs.len() == 0 {
        None
    } else if hs.last().0 == event {
        Some(hs.last().1)
    } else {
        hook_for(hs.drop_last(), event)
    }
}

/// No two commands share a name.
pub open spec fn unique_commands(cs: Seq<CommandSpec>) -> bool {
    forall|i: int, j: int| 0 <= i < j < cs.len() ==> cs[i].name@ != cs[j].name@
}

impl GlimModule {
    /// The module's name.
    pub closed spec fn spec_name(&self) -> Seq<char> {
        self.name@
    }

    /// The module's commands.
    pub closed spec fn spec_commands(&self) -> Seq<CommandSpec> {
        self.commands@
    }

    /// The module's hooks, in the order they were installed.
    pub closed spec fn spec_hooks(&self) -> Seq<(EventKind, HandlerKind)> {
        self.hooks@
    }

    /// How the module makes its default configuration.
    pub closed spec fn spec_config(&self) -> ConfigGen {
        self.create_config
    }

    /// The permissions the module's commands need together.
    pub closed spec fn spec_permissions(&self) -> u64 {
        self.req_permissions
    }

    /// The module's name.
    pub fn name(&self) -> (n: &str)
        ensures
            n@ == self.spec_name(),
    {
        self.name.as_str()
    }

    /// The module's commands.
    pub fn commands(&self) -> (c: &Vec<CommandSpec>)
        ensures
            c@ == self.spec_commands(),
    {
        &self.commands
    }

    /// The permissions the module's commands need together.
    pub fn required_perms(&self) -> (p: u64)
        ensures
            p == self.spec_permissions(),
    {
        self.req_permissions
    }

    /// The hook installed for `event`, if any.
    pub fn hook(&self, event: EventKind) -> (h: Option<HandlerKind>)
        ensures
            h == hook_for(self.spec_hooks(), event),
    {
        let mut i: usize = self.hooks.len();
        assert(self.hooks@.take(i as int) =~= self.hooks@);
        while i > 0
            invariant
                i <= self.hooks.len(),
                hook_for(self.hooks@, event) == hook_for(self.hooks@.take(i as int), event),
            decreases i,
        {
            assert(self.hooks@.take(i as int).drop_last() =~= self.hooks@.take(i - 1));
            if self.hooks[i - 1].0 == event {
                return Some(self.hooks[i - 1].1);
            }
            i = i - 1;
        }
        assert(self.hooks@.take(0) =~= Seq::<(EventKind, HandlerKind)>::empty());
        None
    }

    /// How the module makes its default configuration.
    pub fn default_config(&self) -> (g: ConfigGen)
        ensures
            g == self.spec_config(),
    {
        self.create_config
    }
}

/// Builds a module of the older dispatcher.
pub struct ModuleBuilder {
    module: GlimModule,
}

impl ModuleBuilder {
    /// The module being built.
    pub closed spec fn spec_module(&self) -> GlimModule {
        self.module
    }

    /// A module with the given name, no commands or hooks, an empty configuration and no
    /// permissions needed.
    pub fn new(name: &str) -> (b: ModuleBuilder)
        ensures
            b.spec_module().spec_name() == name@,
            b.spec_module().spec_commands() == Seq::<CommandSpec>::empty(),
            b.spec_module().spec_hooks() == Seq::<(EventKind, HandlerKind)>::empty(),
            b.spec_module().spec_config() == ConfigGen::Empty,
            b.spec_module().spec_permissions() == 0,
    {
        ModuleBuilder {
            module: GlimModule {
                name: String::from_str(name),
                commands: Vec::new(),
                hooks: Vec::new(),
                create_config: ConfigGen::Empty,
                req_permissions: 0,
            },
        }
    }

    /// Adds a command (replacing one of the same name); the module needs the command's
    /// permissions too.
    pub fn with_command(self, cmd: CommandSpec) -> (b: ModuleBuilder)
        requires
            unique_commands(self.spec_module().spec_commands()),
        ensures
            unique_commands(b.spec_module().spec_commands()),
            !command_names(self.spec_module().spec_commands()).contains(cmd.name@) ==> b.spec_module().spec_commands()
                == self.spec_module().spec_commands().push(cmd),
            command_names(self.spec_module().spec_commands()).contains(cmd.name@) ==> exists|i: int|
                0 <= i < self.spec_module().spec_commands().len()
                    && #[trigger] self.spec_module().spec_commands()[i].name@ == cmd.name@
                    && b.spec_module().spec_commands() == self.spec_module().spec_commands().update(i, cmd),
            b.spec_module().spec_permissions() == self.spec_module().spec_permissions() | cmd.permissions,
            b.spec_module().spec_name() == self.spec_module().spec_name(),
            b.spec_module().spec_hooks() == self.spec_module().spec_hooks(),
            b.spec_module().spec_config() == self.spec_module().spec_config(),
    {
        let mut b = self;
        b.module.req_permissions = b.module.req_permissions | cmd.permissions;
        let ghost cs = b.module.commands@;
        let mut i: usize = 0;
        while i < b.module.commands.len()
            invariant
                i <= b.module.commands.len(),
                b.module.commands@ == cs,
                cs == self.module.commands@,
                unique_commands(cs),
                b.module.name == self.module.name,
                b.module.hooks == self.module.hooks,
                b.module.create_config == self.module.create_config,
                b.module.req_permissions == self.module.req_permissions | cmd.permissions,
                forall|k: int| 0 <= k < i ==> cs[k].name@ != cmd.name@,
            decreases b.module.commands.len() - i,
        {
            if str_eq(b.module.commands[i].name, cmd.name) {
                proof {
                    assert(cs[i as int].name@ == cmd.name@);
                    assert(command_names(cs)[i as int] == cmd.name@);
                }
                b.module.commands.set(i, cmd);
                proof {
                    let after = b.module.commands@;
                    assert forall|x: int, y: int| 0 <= x < y < after.len() implies after[x].name@ != after[y].name@ by {
                        if x != i && y != i {
                            assert(after[x] == cs[x] && after[y] == cs[y]);
                        } else if x == i {
                            assert(after[y] == cs[y]);
                            assert(cs[x].name@ != cs[y].name@);
                        } else {
                            assert(after[x] == cs[x]);
                            assert(cs[x].name@ != cs[y].name@);
                        }
                    }
                    assert(after == cs.update(i as int, cmd));
                }
                return b;
            }
            i = i + 1;
        }
        b.module.commands.push(cmd);
        proof {
            let after = b.module.commands@;
            assert forall|k: int| 0 <= k < command_names(cs).len() implies command_names(cs)[k] != cmd.name@ by {
                assert(command_names(cs)[k] == cs[k].name@);
            }
            assert forall|x: int, y: int| 0 <= x < y < after.len() implies after[x].name@ != after[y].name@ by {
                if y < cs.len() {
                    assert(after[x] == cs[x] && after[y] == cs[y]);
                } else {
                    assert(after[x] == cs[x]);
                }
            }
        }
        b
    }

    /// Sets how the module makes its default configuration.
    pub fn with_default_config_gen(self, conf: ConfigGen) -> (b: ModuleBuilder)
        ensures
            b.spec_module().spec_config() == conf,
            b.spec_module().spec_name() == self.spec_module().spec_name(),
            b.spec_module().spec_commands() == self.spec_module().spec_commands(),
            b.spec_module().spec_hooks() == self.spec_module().spec_hooks(),
            b.spec_module().spec_permissions() == self.spec_module().spec_permissions(),
    {
        let mut b = self;
        b.module.create_config = conf;
        b
    }

    /// Installs a hook for an event, replacing the event's hook if it had one; the hook must
    /// suit the event.
    pub fn with_hook(self, typ: EventKind, hook: HandlerKind) -> (b: ModuleBuilder)
        requires
            hook_fits(typ, hook),
        ensures
            hook_for(b.spec_module().spec_hooks(), typ) == Some(hook),
            forall|e: EventKind| e != typ ==> #[trigger] hook_for(b.spec_module().spec_hooks(), e)
                == hook_for(self.spec_module().spec_hooks(), e),
            b.spec_module().spec_name() == self.spec_module().spec_name(),
            b.spec_module().spec_commands() == self.spec_module().spec_commands(),
            b.spec_module().spec_config() == self.spec_module().spec_config(),
            b.spec_module().spec_permissions() == self.spec_module().spec_permissions(),
    {
        let mut b = self;
        let ghost before = b.module.hooks@;
        b.module.hooks.push((typ, hook));
        proof {
            let after = b.module.hooks@;
            assert(after.drop_last() =~= before);
        }
        b
    }

    /// The module built.
    pub fn build(self) -> (m: GlimModule)
        ensures
            m == self.spec_module(),
    {
        self.module
    }
}

/// Command `c` is named `name`, has help `help` and argument names `args`, takes arguments
/// of types `required` and then optionally `optional`, and needs `SEND_MESSAGES`.
pub open spec fn declares(
    c: CommandSpec,
    name: Seq<char>,
    help: Seq<char>,
    args: Seq<Seq<char>>,
    required: Seq<ArgType>,
    optional: Seq<ArgType>,
) -> bool {
    &&& c.name@ == name
    &&& (c.help matches Some(h) && h@ == help)
    &&& c.arg_names@.map_values(|a: &'static str| a@) == args
    &&& c.required@ == required
    &&& c.optional@ == optional
    &&& c.permissions == SEND_MESSAGES
}

/// A command description with the `SEND_MESSAGES` permission.
fn command(
    name: &'static str,
    help: &'static str,
    arg_names: Vec<&'static str>,
    required: Vec<ArgType>,
    optional: Vec<ArgType>,
) -> (c: CommandSpec)
    ensures
        c.name == name,
        c.help == Some(help),
        c.arg_names@ == arg_names@,
        c.required@ == required@,
        c.optional@ == optional@,
        c.permissions == SEND_MESSAGES,
{
    CommandSpec { name, help: Some(help), arg_names, required, optional, permissions: SEND_MESSAGES }
}

/// The incrementer module: `inc_new`, `inc`, `inc_get`, `inc_list` and `inc_del`.
pub fn incrementer_module() -> (m: GlimModule)
    ensures
        m.spec_name() == "incrementer"@,
        command_names(m.spec_commands()) == seq!["inc_new"@, "inc"@, "inc_get"@, "inc_list"@, "inc_del"@],
        declares(
            m.spec_commands()[0],
            "inc_new"@,
            "Creates a new incrementer with the optional value if given, otherwise 0."@,
            seq!["name"@, "initial_value"@],
            seq![ArgType::Str],
            seq![ArgType::Int],
        ),
        declares(m.spec_commands()[1], "inc"@, "Increments an incrementer."@, seq!["name"@], seq![ArgType::Str], seq![]),
        declares(
            m.spec_commands()[2],
            "inc_get"@,
            "Retrieves the value of an incrementer."@,
            seq!["name"@],
            seq![ArgType::Str],
            seq![],
        ),
        declares(m.spec_commands()[3], "inc_list"@, "Retrieves the names of all incrementers."@, seq![], seq![], seq![]),
        declares(
            m.spec_commands()[4],
            "inc_del"@,
            "Deletes the incrementer with the given name."@,
            seq!["name"@],
            seq![ArgType::Str],
            seq![],
        ),
        m.spec_permissions() == SEND_MESSAGES,
        m.spec_hooks() == Seq::<(EventKind, HandlerKind)>::empty(),
        m.spec_config() == ConfigGen::Empty,
{
    proof {
        reveal_strlit("inc_new");
        reveal_strlit("inc");
        reveal_strlit("inc_get");
        reveal_strlit("inc_list");
        reveal_strlit("inc_del");
    }
    let b = ModuleBuilder::new("incrementer");
    proof {
        assert("inc_new"@.len() == 7 && "inc"@.len() == 3 && "inc_get"@.len() == 7 && "inc_list"@.len() == 8
            && "inc_del"@.len() == 7);
        assert("inc_new"@ != "inc_get"@) by { assert("inc_new"@[4] != "inc_get"@[4]); }
        assert("inc_new"@ != "inc_del"@) by { assert("inc_new"@[4] != "inc_del"@[4]); }
        assert("inc_get"@ != "inc_del"@) by { assert("inc_get"@[4] != "inc_del"@[4]); }
    }
    let b = b.with_command(
        command(
            "inc_new",
            "Creates a new incrementer with the optional value if given, otherwise 0.",
            vec!["name", "initial_value"],
            vec![ArgType::Str],
            vec![ArgType::Int],
        ),
    );
    let b = b.with_command(command("inc", "Increments an incrementer.", vec!["name"], vec![ArgType::Str], vec![]));
    let b = b.with_command(
        command("inc_get", "Retrieves the value of an incrementer.", vec!["name"], vec![ArgType::Str], vec![]),
    );
    let b = b.with_command(
        command("inc_list", "Retrieves the names of all incrementers.", vec![], vec![], vec![]),
    );
    let b = b.with_command(
        command("inc_del", "Deletes the incrementer with the given name.", vec!["name"], vec![ArgType::Str], vec![]),
    );
    let m = b.build();
    assert(SEND_MESSAGES | SEND_MESSAGES == SEND_MESSAGES) by (bit_vector);
    assert((0u64 | SEND_MESSAGES) == SEND_MESSAGES) by (bit_vector);
    assert(command_names(m.spec_commands()) =~= seq!["inc_new"@, "inc"@, "inc_get"@, "inc_list"@, "inc_del"@]);
    let ghost cs = m.spec_commands();
    assert(cs[0].arg_names@.map_values(|a: &'static str| a@) =~= seq!["name"@, "initial_value"@]);
    assert(cs[0].name@ == "inc_new"@);
    assert(cs[0].help matches Some(h) && h@ == "Creates a new incrementer with the optional value if given, otherwise 0."@);
    assert(cs[0].required@ == seq![ArgType::Str]);
    assert(cs[0].optional@ == seq![ArgType::Int]);
    assert(cs[0].permissions == SEND_MESSAGES);
    assert(cs[1].arg_names@.map_values(|a: &'static str| a@) =~= seq!["name"@]);
    assert(cs[2].arg_names@.map_values(|a: &'static str| a@) =~= seq!["name"@]);
    assert(cs[3].arg_names@.map_values(|a: &'static str| a@) =~= Seq::<Seq<char>>::empty());
    assert(cs[4].arg_names@.map_values(|a: &'static str| a@) =~= seq!["name"@]);
    m
}

/// The bag module: `bag_add`, `bag_yeet` and `bag_show`, with the bag's configuration.
pub fn bag_module() -> (m: GlimModule)
    ensures
        m.spec_name() == "bag"@,
        command_names(m.spec_commands()) == seq!["bag_add"@, "bag_yeet"@, "bag_show"@],
        declares(
            m.spec_commands()[0],
            "bag_add"@,
            "Adds an item to the bag (if it's not full)."@,
            seq!["item"@],
            seq![ArgType::Str],
            seq![],
        ),
        declares(
            m.spec_commands()[1],
            "bag_yeet"@,
            "Chucks an item randomly from the bag (if present)."@,
            seq![],
            seq![],
            seq![],
        ),
        declares(m.spec_commands()[2], "bag_show"@, "Shows what's in the bag."@, seq![], seq![], seq![]),
        m.spec_config() == ConfigGen::Bag,
        m.spec_permissions() == SEND_MESSAGES,
        m.spec_hooks() == Seq::<(EventKind, HandlerKind)>::empty(),
{
    proof {
        reveal_strlit("bag_add");
        reveal_strlit("bag_yeet");
        reveal_strlit("bag_show");
    }
    let b = ModuleBuilder::new("bag");
    proof {
        assert("bag_add"@.len() == 7 && "bag_yeet"@.len() == 8 && "bag_show"@.len() == 8);
        assert("bag_yeet"@ != "bag_show"@) by { assert("bag_yeet"@[4] != "bag_show"@[4]); }
    }
    let b = b.with_command(
        command("bag_add", "Adds an item to the bag (if it's not full).", vec!["item"], vec![ArgType::Str], vec![]),
    );
    let b = b.with_command(
        command("bag_yeet", "Chucks an item randomly from the bag (if present).", vec![], vec![], vec![]),
    );
    let b = b.with_command(command("bag_show", "Shows what's in the bag.", vec![], vec![], vec![]));
    let b = b.with_default_config_gen(ConfigGen::Bag);
    let m = b.build();
    assert(SEND_MESSAGES | SEND_MESSAGES == SEND_MESSAGES) by (bit_vector);
    assert((0u64 | SEND_MESSAGES) == SEND_MESSAGES) by (bit_vector);
    assert(command_names(m.spec_commands()) =~= seq!["bag_add"@, "bag_yeet"@, "bag_show"@]);
    let ghost cs = m.spec_commands();
    assert(cs[0].arg_names@.map_values(|a: &'static str| a@) =~= seq!["item"@]);
    assert(cs[0].name@ == "bag_add"@);
    assert(cs[0].help matches Some(h) && h@ == "Adds an item to the bag (if it's not full)."@);
    assert(cs[0].required@ == seq![ArgType::Str] && cs[0].optional@ == Seq::<ArgType>::empty());
    assert(cs[1].arg_names@.map_values(|a: &'static str| a@) =~= Seq::<Seq<char>>::empty());
    assert(cs[2].arg_names@.map_values(|a: &'static str| a@) =~= Seq::<Seq<char>>::empty());
    m
}

/// The dice module: `roll`.
pub fn roll_module() -> (m: GlimModule)
    ensures
        m.spec_name() == "roll"@,
        command_names(m.spec_commands()) == seq!["roll"@],
        m.spec_permissions() == SEND_MESSAGES,
{
    let b = ModuleBuilder::new("roll").with_command(
        command(
            "roll",
            "Rolls a die with expressions like 5d20 and (100 + 5d2) + 6d7",
            vec!["dice"],
            vec![ArgType::Str],
            vec![],
        ),
    );
    let m = b.build();
    assert((0u64 | SEND_MESSAGES) == SEND_MESSAGES) by (bit_vector);
    assert(command_names(m.spec_commands()) =~= seq!["roll"@]);
    m
}

/// The echo module: `echo`, which answers or repeats its one optional argument.
pub fn ping_module() -> (m: GlimModule)
    ensures
        m.spec_name() == "echo"@,
        command_names(m.spec_commands()) == seq!["echo"@],
        m.spec_commands()[0].optional@ == seq![ArgType::Str],
        m.spec_permissions() == SEND_MESSAGES,
{
    let b = ModuleBuilder::new("echo").with_command(
        command(
            "echo",
            "Responds with pong OR echoes the single optional argument.",
            vec!["echo"],
            vec![],
            vec![ArgType::Str],
        ),
    );
    let m = b.build();
    assert((0u64 | SEND_MESSAGES) == SEND_MESSAGES) by (bit_vector);
    assert(command_names(m.spec_commands()) =~= seq!["echo"@]);
    m
}

/// The bot administration module: the owner's `shutdown` command, behind the permission
/// hook.
pub fn bot_admin_module() -> (m: GlimModule)
    ensures
        m.spec_name() == "bot_admin"@,
        command_names(m.spec_commands()) == seq!["shutdown"@],
        hook_for(m.spec_hooks(), EventKind::MessageCreate) == Some(HandlerKind::Command),
        m.spec_permissions() == SEND_MESSAGES,
{
    let b = ModuleBuilder::new("bot_admin").with_hook(EventKind::MessageCreate, HandlerKind::Command);
    let b = b.with_command(
        command("shutdown", "Shuts down the Glimbot instance. Bot-owner-only.", vec![], vec![], vec![]),
    );
    let m = b.build();
    assert((0u64 | SEND_MESSAGES) == SEND_MESSAGES) by (bit_vector);
    assert(command_names(m.spec_commands()) =~= seq!["shutdown"@]);
    m
}

/// The statistics module: a command hook counting commands.
pub fn bot_stats_module() -> (m: GlimModule)
    ensures
        m.spec_name() == "bot_stats"@,
        m.spec_commands() == Seq::<CommandSpec>::empty(),
        hook_for(m.spec_hooks(), EventKind::MessageCreate) == Some(HandlerKind::Command),
{
    ModuleBuilder::new("bot_stats").with_hook(EventKind::MessageCreate, HandlerKind::Command).build()
}

/// The first position at or after `from` whose hook is of kind `kind`, if any.
pub open spec fn next_of_kind(hooks: Seq<HandlerKind>, from: int, kind: HandlerKind) -> Option<int>
    decreases hooks.len() - from,
{
    if from < 0 || from >= hooks.len() {
        None
    } else if hooks[from] == kind {
        Some(from)
    } else {
        next_of_kind(hooks, from + 1, kind)
    }
}

/// The first position at or after `from` whose hook is of kind `kind`, if any.
pub fn next_hook(hooks: &Vec<HandlerKind>, from: usize, kind: HandlerKind) -> (r: Option<usize>)
    ensures
        match next_of_kind(hooks@, from as int, kind) {
            Some(i) => r == Some(i as usize),
            None => r is None,
        },
{
    let mut i = from;
    while i < hooks.len()
        invariant
            from <= i,
            next_of_kind(hooks@, from as int, kind) == next_of_kind(hooks@, i as int, kind),
        decreases hooks.len() - i,
    {
        if hooks[i] == kind {
            return Some(i);
        }
        i = i + 1;
    }
    None
}

/// What a new message's hooks do next.
#[derive(Debug, Clone, Copy, PartialEq, Eq)]
pub enum HookStep {
    /// Run the message hook at this position.
    RunMessageHook(usize),
    /// The message hooks are through: fold the command hooks over the message.
    RunCommandHooks,
    /// A message hook asked to stop: nothing more is done with the message.
    Stop,
}

/// The next step of a new message's hook chain. `last` is the message hook that ran last
/// and whether it asked to stop (`None` before any ran). The message hooks run in order, and
/// the first that asks to stop ends the chain; when none does, the command hooks follow.
pub fn next_hook_step(hooks: &Vec<HandlerKind>, last: Option<(usize, bool)>) -> (s: HookStep)
    ensures
        match last {
            Some((_, true)) => s == HookStep::Stop,
            _ => {
                let from: int = match last {
                    Some((i, _)) => i + 1,
                    None => 0,
                };
                match next_of_kind(hooks@, from, HandlerKind::Message) {
                    Some(j) => s == HookStep::RunMessageHook(j as usize),
                    None => s == HookStep::RunCommandHooks,
                }
            },
        },
{
    let from: usize = match last {
        Some((_, true)) => return HookStep::Stop,
        Some((i, false)) => {
            if i >= hooks.len() {
                proof {
                    assert(next_of_kind(hooks@, i + 1, HandlerKind::Message) is None);
                }
                return HookStep::RunCommandHooks;
            }
            i + 1
        },
        None => 0,
    };
    match next_hook(hooks, from, HandlerKind::Message) {
        Some(j) => HookStep::RunMessageHook(j),
        None => HookStep::RunCommandHooks,
    }
}

/// The positions of the command hooks, in order: the order in which they are folded over a
/// command.
pub open spec fn command_hook_positions(hooks: Seq<HandlerKind>) -> Seq<int>
    decreases hooks.len(),
{
    if hooks.len() == 0 {
        Seq::empty()
    } else if hooks.last() == HandlerKind::Command {
        command_hook_positions(hooks.drop_last()).push(hooks.len() - 1)
    } else {
        command_hook_positions(hooks.drop_last())
    }
}

/// The positions of the command hooks, in order.
pub fn command_hooks(hooks: &Vec<HandlerKind>) -> (v: Vec<usize>)
    ensures
        v@.map_values(|i: usize| i as int) == command_hook_positions(hooks@),
{
    let mut v: Vec<usize> = Vec::new();
    let mut i: usize = 0;
    while i < hooks.len()
        invariant
            i <= hooks.len(),
            v@.map_values(|k: usize| k as int) == command_hook_positions(hooks@.take(i as int)),
        decreases hooks.len() - i,
    {
        assert(hooks@.take(i + 1).drop_last() =~= hooks@.take(i as int));
        if hooks[i] == HandlerKind::Command {
            v.push(i);
        }
        i = i + 1;
        assert(v@.map_values(|k: usize| k as int) =~= command_hook_positions(hooks@.take(i as int)));
    }
    assert(hooks@.take(hooks.len() as int) =~= hooks@);
    v
}

} // verus!
