//! The older dispatcher: routing parsed commands to the modules that own them, guild
//! configuration files, and the bot administration hooks.

use vstd::prelude::*;
use crate::command::{CommanderError, RawCmd};
use crate::info::GuildStats;
use crate::pattern::{regex_is_match, regex_match};
use crate::text::{decimal, push_decimal, push_str, str_eq, starts_with};

verus! {

/// The pattern of a guild's configuration file name: the guild's id, then `_conf.yaml`.
pub open spec fn guild_file_pattern() -> Seq<char> {
    "^(\\d+)_conf.yaml"@
}

/// Whether a file holds a guild's configuration, by its name (`None` when the path has no
/// file name).
pub fn file_is_guild(file_name: Option<&str>) -> (b: bool)
    ensures
        b == match file_name {
            Some(n) => regex_match(guild_file_pattern(), n@) == Some(true),
            None => false,
        },
{
    match file_name {
        None => false,
        Some(n) => match regex_is_match("^(\\d+)_conf.yaml", n) {
            Some(b) => b,
            None => false,
        },
    }
}

/// Whether a message may hold a command: it starts with the guild's prefix.
pub fn has_prefix(content: &str, prefix: &str) -> (b: bool)
    ensures
        b == (content@.len() >= prefix@.len() && content@.take(prefix@.len() as int) == prefix@),
{
    starts_with(content, prefix)
}

/// Which module owns each command.
pub struct CommandMap {
    entries: Vec<(String, String)>,
}

/// The module that owns `cmd` in `entries`, if any (the last entry for it counts).
pub open spec fn owner_of(entries: Seq<(Seq<char>, Seq<char>)>, cmd: Seq<char>) -> Option<Seq<char>>
    decreases entries.len(),
{
    if entries.len() == 0 {
        None
    } else if entries.last().0 == cmd {
        Some(entries.last().1)
    } else {
        owner_of(entries.drop_last(), cmd)
    }
}

/// Where a parsed command goes.
#[derive(Debug, Clone)]
pub enum Route {
    /// To a module's command, with its arguments.
    Invoke { module: String, command: String, args: Vec<String> },
    /// Nowhere: the user is told there is no such command.
    NoSuchCommand,
    /// The command could not be parsed or was refused.
    Fail(CommanderError),
}

impl CommandMap {
    /// The pairs (command, module), in the order they were added.
    pub closed spec fn pairs(&self) -> Seq<(Seq<char>, Seq<char>)> {
        self.entries@.map_values(|e: (String, String)| (e.0@, e.1@))
    }

    /// No command yet.
    pub fn new() -> (m: CommandMap)
        ensures
            forall|c: Seq<char>| owner_of(m.pairs(), c) is None,
    {
        let m = CommandMap { entries: Vec::new() };
        assert(m.pairs() =~= Seq::<(Seq<char>, Seq<char>)>::empty());
        m
    }

    /// Records that `module` owns each of `commands` (a later module takes a command over).
    pub fn add_module(&mut self, module: &str, commands: &Vec<String>)
        ensures
            forall|c: Seq<char>| #[trigger] owner_of(final(self).pairs(), c) == if commands@.map_values(
                |x: String| x@,
            ).contains(c) {
                Some(module@)
            } else {
                owner_of(old(self).pairs(), c)
            },
    {
        let ghost names = commands@.map_values(|x: String| x@);
        let mut i: usize = 0;
        while i < commands.len()
            invariant
                i <= commands.len(),
                names == commands@.map_values(|x: String| x@),
                forall|c: Seq<char>| #[trigger] owner_of(self.pairs(), c) == if names.take(i as int).contains(c) {
                    Some(module@)
                } else {
                    owner_of(old(self).pairs(), c)
                },
            decreases commands.len() - i,
        {
            let ghost before = self.pairs();
            let cmd = commands[i].clone();
            let m = String::from_str(module);
            assert(cmd@ == names[i as int]);
            self.entries.push((cmd, m));
            proof {
                let after = self.pairs();
                assert(after =~= before.push((names[i as int], module@)));
                assert(after.drop_last() =~= before);
                assert forall|c: Seq<char>| #[trigger] owner_of(after, c) == if names.take(i + 1).contains(c) {
                    Some(module@)
                } else {
                    owner_of(old(self).pairs(), c)
                } by {
                    assert(names.take(i + 1) =~= names.take(i as int).push(names[i as int]));
                    assert(after.last().0 == names[i as int]);
                    if c != names[i as int] {
                        assert(owner_of(after, c) == owner_of(before, c));
                        assert(names.take(i + 1).contains(c) == names.take(i as int).contains(c)) by {
                            let t1 = names.take(i + 1);
                            let t0 = names.take(i as int);
                            if t1.contains(c) {
                                let k = choose|k: int| 0 <= k < t1.len() && #[trigger] t1[k] == c;
                                assert(k < i);
                                assert(t0[k] == c);
                            }
                            if t0.contains(c) {
                                let k = choose|k: int| 0 <= k < t0.len() && #[trigger] t0[k] == c;
                                assert(t1[k] == c);
                            }
                        }
                    } else {
                        assert(names.take(i + 1)[i as int] == c);
                        assert(owner_of(after, c) == Some(module@));
                    }
                }
            }
            i = i + 1;
        }
        assert(names.take(commands.len() as int) =~= names);
    }

    /// The module that owns `cmd`, if any.
    pub fn owner(&self, cmd: &str) -> (r: Option<String>)
        ensures
            match owner_of(self.pairs(), cmd@) {
                Some(m) => r matches Some(x) && x@ == m,
                None => r is None,
            },
    {
        let mut i: usize = self.entries.len();
        assert(self.pairs().take(i as int) =~= self.pairs());
        while i > 0
            invariant
                i <= self.entries.len(),
                owner_of(self.pairs(), cmd@) == owner_of(self.pairs().take(i as int), cmd@),
            decreases i,
        {
            let ghost p = self.pairs().take(i as int);
            assert(p.drop_last() =~= self.pairs().take(i - 1));
            assert(p.last() == (self.entries@[i - 1].0@, self.entries@[i - 1].1@));
            if str_eq(self.entries[i - 1].0.as_str(), cmd) {
                return Some(self.entries[i - 1].1.clone());
            }
            i = i - 1;
        }
        assert(self.pairs().take(0) =~= Seq::<(Seq<char>, Seq<char>)>::empty());
        None
    }

    /// Where a parsed command goes: to the module that owns it, nowhere when none does, and
    /// to the failure when it could not be parsed.
    pub fn route(&self, parsed: Result<RawCmd, CommanderError>) -> (r: Route)
        ensures
            match parsed {
                Err(e) => r == Route::Fail(e),
                Ok(c) => match owner_of(self.pairs(), c.command@) {
                    Some(m) => r matches Route::Invoke { module, command, args } && module@ == m
                        && command == c.command && args == c.args,
                    None => r is NoSuchCommand,
                },
            },
    {
        match parsed {
            Err(e) => Route::Fail(e),
            Ok(c) => match self.owner(c.command.as_str()) {
                Some(m) => Route::Invoke { module: m, command: c.command, args: c.args },
                None => Route::NoSuchCommand,
            },
        }
    }
}

/// The reply when no module owns a command.
pub fn no_such_command_reply() -> (s: String)
    ensures
        s@ == "No such command."@,
{
    String::from_str("No such command.")
}

/// Whether a command is one of the bot owner's: `shutdown` or `cmd_stats`.
pub open spec fn is_admin_command(cmd: Seq<char>) -> bool {
    cmd == "shutdown"@ || cmd == "cmd_stats"@
}

/// The administration hook: the bot owner's commands pass only for one of the owners.
pub fn bot_admin_permission_hook(cmd: RawCmd, author: u64, owners: &Vec<u64>) -> (r: Result<RawCmd, CommanderError>)
    ensures
        is_admin_command(cmd.command@) && !owners@.contains(author) ==> r == Err::<RawCmd, CommanderError>(
            CommanderError::InsufficientUserPerms(author),
        ),
        !(is_admin_command(cmd.command@) && !owners@.contains(author)) ==> (r matches Ok(c) && c
            == cmd),
{
    let admin = str_eq(cmd.command.as_str(), "shutdown") || str_eq(cmd.command.as_str(), "cmd_stats");
    proof {
        reveal_strlit("shutdown");
        reveal_strlit("cmd_stats");
    }
    if !admin {
        return Ok(cmd);
    }
    let mut i: usize = 0;
    while i < owners.len()
        invariant
            i <= owners.len(),
            forall|k: int| 0 <= k < i ==> owners@[k] != author,
        decreases owners.len() - i,
    {
        if owners[i] == author {
            assert(owners@[i as int] == author);
            return Ok(cmd);
        }
        i = i + 1;
    }
    Err(CommanderError::InsufficientUserPerms(author))
}

/// The bot's usage statistics: over all guilds, and per guild.
pub struct AdminState {
    command_stats: GuildStats,
    guild_stats: Vec<(u64, GuildStats)>,
}

/// A guild's count of a command is at most the count over all guilds.
pub open spec fn bounded_by(guild: Option<u64>, total: Option<u64>) -> bool {
    match guild {
        None => true,
        Some(g) => match total {
            Some(t) => g <= t,
            None => false,
        },
    }
}

impl AdminState {
    /// No usage yet.
    pub fn new() -> (s: AdminState)
        ensures
            s.well_formed(),
            forall|c: Seq<char>| s.total(c) is None,
    {
        AdminState { command_stats: GuildStats::new(), guild_stats: Vec::new() }
    }

    /// The uses of `cmd` over all guilds.
    pub closed spec fn total(&self, cmd: Seq<char>) -> Option<u64> {
        self.command_stats.count(cmd)
    }

    /// No guild has used a command more often than all guilds together.
    pub closed spec fn well_formed(&self) -> bool {
        forall|i: int, c: Seq<char>|
            0 <= i < self.guild_stats@.len() ==> bounded_by(
                #[trigger] self.guild_stats@[i].1.count(c),
                self.command_stats.count(c),
            )
    }

    /// Counts a use of `cmd` in `guild`, over all guilds and in the guild; gives the number
    /// of uses over all guilds.
    pub fn record_usage(&mut self, guild: u64, cmd: &str) -> (n: u64)
        requires
            old(self).well_formed(),
            match old(self).total(cmd@) {
                Some(c) => c < u64::MAX,
                None => true,
            },
        ensures
            final(self).well_formed(),
            n == match old(self).total(cmd@) {
                Some(c) => c + 1,
                None => 1,
            },
            final(self).total(cmd@) == Some(n),
            forall|c: Seq<char>| c != cmd@ ==> #[trigger] final(self).total(c) == old(self).total(c),
    {
        let ghost old_total = self.command_stats;
        let n = self.command_stats.add_usage(cmd);
        let mut i: usize = 0;
        while i < self.guild_stats.len()
            invariant
                i <= self.guild_stats.len(),
                self.guild_stats@ == old(self).guild_stats@,
                self.command_stats.count(cmd@) == Some(n),
                n == match old_total.count(cmd@) {
                    Some(c) => c + 1,
                    None => 1,
                },
                old_total == old(self).command_stats,
                forall|c: Seq<char>| c != cmd@ ==> #[trigger] self.command_stats.count(c) == old_total.count(c),
                forall|j: int, c: Seq<char>|
                    0 <= j < self.guild_stats@.len() ==> bounded_by(
                        #[trigger] self.guild_stats@[j].1.count(c),
                        old_total.count(c),
                    ),
            decreases self.guild_stats.len() - i,
        {
            if self.guild_stats[i].0 == guild {
                let ghost before = self.guild_stats@;
                let mut entry = self.guild_stats.remove(i);
                assert(entry == before[i as int]);
                assert(bounded_by(entry.1.count(cmd@), old_total.count(cmd@)));
                let _ = entry.1.add_usage(cmd);
                self.guild_stats.insert(i, entry);
                proof {
                    let after = self.guild_stats@;
                    assert(after =~= before.update(i as int, entry));
                    assert forall|j: int, c: Seq<char>| 0 <= j < after.len() implies bounded_by(
                        #[trigger] after[j].1.count(c),
                        self.command_stats.count(c),
                    ) by {
                        if j != i {
                            assert(after[j] == before[j]);
                            assert(bounded_by(before[j].1.count(c), old_total.count(c)));
                        } else if c != cmd@ {
                            assert(bounded_by(before[j].1.count(c), old_total.count(c)));
                        }
                    }
                }
                return n;
            }
            i = i + 1;
        }
        let mut g = GuildStats::new();
        let _ = g.add_usage(cmd);
        let ghost before = self.guild_stats@;
        self.guild_stats.push((guild, g));
        proof {
            let after = self.guild_stats@;
            assert forall|j: int, c: Seq<char>| 0 <= j < after.len() implies bounded_by(
                #[trigger] after[j].1.count(c),
                self.command_stats.count(c),
            ) by {
                if j < before.len() {
                    assert(after[j] == before[j]);
                    assert(bounded_by(before[j].1.count(c), old_total.count(c)));
                }
            }
        }
        n
    }
}

/// What the older dispatcher keeps per guild: the guild and its command prefix.
#[derive(Debug, Clone)]
pub struct GuildContext {
    pub guild: u64,
    pub command_prefix: String,
}

impl GuildContext {
    /// A guild met for the first time: its prefix is `!`.
    pub fn new(g: u64) -> (c: GuildContext)
        ensures
            c.guild == g,
            c.command_prefix@ == "!"@,
    {
        GuildContext { guild: g, command_prefix: String::from_str("!") }
    }

    /// The name of the file the guild's configuration is kept in.
    pub fn file_name(&self) -> (s: String)
        ensures
            s@ == decimal(self.guild as nat) + "_conf.yaml"@,
    {
        let mut s = String::new();
        push_decimal(&mut s, self.guild);
        push_str(&mut s, "_conf.yaml");
        s
    }
}

/// A guild as the database stores it: its id as a signed integer with the same bits.
#[derive(Debug, Clone, Copy, PartialEq, Eq, Structural)]
pub struct Guild {
    id: i64,
}

impl Guild {
    /// The guild of an id.
    pub fn from_id(gid: u64) -> (g: Guild)
        ensures
            g.gid_spec() == gid,
    {
        let g = Guild { id: gid as i64 };
        assert(gid as i64 as u64 == gid) by (bit_vector);
        g
    }

    /// The id as the database stores it.
    pub closed spec fn stored(&self) -> i64 {
        self.id
    }

    /// The guild's id.
    pub open spec fn gid_spec(&self) -> u64 {
        self.stored() as u64
    }

    /// The guild's id.
    pub fn gid(&self) -> (g: u64)
        ensures
            g == self.gid_spec(),
    {
        self.id as u64
    }
}

/// A named counter of a guild, as the database stores it.
#[derive(Debug, Clone, PartialEq, Eq)]
pub struct Incrementer {
    pub guild_id: i64,
    pub name: String,
    pub count: i64,
}

impl Incrementer {
    /// A counter at zero.
    pub fn new(g: u64, name: String) -> (i: Incrementer)
        ensures
            i.guild_id == g as i64,
            i.name == name,
            i.count == 0,
    {
        Incrementer { guild_id: g as i64, name, count: 0 }
    }

    /// A counter starting at `init`.
    pub fn with_count(g: u64, name: String, init: i64) -> (i: Incrementer)
        ensures
            i.guild_id == g as i64,
            i.name == name,
            i.count == init,
    {
        let mut out = Self::new(g, name);
        out.count = init;
        out
    }
}

/// The guilds the older dispatcher has met, each once.
pub struct Guilds {
    list: Vec<GuildContext>,
}

/// The position of the guild `g` in `gs`, if it is there.
pub open spec fn guild_position(gs: Seq<GuildContext>, g: u64) -> Option<int>
    decreases gs.len(),
{
    if gs.len() == 0 {
        None
    } else if gs.last().guild == g {
        Some(gs.len() - 1)
    } else {
        guild_position(gs.drop_last(), g)
    }
}

impl Guilds {
    /// The guilds met, in the order they were met.
    pub closed spec fn contexts(&self) -> Seq<GuildContext> {
        self.list@
    }

    /// No guild met yet.
    pub fn new() -> (g: Guilds)
        ensures
            g.contexts() == Seq::<GuildContext>::empty(),
    {
        Guilds { list: Vec::new() }
    }

    /// Meets a guild: a guild seen before keeps its context; a new one gets the default
    /// context (prefix `!`) at the end. Gives the context's position and whether the guild
    /// is new (its context must then be written out).
    pub fn encounter(&mut self, g: u64) -> (r: (usize, bool))
        ensures
            match guild_position(old(self).contexts(), g) {
                Some(i) => r == (i as usize, false) && final(self).contexts() == old(self).contexts(),
                None => r == ((old(self).contexts().len()) as usize, true)
                    && final(self).contexts().drop_last() == old(self).contexts()
                    && final(self).contexts().last().guild == g
                    && final(self).contexts().last().command_prefix@ == "!"@,
            },
            r.0 < final(self).contexts().len(),
            final(self).contexts()[r.0 as int].guild == g,
    {
        let mut i: usize = self.list.len();
        assert(self.list@.take(i as int) =~= self.list@);
        while i > 0
            invariant
                i <= self.list.len(),
                self.list@ == old(self).list@,
                guild_position(self.list@, g) == guild_position(self.list@.take(i as int), g),
            decreases i,
        {
            assert(self.list@.take(i as int).drop_last() =~= self.list@.take(i - 1));
            if self.list[i - 1].guild == g {
                return (i - 1, false);
            }
            i = i - 1;
        }
        assert(self.list@.take(0) =~= Seq::<GuildContext>::empty());
        self.list.push(GuildContext::new(g));
        assert(self.list@.drop_last() =~= old(self).list@);
        (self.list.len() - 1, true)
    }

    /// The context at a position.
    pub fn context(&self, i: usize) -> (c: &GuildContext)
        requires
            i < self.contexts().len(),
        ensures
            *c == self.contexts()[i as int],
    {
        &self.list[i]
    }
}

/// The position of the first `true` in `s`, if any.
pub open spec fn first_true(s: Seq<bool>) -> Option<int>
    decreases s.len(),
{
    if s.len() == 0 {
        None
    } else {
        match first_true(s.drop_last()) {
            Some(i) => Some(i),
            None => if s.last() {
                Some(s.len() - 1)
            } else {
                None
            },
        }
    }
}

/// What becomes of a new message in the older dispatcher.
#[derive(Debug, Clone, Copy, PartialEq, Eq)]
pub enum MessageRoute {
    /// The bot's own message: nothing is done with it.
    OwnMessage,
    /// Not sent in a guild: nothing is done with it.
    NoGuild,
    /// The message hook at this position (among the message hooks) asked to stop.
    StoppedAt(usize),
    /// Every message hook let it pass: it goes on to the command hooks.
    Commands,
}

/// Routes a new message: the bot's own messages and messages outside guilds reach no hook;
/// otherwise the message hooks run in order and the first that answers `true` stops the
/// message (`hook_results` holds their answers in order, up to that one at least); when none
/// does, the message goes on to the command hooks.
pub fn message_route(author: u64, bot: u64, in_guild: bool, hook_results: &Vec<bool>) -> (r: MessageRoute)
    ensures
        author == bot ==> r == MessageRoute::OwnMessage,
        author != bot && !in_guild ==> r == MessageRoute::NoGuild,
        author != bot && in_guild ==> match first_true(hook_results@) {
            Some(i) => r == MessageRoute::StoppedAt(i as usize),
            None => r == MessageRoute::Commands,
        },
{
    if author == bot {
        return MessageRoute::OwnMessage;
    }
    if !in_guild {
        return MessageRoute::NoGuild;
    }
    let mut i: usize = 0;
    while i < hook_results.len()
        invariant
            i <= hook_results.len(),
            author != bot,
            in_guild,
            first_true(hook_results@.take(i as int)) is None,
        decreases hook_results.len() - i,
    {
        assert(hook_results@.take(i + 1).drop_last() =~= hook_results@.take(i as int));
        if hook_results[i] {
            proof { lemma_first_true_prefix(hook_results@, i as int); }
            return MessageRoute::StoppedAt(i);
        }
        i = i + 1;
    }
    assert(hook_results@.take(hook_results.len() as int) =~= hook_results@);
    MessageRoute::Commands
}

/// When a prefix of `s` holds no `true` and then `s[i]` is `true`, the first `true` of `s` is
/// at `i`.
proof fn lemma_first_true_prefix(s: Seq<bool>, i: int)
    requires
        0 <= i < s.len(),
        first_true(s.take(i)) is None,
        s[i],
    ensures
        first_true(s) == Some(i),
    decreases s.len(),
{
    if s.len() == i + 1 {
        assert(s.drop_last() =~= s.take(i));
    } else {
        assert(s.drop_last().take(i) =~= s.take(i));
        lemma_first_true_prefix(s.drop_last(), i);
    }
}

} // verus!
