//! Small commands and records: `info`, `help`, `ping`, `me`, `shutdown`, the bot's
//! configuration, command statistics and the cache's keys.

use vstd::prelude::*;
use crate::dispatch::{Dispatch, command_names, failure_view, module_position};
use crate::error::{Error, Failure};
use crate::filters::no_such_command_view;
use crate::reply::{codeblock, codeblock_safe};
use crate::text::{joined, join_strings, push_str, str_eq, string_views};

verus! {

/// The arguments of the `info` command.
#[derive(Debug, Clone)]
pub struct InfoOpt {
    /// The command to describe; all commands are listed when it is absent.
    pub command: Option<String>,
}

/// The reply of the `info` command: a command's name and description, or the list of
/// commands, in an inline code block.
pub fn info_reply(dis: &Dispatch, opts: &InfoOpt) -> (r: Result<String, Error>)
    requires
        dis.well_formed(),
    ensures
        match opts.command {
            Some(cmd) => match module_position(dis.modules(), cmd@) {
                Some(i) if dis.modules()[i].command => r matches Ok(s) && s@ == "```"@ + cmd@
                    + ": "@ + dis.modules()[i].short_desc@ + "```"@,
                _ => r matches Err(e) && e@ == no_such_command_view(cmd@),
            },
            None => r matches Ok(s) && s@ == "```Available commands: "@ + joined(
                command_names(dis.modules()),
                ", "@,
            ) + "```"@,
        },
{
    match &opts.command {
        Some(cmd) => match dis.command_module(cmd.as_str()) {
            Err(e) => Err(e.into_error()),
            Ok(m) => {
                let mut s = String::new();
                push_str(&mut s, "```");
                push_str(&mut s, cmd.as_str());
                push_str(&mut s, ": ");
                push_str(&mut s, m.short_desc);
                push_str(&mut s, "```");
                Ok(s)
            },
        },
        None => {
            let names = dis.commands();
            let mut owned: Vec<String> = Vec::new();
            let mut i: usize = 0;
            let ghost nv = names@.map_values(|s: &'static str| s@);
            assert(string_views(owned@) =~= nv.take(0));
            while i < names.len()
                invariant
                    i <= names.len(),
                    nv == names@.map_values(|s: &'static str| s@),
                    string_views(owned@) == nv.take(i as int),
                decreases names.len() - i,
            {
                let ghost before = owned@;
                let n = String::from_str(names[i]);
                assert(n@ == nv[i as int]);
                owned.push(n);
                assert(string_views(owned@) =~= string_views(before).push(n@));
                assert(nv.take(i + 1) =~= nv.take(i as int).push(nv[i as int]));
                i = i + 1;
            }
            assert(names@.map_values(|s: &'static str| s@).take(names.len() as int) =~= names@.map_values(|s: &'static str| s@));
            let mut s = String::new();
            push_str(&mut s, "```Available commands: ");
            let list = join_strings(&owned, ", ");
            push_str(&mut s, list.as_str());
            push_str(&mut s, "```");
            Ok(s)
        },
    }
}

/// The most fields a help message holds.
pub const MAX_FIELDS_PER_EMBED: usize = 25;

/// The `help` command: the help of every command, in pages of at most
/// [`MAX_FIELDS_PER_EMBED`] entries, in order.
pub struct Help;

/// `entries` cut into pages of at most `size` entries, in order.
pub open spec fn pages<T>(entries: Seq<T>, size: nat) -> Seq<Seq<T>>
    decreases entries.len(),
{
    if entries.len() == 0 || size == 0 {
        Seq::empty()
    } else if entries.len() <= size {
        seq![entries]
    } else {
        seq![entries.take(size as int)] + pages(entries.skip(size as int), size)
    }
}

/// The entries of the pages, in order.
pub open spec fn flatten_pages<T>(ps: Seq<Seq<T>>) -> Seq<T>
    decreases ps.len(),
{
    if ps.len() == 0 {
        Seq::empty()
    } else {
        ps[0] + flatten_pages(ps.skip(1))
    }
}

/// Cutting entries into pages loses and reorders nothing, and no page is empty or holds
/// more than `size` entries.
pub proof fn pages_partition<T>(entries: Seq<T>, size: nat)
    requires
        size > 0,
    ensures
        flatten_pages(pages(entries, size)) == entries,
        forall|i: int| 0 <= i < pages(entries, size).len() ==> 0 < #[trigger] pages(entries, size)[i].len() <= size,
    decreases entries.len(),
{
    if entries.len() == 0 {
        assert(entries =~= Seq::<T>::empty());
    } else if entries.len() <= size {
        let ps = pages(entries, size);
        assert(ps.skip(1) =~= Seq::<Seq<T>>::empty());
        assert(flatten_pages(ps.skip(1)) == Seq::<T>::empty());
        assert(entries + Seq::<T>::empty() =~= entries);
    } else {
        let rest = entries.skip(size as int);
        pages_partition(rest, size);
        let ps = pages(entries, size);
        assert(ps == seq![entries.take(size as int)] + pages(rest, size));
        assert(ps.skip(1) =~= pages(rest, size));
        assert(entries.take(size as int) + rest =~= entries);
        assert(flatten_pages(ps) == ps[0] + flatten_pages(ps.skip(1)));
        assert forall|i: int| 0 <= i < ps.len() implies 0 < #[trigger] ps[i].len() <= size by {
            if i > 0 {
                assert(ps[i] == pages(rest, size)[i - 1]);
            }
        }
    }
}

impl Help {
    /// The pages of help: the entries cut into pages of at most [`MAX_FIELDS_PER_EMBED`].
    pub fn paginate<T: Copy>(entries: &Vec<T>) -> (r: Vec<Vec<T>>)
        ensures
            r@.map_values(|p: Vec<T>| p@) == pages(entries@, MAX_FIELDS_PER_EMBED as nat),
    {
        let mut out: Vec<Vec<T>> = Vec::new();
        let mut start: usize = 0;
        let ghost all = entries@;
        assert(all.skip(0) =~= all);
        assert(out@.map_values(|p: Vec<T>| p@) + pages(all, MAX_FIELDS_PER_EMBED as nat) =~= pages(all, MAX_FIELDS_PER_EMBED as nat));
        while start < entries.len()
            invariant
                start <= entries.len(),
                all == entries@,
                out@.map_values(|p: Vec<T>| p@) + pages(all.skip(start as int), MAX_FIELDS_PER_EMBED as nat)
                    == pages(all, MAX_FIELDS_PER_EMBED as nat),
            decreases entries.len() - start,
        {
            let end = if entries.len() - start <= MAX_FIELDS_PER_EMBED {
                entries.len()
            } else {
                start + MAX_FIELDS_PER_EMBED
            };
            let mut page: Vec<T> = Vec::new();
            let mut j: usize = start;
            while j < end
                invariant
                    start <= j <= end <= entries.len(),
                    page@ == entries@.subrange(start as int, j as int),
                decreases end - j,
            {
                page.push(entries[j]);
                j = j + 1;
                assert(page@ =~= entries@.subrange(start as int, j as int));
            }
            let ghost rest = all.skip(start as int);
            let ghost before = out@.map_values(|p: Vec<T>| p@);
            proof {
                if rest.len() <= MAX_FIELDS_PER_EMBED {
                    assert(page@ =~= rest);
                    assert(all.skip(end as int) =~= Seq::<T>::empty());
                    assert(pages(rest, MAX_FIELDS_PER_EMBED as nat) == seq![rest]);
                } else {
                    assert(page@ =~= rest.take(MAX_FIELDS_PER_EMBED as int));
                    assert(rest.skip(MAX_FIELDS_PER_EMBED as int) =~= all.skip(end as int));
                }
            }
            out.push(page);
            proof {
                let after = out@.map_values(|p: Vec<T>| p@);
                assert(after =~= before.push(page@));
                if rest.len() <= MAX_FIELDS_PER_EMBED {
                    assert(pages(all.skip(end as int), MAX_FIELDS_PER_EMBED as nat) =~= Seq::<Seq<T>>::empty());
                    assert(after + pages(all.skip(end as int), MAX_FIELDS_PER_EMBED as nat) =~= before + seq![rest]);
                } else {
                    assert(after + pages(all.skip(end as int), MAX_FIELDS_PER_EMBED as nat) =~= before + (seq![page@] + pages(all.skip(end as int), MAX_FIELDS_PER_EMBED as nat)));
                }
            }
            start = end;
        }
        assert(pages(all.skip(start as int), MAX_FIELDS_PER_EMBED as nat) =~= Seq::<Seq<T>>::empty()) by {
            assert(all.skip(start as int).len() == 0);
        }
        assert(out@.map_values(|p: Vec<T>| p@) =~= out@.map_values(|p: Vec<T>| p@) + Seq::<Seq<T>>::empty());
        out
    }
}

/// The `ping` command.
pub struct Ping;

impl Ping {
    /// The reply: what was sent, in a code block, or `Pong!` when nothing was.
    pub fn reply(args: &str) -> (s: String)
        ensures
            args@.len() > 0 ==> s@ == codeblock(args@),
            args@.len() == 0 ==> s@ == "Pong!"@,
    {
        if crate::text::chars_of(args).len() > 0 {
            codeblock_safe(args)
        } else {
            String::from_str("Pong!")
        }
    }
}

/// The `me` command: members joining and leaving joinable roles.
pub struct Me;

/// The error text when a role cannot be joined or left.
pub open spec fn not_joinable_text() -> Seq<char> {
    "That role cannot be joined or left without admin intervention."@
}

impl Me {
    /// The reply after joining or leaving the role `role`, or the refusal when it is not
    /// joinable.
    pub fn reply(joinable: bool, joining: bool, role: &str) -> (r: Result<String, Error>)
        ensures
            !joinable ==> (r matches Err(e) && e@.message == not_joinable_text() && e@.user_error),
            joinable && joining ==> (r matches Ok(s) && s@ == "Joined role "@ + role@),
            joinable && !joining ==> (r matches Ok(s) && s@ == "Left role "@ + role@),
    {
        if !joinable {
            proof { reveal_strlit("That role cannot be joined or left without admin intervention."); }
            return Err(
                Error::from_err(
                    String::from_str("That role cannot be joined or left without admin intervention."),
                    true,
                ),
            );
        }
        let mut s = String::new();
        if joining {
            push_str(&mut s, "Joined role ");
        } else {
            push_str(&mut s, "Left role ");
        }
        push_str(&mut s, role);
        Ok(s)
    }
}

/// The reply to the `shutdown` command.
pub fn shutdown_reply() -> (s: String)
    ensures
        s@ == "Shutting down."@,
{
    String::from_str("Shutting down.")
}

/// A mock raid may only be started by the guild's owner.
pub fn mock_raid_allowed(author: u64, guild_owner: Option<u64>) -> (r: Result<(), Error>)
    ensures
        guild_owner is None ==> (r matches Err(e) && e@ == failure_view(Failure::GuildNotInCache)),
        guild_owner matches Some(o) ==> if o == author {
            r is Ok
        } else {
            r matches Err(e) && e@ == failure_view(Failure::DeputyConfused)
        },
{
    match guild_owner {
        None => Err(Failure::GuildNotInCache.into_error()),
        Some(o) => {
            if o == author {
                Ok(())
            } else {
                Err(Failure::DeputyConfused.into_error())
            }
        },
    }
}

/// The bot's configuration: its token and its owner.
#[derive(Debug, Clone)]
pub struct Config {
    token: String,
    bot_owner: u64,
}

impl Config {
    /// A configuration with the given token and owner.
    pub fn new(token: String, bot_owner: u64) -> (c: Config)
        ensures
            c.spec_token() == token@,
            c.spec_bot_owner() == bot_owner,
    {
        Config { token, bot_owner }
    }

    /// The token.
    pub closed spec fn spec_token(&self) -> Seq<char> {
        self.token@
    }

    /// The owner.
    pub closed spec fn spec_bot_owner(&self) -> u64 {
        self.bot_owner
    }

    /// The bot's token.
    pub fn token(&self) -> (t: &str)
        ensures
            t@ == self.spec_token(),
    {
        self.token.as_str()
    }

    /// The bot's owner.
    pub fn bot_owner(&self) -> (o: u64)
        ensures
            o == self.spec_bot_owner(),
    {
        self.bot_owner
    }
}

/// An error while handling an event, with its text.
#[derive(Debug, Clone)]
pub enum EventError {
    Other(String),
}

/// An internal error, with the description of its cause.
#[derive(Debug, Clone)]
pub enum InternalError {
    Other(String),
}

impl EventError {
    /// The error's text.
    pub fn message(&self) -> (s: String)
        ensures
            s@ == match self {
                EventError::Other(m) => "An error occurred: "@ + m@,
            },
    {
        match self {
            EventError::Other(m) => {
                let mut s = String::new();
                push_str(&mut s, "An error occurred: ");
                push_str(&mut s, m.as_str());
                s
            },
        }
    }
}

impl InternalError {
    /// The error's text.
    pub fn message(&self) -> (s: String)
        ensures
            s@ == match self {
                InternalError::Other(m) => "An error occurred: "@ + m@,
            },
    {
        match self {
            InternalError::Other(m) => {
                let mut s = String::new();
                push_str(&mut s, "An error occurred: ");
                push_str(&mut s, m.as_str());
                s
            },
        }
    }
}

/// How often one command was used.
#[derive(Debug, Clone, Copy)]
pub struct CommandStats {
    times_used: u64,
}

impl CommandStats {
    /// A command not used yet.
    pub fn new() -> (s: CommandStats)
        ensures
            s.uses() == 0,
    {
        CommandStats { times_used: 0 }
    }

    /// The number of uses.
    pub closed spec fn uses(&self) -> u64 {
        self.times_used
    }

    /// Counts a use (wrapping around) and gives the count before it.
    pub fn incr(&mut self) -> (prev: u64)
        ensures
            prev == old(self).uses(),
            final(self).uses() == if old(self).uses() == u64::MAX {
                0
            } else {
                (old(self).uses() + 1) as u64
            },
    {
        let prev = self.times_used;
        self.times_used = self.times_used.wrapping_add(1);
        prev
    }
}

/// How often each command was used in a guild.
#[derive(Debug, Clone)]
pub struct GuildStats {
    commands_used: Vec<(String, CommandStats)>,
}

/// The uses of `cmd` recorded in `entries`, if any.
pub open spec fn uses_of(entries: Seq<(String, CommandStats)>, cmd: Seq<char>) -> Option<u64>
    decreases entries.len(),
{
    if entries.len() == 0 {
        None
    } else if entries.last().0@ == cmd {
        Some(entries.last().1.uses())
    } else {
        uses_of(entries.drop_last(), cmd)
    }
}

impl GuildStats {
    /// No command used yet.
    pub fn new() -> (s: GuildStats)
        ensures
            forall|c: Seq<char>| s.count(c) is None,
    {
        GuildStats { commands_used: Vec::new() }
    }

    /// The uses of `cmd`, if it was ever used.
    pub closed spec fn count(&self, cmd: Seq<char>) -> Option<u64> {
        uses_of(self.commands_used@, cmd)
    }

    /// Counts a use of `cmd` and gives the number of uses so far.
    pub fn add_usage(&mut self, cmd: &str) -> (n: u64)
        requires
            match old(self).count(cmd@) {
                Some(c) => c < u64::MAX,
                None => true,
            },
        ensures
            n == match old(self).count(cmd@) {
                Some(c) => c + 1,
                None => 1,
            },
            final(self).count(cmd@) == Some(n),
            forall|c: Seq<char>| c != cmd@ ==> #[trigger] final(self).count(c) == old(self).count(c),
    {
        let mut i: usize = self.commands_used.len();
        while i > 0
            invariant
                i <= self.commands_used.len(),
                self.commands_used@ == old(self).commands_used@,
                forall|k: int| i <= k < self.commands_used@.len() ==> self.commands_used@[k].0@ != cmd@,
                match uses_of(old(self).commands_used@, cmd@) {
                    Some(c) => c < u64::MAX,
                    None => true,
                },
            decreases i,
        {
            if str_eq(self.commands_used[i - 1].0.as_str(), cmd) {
                let ghost before = self.commands_used@;
                proof {
                    lemma_uses_prefix(before, i as int, cmd@);
                    assert(before.take(i as int).last() == before[i - 1]);
                    assert(before[i - 1].0@ == cmd@);
                    assert(uses_of(before.take(i as int), cmd@) == Some(before[i - 1].1.uses()));
                }
                let mut entry = self.commands_used.remove(i - 1);
                assert(entry == before[i - 1]);
                let prev = entry.1.incr();
                self.commands_used.insert(i - 1, entry);
                proof {
                    let after = self.commands_used@;
                    assert(after =~= before.update(i - 1, entry));
                    lemma_update_last_match(before, (i - 1) as int, entry, cmd@);
                    assert forall|c: Seq<char>| c != cmd@ implies #[trigger] uses_of(after, c) == uses_of(before, c) by {
                        lemma_update_same_name(before, (i - 1) as int, entry, c);
                    }
                }
                return prev + 1;
            }
            i = i - 1;
        }
        proof {
            lemma_uses_prefix(self.commands_used@, 0, cmd@);
            assert(self.commands_used@.take(0) =~= Seq::<(String, CommandStats)>::empty());
        }
        let mut stats = CommandStats::new();
        let prev = stats.incr();
        let name = String::from_str(cmd);
        self.commands_used.push((name, stats));
        proof {
            let after = self.commands_used@;
            assert(after.drop_last() =~= old(self).commands_used@);
        }
        prev + 1
    }
}

proof fn lemma_uses_prefix(entries: Seq<(String, CommandStats)>, i: int, cmd: Seq<char>)
    requires
        0 <= i <= entries.len(),
        forall|k: int| i <= k < entries.len() ==> entries[k].0@ != cmd,
    ensures
        uses_of(entries, cmd) == uses_of(entries.take(i), cmd),
    decreases entries.len() - i,
{
    if i < entries.len() {
        let d = entries.drop_last();
        lemma_uses_prefix(d, i, cmd);
        assert(d.take(i) =~= entries.take(i));
    } else {
        assert(entries.take(i) =~= entries);
    }
}

proof fn lemma_update_same_name(
    entries: Seq<(String, CommandStats)>,
    i: int,
    e: (String, CommandStats),
    c: Seq<char>,
)
    requires
        0 <= i < entries.len(),
        e.0@ == entries[i].0@,
        c != e.0@,
    ensures
        uses_of(entries.update(i, e), c) == uses_of(entries, c),
    decreases entries.len(),
{
    let u = entries.update(i, e);
    if i < entries.len() - 1 {
        assert(u.drop_last() =~= entries.drop_last().update(i, e));
        lemma_update_same_name(entries.drop_last(), i, e, c);
    } else {
        assert(u.drop_last() =~= entries.drop_last());
    }
}

proof fn lemma_update_last_match(
    entries: Seq<(String, CommandStats)>,
    i: int,
    e: (String, CommandStats),
    cmd: Seq<char>,
)
    requires
        0 <= i < entries.len(),
        e.0@ == cmd,
        forall|k: int| i < k < entries.len() ==> entries[k].0@ != cmd,
    ensures
        uses_of(entries.update(i, e), cmd) == Some(e.1.uses()),
    decreases entries.len(),
{
    let u = entries.update(i, e);
    if i < entries.len() - 1 {
        assert(u.drop_last() =~= entries.drop_last().update(i, e));
        lemma_update_last_match(entries.drop_last(), i, e, cmd);
    }
}

/// A key under which a setting is stored.
pub trait ConfigKey {
    /// The key's text.
    spec fn key_view(&self) -> Seq<char>;

    /// The key as text.
    fn to_key(&self) -> (k: String)
        ensures
            k@ == self.key_view(),
    ;
}

impl ConfigKey for String {
    open spec fn key_view(&self) -> Seq<char> {
        self@
    }

    fn to_key(&self) -> (k: String) {
        self.clone()
    }
}

impl ConfigKey for &str {
    open spec fn key_view(&self) -> Seq<char> {
        (*self)@
    }

    fn to_key(&self) -> (k: String) {
        String::from_str(*self)
    }
}

/// Values the configuration cache can hold.
pub trait Cacheable {}

impl<T> Cacheable for T {}

} // verus!
