//! The dispatcher's registry of modules and settings, and the decisions it takes on each
//! message before a command runs.

use vstd::prelude::*;
use crate::error::{Error, ErrorView, Failure, failure_message, failure_is_user_error, internal_error_text};
use crate::module_info::ModInfo;
use crate::reply::{codeblock, codeblock_safe};
use crate::settings::SettingInfo;
use crate::text::{string_views, push_str, seq_lt, lemma_seq_lt_order, str_lt, str_eq, chars_of, string_from_chars, first_word, first_word_of};

verus! {

/// The error returned when a command does not exist.
#[derive(Debug, Clone)]
pub struct NoSuchCommand {
    cmd: String,
}

impl View for NoSuchCommand {
    type V = Seq<char>;

    closed spec fn view(&self) -> Seq<char> {
        self.cmd@
    }
}

/// The text of a [`NoSuchCommand`] error.
pub open spec fn no_such_command_message(cmd: Seq<char>) -> Seq<char> {
    "No such command: "@ + cmd
}

/// The text of the error for an unknown setting.
pub open spec fn no_such_config_message(name: Seq<char>) -> Seq<char> {
    "No such config value: "@ + name
}

impl NoSuchCommand {
    /// The error for the command `cmd`.
    pub fn new(cmd: &str) -> (e: NoSuchCommand)
        ensures
            e@ == cmd@,
    {
        NoSuchCommand { cmd: String::from_str(cmd) }
    }

    /// The error's text.
    pub fn message(&self) -> (s: String)
        ensures
            s@ == no_such_command_message(self@),
    {
        let mut s = String::new();
        push_str(&mut s, "No such command: ");
        push_str(&mut s, self.cmd.as_str());
        s
    }

    /// The error as a glimbot error, shown to the user.
    pub fn into_error(self) -> (e: Error)
        ensures
            e@.message == no_such_command_message(self@),
            e@.user_error,
    {
        Error::from_err(self.message(), true)
    }
}

/// The position of the module named `name`, if there is one.
pub open spec fn module_position(ms: Seq<ModInfo>, name: Seq<char>) -> Option<int>
    decreases ms.len(),
{
    if ms.len() == 0 {
        None
    } else if ms.last().name@ == name {
        Some(ms.len() - 1)
    } else {
        module_position(ms.drop_last(), name)
    }
}

/// No two modules share a name.
pub open spec fn unique_module_names(ms: Seq<ModInfo>) -> bool {
    forall|i: int, j: int| 0 <= i < j < ms.len() ==> ms[i].name@ != ms[j].name@
}

/// The settings are ordered strictly by name, so no name occurs twice.
pub open spec fn settings_sorted(vs: Seq<SettingInfo>) -> bool {
    forall|i: int, j: int| 0 <= i < j < vs.len() ==> seq_lt(vs[i].name@, vs[j].name@)
}

/// The setting named `name`, if there is one.
pub open spec fn setting_named(vs: Seq<SettingInfo>, name: Seq<char>) -> Option<SettingInfo>
    decreases vs.len(),
{
    if vs.len() == 0 {
        None
    } else if vs.last().name@ == name {
        Some(vs.last())
    } else {
        setting_named(vs.drop_last(), name)
    }
}

/// The modules after one more is added: one of the same name leaves its place, and the new
/// one goes last.
pub open spec fn modules_after_add(ms: Seq<ModInfo>, m: ModInfo) -> Seq<ModInfo> {
    match module_position(ms, m.name@) {
        Some(i) => ms.remove(i).push(m),
        None => ms.push(m),
    }
}

/// The names of the modules, in order.
pub open spec fn names_of(ms: Seq<ModInfo>) -> Seq<Seq<char>> {
    ms.map_values(|m: ModInfo| m.name@)
}

/// `names`, followed by `name` when `flag` holds.
pub open spec fn push_if(names: Seq<Seq<char>>, flag: bool, name: Seq<char>) -> Seq<Seq<char>> {
    if flag {
        names.push(name)
    } else {
        names
    }
}

/// The setting a registry holds under `name` after the settings `added` were registered in
/// turn over `base`: the last of `added` with that name, else what `base` held.
pub open spec fn setting_after(
    base: Seq<SettingInfo>,
    added: Seq<SettingInfo>,
    name: Seq<char>,
) -> Option<SettingInfo> {
    match setting_named(added, name) {
        Some(v) => Some(v),
        None => setting_named(base, name),
    }
}

proof fn lemma_module_position(ms: Seq<ModInfo>, name: Seq<char>)
    requires
        unique_module_names(ms),
    ensures
        module_position(ms, name) matches Some(i) ==> 0 <= i < ms.len() && ms[i].name@ == name,
        module_position(ms, name) is None ==> forall|j: int|
            0 <= j < ms.len() ==> ms[j].name@ != name,
    decreases ms.len(),
{
    if ms.len() > 0 && ms.last().name@ != name {
        let d = ms.drop_last();
        lemma_module_position(d, name);
        assert forall|j: int| 0 <= j < d.len() implies ms[j] == d[j] by {}
    }
}

proof fn lemma_position_unique(ms: Seq<ModInfo>, name: Seq<char>, i: int)
    requires
        unique_module_names(ms),
        0 <= i < ms.len(),
        ms[i].name@ == name,
    ensures
        module_position(ms, name) == Some(i),
    decreases ms.len(),
{
    lemma_module_position(ms, name);
    if module_position(ms, name) is None {
        assert(false);
    }
    let k = module_position(ms, name)->0;
    if k != i {
        if k < i {
            assert(ms[k].name@ != ms[i].name@);
        } else {
            assert(ms[i].name@ != ms[k].name@);
        }
    }
}

proof fn lemma_setting_named(vs: Seq<SettingInfo>, name: Seq<char>)
    requires
        settings_sorted(vs),
    ensures
        setting_named(vs, name) matches Some(v) ==> exists|i: int|
            0 <= i < vs.len() && vs[i] == v && v.name@ == name,
        setting_named(vs, name) is None ==> forall|j: int|
            0 <= j < vs.len() ==> vs[j].name@ != name,
        forall|i: int| 0 <= i < vs.len() && vs[i].name@ == name ==> setting_named(vs, name) == Some(vs[i]),
    decreases vs.len(),
{
    if vs.len() > 0 {
        let d = vs.drop_last();
        assert(settings_sorted(d));
        lemma_setting_named(d, name);
        if vs.last().name@ == name {
            assert forall|i: int| 0 <= i < vs.len() && vs[i].name@ == name implies setting_named(vs, name) == Some(vs[i]) by {
                if i < vs.len() - 1 {
                    lemma_seq_lt_order(vs[i].name@, vs.last().name@, vs.last().name@);
                    assert(seq_lt(vs[i].name@, vs[vs.len() - 1].name@));
                }
            }
        } else {
            assert forall|i: int| 0 <= i < vs.len() && vs[i].name@ == name implies setting_named(vs, name) == Some(vs[i]) by {
                assert(i < vs.len() - 1);
                assert(d[i] == vs[i]);
            }
            if let Some(v) = setting_named(d, name) {
                let i = choose|i: int| 0 <= i < d.len() && d[i] == v && v.name@ == name;
                assert(vs[i] == v);
            }
        }
    }
}

/// A setting among those a module registers is found by its name once the module is added
/// (the last registered setting of that name wins).
pub proof fn setting_found_after_add(base: Seq<SettingInfo>, added: Seq<SettingInfo>, i: int)
    requires
        0 <= i < added.len(),
    ensures
        setting_after(base, added, added[i].name@) is Some,
        setting_after(base, added, added[i].name@) matches Some(v) && v.name@ == added[i].name@,
    decreases added.len(),
{
    if i < added.len() - 1 && added.last().name@ != added[i].name@ {
        setting_found_after_add(base, added.drop_last(), i);
    }
}

/// Adding a module keeps names unique; looking up its name then finds it, in last place;
/// and any other name finds the same module as before, or still none.
pub proof fn module_lookup_after_add(ms: Seq<ModInfo>, m: ModInfo, other: Seq<char>)
    requires
        unique_module_names(ms),
    ensures
        unique_module_names(modules_after_add(ms, m)),
        modules_after_add(ms, m).last() == m,
        module_position(modules_after_add(ms, m), m.name@) == Some(
            modules_after_add(ms, m).len() - 1,
        ),
        other != m.name@ ==> match module_position(ms, other) {
            Some(i) => module_position(modules_after_add(ms, m), other) matches Some(j)
                && modules_after_add(ms, m)[j] == ms[i],
            None => module_position(modules_after_add(ms, m), other) is None,
        },
{
    let after = modules_after_add(ms, m);
    lemma_module_position(ms, m.name@);
    let kept = match module_position(ms, m.name@) {
        Some(i) => ms.remove(i),
        None => ms,
    };
    assert(after == kept.push(m));
    assert forall|k: int| 0 <= k < kept.len() implies kept[k].name@ != m.name@ && exists|
        k2: int,
    | 0 <= k2 < ms.len() && ms[k2] == kept[k] by {
        match module_position(ms, m.name@) {
            Some(i) => {
                if k < i {
                    assert(kept[k] == ms[k]);
                    assert(ms[k].name@ != ms[i].name@);
                } else {
                    assert(kept[k] == ms[k + 1]);
                    assert(ms[i].name@ != ms[k + 1].name@);
                }
            },
            None => {},
        }
    }
    assert(unique_module_names(after)) by {
        assert forall|a: int, b: int| 0 <= a < b < after.len() implies after[a].name@ != after[b].name@ by {
            if b == after.len() - 1 {
                assert(after[b] == m);
                assert(after[a] == kept[a]);
            } else {
                match module_position(ms, m.name@) {
                    Some(i) => {
                        let a2 = if a < i { a } else { a + 1 };
                        let b2 = if b < i { b } else { b + 1 };
                        assert(after[a] == ms[a2] && after[b] == ms[b2]);
                    },
                    None => {
                        assert(after[a] == ms[a] && after[b] == ms[b]);
                    },
                }
            }
        }
    }
    lemma_position_unique(after, m.name@, after.len() - 1);
    if other != m.name@ {
        lemma_module_position(ms, other);
        lemma_module_position(after, other);
        match module_position(ms, other) {
            Some(i) => {
                let j = match module_position(ms, m.name@) {
                    Some(r) => if i < r { i } else { i - 1 },
                    None => i,
                };
                match module_position(ms, m.name@) {
                    Some(r) => {
                        assert(i != r);
                        assert(after[j] == ms[i]);
                    },
                    None => {
                        assert(after[j] == ms[i]);
                    },
                }
                lemma_position_unique(after, other, j);
            },
            None => {
                if let Some(j) = module_position(after, other) {
                    assert(after[j].name@ == other);
                    assert(j < after.len() - 1);
                    let k2 = choose|k2: int| 0 <= k2 < ms.len() && ms[k2] == kept[j];
                    assert(ms[k2].name@ == other);
                }
            },
        }
    }
}

/// The dispatcher's registry: the bot's owner, the modules in the order they were added, the
/// names of the modules that filter commands or have hooks, and the settings by name.
pub struct Dispatch {
    owner: u64,
    filters: Vec<&'static str>,
    modules: Vec<ModInfo>,
    message_hooks: Vec<&'static str>,
    tick_hooks: Vec<&'static str>,
    config_values: Vec<SettingInfo>,
}

impl Dispatch {
    /// The owner of the bot.
    pub closed spec fn spec_owner(&self) -> u64 {
        self.owner
    }

    /// The modules, in the order they were last added.
    pub closed spec fn modules(&self) -> Seq<ModInfo> {
        self.modules@
    }

    /// The names of the modules that filter commands, in the order they were added.
    pub closed spec fn filter_names(&self) -> Seq<Seq<char>> {
        self.filters@.map_values(|s: &'static str| s@)
    }

    /// The names of the modules with a hook run on each message.
    pub closed spec fn message_hook_names(&self) -> Seq<Seq<char>> {
        self.message_hooks@.map_values(|s: &'static str| s@)
    }

    /// The names of the modules with a hook run at each tick.
    pub closed spec fn tick_hook_names(&self) -> Seq<Seq<char>> {
        self.tick_hooks@.map_values(|s: &'static str| s@)
    }

    /// The registered settings, ordered by name.
    pub closed spec fn settings(&self) -> Seq<SettingInfo> {
        self.config_values@
    }

    /// Module names are unique and settings are ordered by name.
    pub closed spec fn well_formed(&self) -> bool {
        unique_module_names(self.modules@) && settings_sorted(self.config_values@)
    }

    /// A dispatcher with the given owner and nothing registered.
    pub fn new(owner: u64) -> (d: Dispatch)
        ensures
            d.well_formed(),
            d.spec_owner() == owner,
            d.modules() == Seq::<ModInfo>::empty(),
            d.filter_names() == Seq::<Seq<char>>::empty(),
            d.message_hook_names() == Seq::<Seq<char>>::empty(),
            d.tick_hook_names() == Seq::<Seq<char>>::empty(),
            d.settings() == Seq::<SettingInfo>::empty(),
    {
        let d = Dispatch {
            owner,
            filters: Vec::new(),
            modules: Vec::new(),
            message_hooks: Vec::new(),
            tick_hooks: Vec::new(),
            config_values: Vec::new(),
        };
        assert(d.filter_names() =~= Seq::<Seq<char>>::empty());
        assert(d.message_hook_names() =~= Seq::<Seq<char>>::empty());
        assert(d.tick_hook_names() =~= Seq::<Seq<char>>::empty());
        d
    }

    /// The owner of the bot.
    pub fn owner(&self) -> (o: u64)
        ensures
            o == self.spec_owner(),
    {
        self.owner
    }

    /// The names of the modules that filter commands, in the order they run.
    pub fn filters(&self) -> (v: &Vec<&'static str>)
        ensures
            v@.map_values(|s: &'static str| s@) == self.filter_names(),
    {
        &self.filters
    }

    /// The names of the modules with a hook run on each message, in the order they run.
    pub fn message_hooks(&self) -> (v: &Vec<&'static str>)
        ensures
            v@.map_values(|s: &'static str| s@) == self.message_hook_names(),
    {
        &self.message_hooks
    }

    /// The names of the modules with a hook run at each tick, in the order they run.
    pub fn tick_hooks(&self) -> (v: &Vec<&'static str>)
        ensures
            v@.map_values(|s: &'static str| s@) == self.tick_hook_names(),
    {
        &self.tick_hooks
    }

    /// The registered settings, ordered by name.
    pub fn config_values(&self) -> (v: &Vec<SettingInfo>)
        ensures
            v@ == self.settings(),
    {
        &self.config_values
    }

    fn add_setting(&mut self, v: SettingInfo)
        requires
            settings_sorted(old(self).config_values@),
        ensures
            settings_sorted(final(self).config_values@),
            forall|k: Seq<char>| #[trigger] setting_named(final(self).config_values@, k) == if k == v.name@ {
                Some(v)
            } else {
                setting_named(old(self).config_values@, k)
            },
            final(self).owner == old(self).owner,
            final(self).filters == old(self).filters,
            final(self).modules == old(self).modules,
            final(self).message_hooks == old(self).message_hooks,
            final(self).tick_hooks == old(self).tick_hooks,
    {
        let ghost before = self.config_values@;
        let mut i: usize = 0;
        while i < self.config_values.len() && str_lt(self.config_values[i].name, v.name)
            invariant
                i <= self.config_values.len(),
                self.config_values@ == before,
                settings_sorted(before),
                forall|k: int| 0 <= k < i ==> seq_lt(before[k].name@, v.name@),
            decreases self.config_values.len() - i,
        {
            i = i + 1;
        }
        proof {
            lemma_setting_named(before, v.name@);
        }
        if i < self.config_values.len() && str_eq(self.config_values[i].name, v.name) {
            self.config_values.set(i, v);
            proof {
                let after = self.config_values@;
                assert forall|a: int, b: int| 0 <= a < b < after.len() implies seq_lt(
                    after[a].name@,
                    after[b].name@,
                ) by {
                    assert(seq_lt(before[a].name@, before[b].name@));
                }
                assert forall|k: Seq<char>| #[trigger] setting_named(after, k) == if k == v.name@ {
                    Some(v)
                } else {
                    setting_named(before, k)
                } by {
                    lemma_setting_named(after, k);
                    lemma_setting_named(before, k);
                    if k != v.name@ {
                        if let Some(w) = setting_named(after, k) {
                            let j = choose|j: int| 0 <= j < after.len() && after[j] == w && w.name@ == k;
                            assert(j != i);
                            assert(before[j] == after[j]);
                        } else {
                            assert forall|j: int| 0 <= j < before.len() implies before[j].name@ != k by {
                                if j != i {
                                    assert(before[j] == after[j]);
                                }
                            }
                        }
                    } else {
                        assert(after[i as int] == v);
                    }
                }
            }
        } else {
            self.config_values.insert(i, v);
            proof {
                let after = self.config_values@;
                if i < before.len() {
                    lemma_seq_lt_order(v.name@, before[i as int].name@, v.name@);
                    assert(seq_lt(v.name@, before[i as int].name@));
                }
                assert forall|a: int, b: int| 0 <= a < b < after.len() implies seq_lt(
                    after[a].name@,
                    after[b].name@,
                ) by {
                    if b < i {
                        assert(after[a] == before[a] && after[b] == before[b]);
                    } else if b == i {
                        assert(after[a] == before[a]);
                    } else if a == i {
                        assert(after[b] == before[b - 1]);
                        if b - 1 > i {
                            assert(seq_lt(before[i as int].name@, before[b - 1].name@));
                            lemma_seq_lt_order(v.name@, before[i as int].name@, before[b - 1].name@);
                        }
                    } else if a < i {
                        assert(after[a] == before[a] && after[b] == before[b - 1]);
                        lemma_seq_lt_order(before[a].name@, v.name@, before[b - 1].name@);
                        if i < before.len() {
                            lemma_seq_lt_order(v.name@, before[i as int].name@, before[b - 1].name@);
                            if b - 1 > i {
                                assert(seq_lt(before[i as int].name@, before[b - 1].name@));
                            }
                            lemma_seq_lt_order(before[a].name@, before[i as int].name@, before[b - 1].name@);
                            assert(seq_lt(before[a].name@, before[i as int].name@));
                        }
                    } else {
                        assert(after[a] == before[a - 1] && after[b] == before[b - 1]);
                    }
                }
                assert forall|k: Seq<char>| #[trigger] setting_named(after, k) == if k == v.name@ {
                    Some(v)
                } else {
                    setting_named(before, k)
                } by {
                    lemma_setting_named(after, k);
                    lemma_setting_named(before, k);
                    assert(after[i as int] == v);
                    if k != v.name@ {
                        if let Some(w) = setting_named(after, k) {
                            let j = choose|j: int| 0 <= j < after.len() && after[j] == w && w.name@ == k;
                            assert(j != i);
                            if j < i {
                                assert(before[j] == after[j]);
                            } else {
                                assert(before[j - 1] == after[j]);
                            }
                        } else {
                            assert forall|j: int| 0 <= j < before.len() implies before[j].name@ != k by {
                                if j < i {
                                    assert(before[j] == after[j]);
                                } else {
                                    assert(before[j] == after[j + 1]);
                                }
                            }
                        }
                    }
                }
            }
        }
    }

    /// Registers a module. Its name goes on the lists of filters and hooks it has, its
    /// settings are registered (replacing settings of the same name), and it replaces any
    /// module of the same name, taking the last place.
    pub fn add_module(&mut self, module: ModInfo)
        requires
            old(self).well_formed(),
        ensures
            final(self).well_formed(),
            final(self).spec_owner() == old(self).spec_owner(),
            final(self).modules() == modules_after_add(old(self).modules(), module),
            final(self).filter_names() == push_if(
                old(self).filter_names(),
                module.does_filtering,
                module.name@,
            ),
            final(self).message_hook_names() == push_if(
                old(self).message_hook_names(),
                module.on_message,
                module.name@,
            ),
            final(self).tick_hook_names() == push_if(
                old(self).tick_hook_names(),
                module.on_tick,
                module.name@,
            ),
            forall|k: Seq<char>| #[trigger] setting_named(final(self).settings(), k) == setting_after(
                old(self).settings(),
                module.config_values@,
                k,
            ),
    {
        let ghost old_filters = self.filter_names();
        let ghost old_msg = self.message_hook_names();
        let ghost old_tick = self.tick_hook_names();
        if module.does_filtering {
            self.filters.push(module.name);
            assert(self.filter_names() =~= old_filters.push(module.name@));
        }
        if module.on_message {
            self.message_hooks.push(module.name);
            assert(self.message_hook_names() =~= old_msg.push(module.name@));
        }
        if module.on_tick {
            self.tick_hooks.push(module.name);
            assert(self.tick_hook_names() =~= old_tick.push(module.name@));
        }
        let ghost base = self.config_values@;
        let ghost added = module.config_values@;
        let mut i: usize = 0;
        assert forall|k: Seq<char>| #[trigger] setting_named(self.config_values@, k) == setting_after(
            base,
            added.take(0),
            k,
        ) by {
            assert(added.take(0).len() == 0);
        }
        while i < module.config_values.len()
            invariant
                i <= module.config_values.len(),
                added == module.config_values@,
                settings_sorted(self.config_values@),
                forall|k: Seq<char>| #[trigger] setting_named(self.config_values@, k) == setting_after(
                    base,
                    added.take(i as int),
                    k,
                ),
                self.filter_names() == push_if(old_filters, module.does_filtering, module.name@),
                self.message_hook_names() == push_if(old_msg, module.on_message, module.name@),
                self.tick_hook_names() == push_if(old_tick, module.on_tick, module.name@),
                self.modules@ == old(self).modules@,
                self.owner == old(self).owner,
            decreases module.config_values.len() - i,
        {
            let v = module.config_values[i];
            self.add_setting(v);
            assert(added.take(i + 1).drop_last() =~= added.take(i as int));
            i = i + 1;
        }
        assert(added.take(added.len() as int) =~= added);
        let mut j: usize = 0;
        while j < self.modules.len() && !str_eq(self.modules[j].name, module.name)
            invariant
                j <= self.modules.len(),
                self.modules@ == old(self).modules@,
                unique_module_names(self.modules@),
                forall|k: int| 0 <= k < j ==> self.modules@[k].name@ != module.name@,
            decreases self.modules.len() - j,
        {
            j = j + 1;
        }
        let ghost ms = self.modules@;
        proof {
            lemma_module_position(ms, module.name@);
        }
        if j < self.modules.len() {
            proof {
                lemma_position_unique(ms, module.name@, j as int);
            }
            let _removed = self.modules.remove(j);
        }
        let ghost kept = self.modules@;
        assert forall|k: int| 0 <= k < kept.len() implies kept[k].name@ != module.name@ by {
            if j < ms.len() {
                if k < j {
                    assert(kept[k] == ms[k]);
                } else {
                    assert(kept[k] == ms[k + 1]);
                    assert(ms[j as int].name@ != ms[k + 1].name@);
                }
            }
        }
        assert(unique_module_names(kept)) by {
            assert forall|a: int, b: int| 0 <= a < b < kept.len() implies kept[a].name@ != kept[b].name@ by {
                if j < ms.len() {
                    let a2 = if a < j { a } else { a + 1 };
                    let b2 = if b < j { b } else { b + 1 };
                    assert(kept[a] == ms[a2] && kept[b] == ms[b2]);
                }
            }
        }
        self.modules.push(module);
    }

    /// The module with the given name.
    pub fn module(&self, name: &str) -> (m: Option<&ModInfo>)
        requires
            self.well_formed(),
        ensures
            match module_position(self.modules(), name@) {
                Some(i) => m == Some(&self.modules()[i]),
                None => m is None,
            },
    {
        let mut j: usize = 0;
        while j < self.modules.len() && !str_eq(self.modules[j].name, name)
            invariant
                j <= self.modules.len(),
                unique_module_names(self.modules@),
                forall|k: int| 0 <= k < j ==> self.modules@[k].name@ != name@,
            decreases self.modules.len() - j,
        {
            j = j + 1;
        }
        proof {
            lemma_module_position(self.modules@, name@);
        }
        if j < self.modules.len() {
            proof {
                lemma_position_unique(self.modules@, name@, j as int);
            }
            Some(&self.modules[j])
        } else {
            None
        }
    }

    /// The module of the command `cmd`: an error unless a module of that name exists and has
    /// a command.
    pub fn command_module(&self, cmd: &str) -> (r: Result<&ModInfo, NoSuchCommand>)
        requires
            self.well_formed(),
        ensures
            match module_position(self.modules(), cmd@) {
                Some(i) if self.modules()[i].command => r == Ok::<&ModInfo, NoSuchCommand>(
                    &self.modules()[i],
                ),
                _ => r matches Err(e) && e@ == cmd@,
            },
    {
        match self.module(cmd) {
            Some(m) => {
                if m.command {
                    Ok(m)
                } else {
                    Err(NoSuchCommand::new(cmd))
                }
            },
            None => Err(NoSuchCommand::new(cmd)),
        }
    }

    /// The setting with the given name: a user error when there is none.
    pub fn config_value(&self, name: &str) -> (r: Result<SettingInfo, Error>)
        requires
            self.well_formed(),
        ensures
            match setting_named(self.settings(), name@) {
                Some(v) => r == Ok::<SettingInfo, Error>(v),
                None => r matches Err(e) && e@.message == no_such_config_message(name@)
                    && e@.user_error,
            },
    {
        let mut i: usize = 0;
        while i < self.config_values.len() && !str_eq(self.config_values[i].name, name)
            invariant
                i <= self.config_values.len(),
                settings_sorted(self.config_values@),
                forall|k: int| 0 <= k < i ==> self.config_values@[k].name@ != name@,
            decreases self.config_values.len() - i,
        {
            i = i + 1;
        }
        proof {
            lemma_setting_named(self.config_values@, name@);
        }
        if i < self.config_values.len() {
            Ok(self.config_values[i])
        } else {
            let mut s = String::new();
            push_str(&mut s, "No such config value: ");
            push_str(&mut s, name);
            Err(Error::from_err(s, true))
        }
    }
}


/// The error view of a fixed failure.
pub open spec fn failure_view(f: Failure) -> ErrorView {
    ErrorView { message: failure_message(f), user_error: failure_is_user_error(f) }
}

/// The names of the modules that have a command, in order.
pub open spec fn command_names(ms: Seq<ModInfo>) -> Seq<Seq<char>>
    decreases ms.len(),
{
    if ms.len() == 0 {
        Seq::empty()
    } else if ms.last().command {
        command_names(ms.drop_last()).push(ms.last().name@)
    } else {
        command_names(ms.drop_last())
    }
}

impl Dispatch {
    /// The names of the commands, in the order their modules were added.
    pub fn commands(&self) -> (v: Vec<&'static str>)
        ensures
            v@.map_values(|s: &'static str| s@) == command_names(self.modules()),
    {
        let mut v: Vec<&'static str> = Vec::new();
        let mut i: usize = 0;
        assert(self.modules@.take(0) =~= Seq::<ModInfo>::empty());
        while i < self.modules.len()
            invariant
                i <= self.modules.len(),
                v@.map_values(|s: &'static str| s@) == command_names(self.modules@.take(i as int)),
            decreases self.modules.len() - i,
        {
            assert(self.modules@.take(i + 1).drop_last() =~= self.modules@.take(i as int));
            if self.modules[i].command {
                v.push(self.modules[i].name);
            }
            i = i + 1;
            assert(v@.map_values(|s: &'static str| s@) =~= command_names(self.modules@.take(i as int)));
        }
        assert(self.modules@.take(self.modules.len() as int) =~= self.modules@);
        v
    }
}

/// The guild a message was sent in, `None` when the bot sent it itself (it is then ignored),
/// and an error for a direct message.
pub fn message_guild(guild: Option<u64>, author: u64, bot: u64) -> (r: Result<Option<u64>, Error>)
    ensures
        guild is None ==> (r matches Err(e) && e@ == failure_view(Failure::NoDMs)),
        guild matches Some(g) ==> r == Ok::<Option<u64>, Error>(
            if author == bot {
                None
            } else {
                Some(g)
            },
        ),
{
    match guild {
        None => Err(Failure::NoDMs.into_error()),
        Some(g) => {
            if author == bot {
                Ok(None)
            } else {
                Ok(Some(g))
            }
        },
    }
}

/// A command found in a message: the text after the prefix, and the command's name.
#[derive(Debug)]
pub struct CommandText {
    pub raw: String,
    pub name: String,
}

/// Whether a message starts with the command prefix.
pub open spec fn is_command(contents: Seq<char>, prefix: char) -> bool {
    contents.len() > 0 && contents[0] == prefix
}

/// What the dispatcher reads of a message that may hold a command: nothing when it does not
/// start with the prefix, an error when nothing but whitespace follows the prefix, and
/// otherwise the text after the prefix with its first word as the command's name.
pub fn command_text(contents: &str, prefix: char) -> (r: Result<Option<CommandText>, Error>)
    ensures
        !is_command(contents@, prefix) ==> (r matches Ok(None)),
        is_command(contents@, prefix) ==> match first_word(contents@.skip(1)) {
            None => r matches Err(e) && e@ == failure_view(Failure::ExpectedString),
            Some(w) => r matches Ok(Some(t)) && t.raw@ == contents@.skip(1) && t.name@ == w,
        },
{
    let cs = chars_of(contents);
    if cs.len() == 0 || cs[0] != prefix {
        return Ok(None);
    }
    let mut rest: Vec<char> = Vec::new();
    let mut i: usize = 1;
    while i < cs.len()
        invariant
            1 <= i <= cs.len(),
            cs@ == contents@,
            rest@ == cs@.subrange(1, i as int),
        decreases cs.len() - i,
    {
        rest.push(cs[i]);
        i = i + 1;
        assert(rest@ =~= cs@.subrange(1, i as int));
    }
    assert(rest@ =~= contents@.skip(1));
    let raw = string_from_chars(&rest);
    match first_word_of(raw.as_str()) {
        None => Err(Failure::ExpectedString.into_error()),
        Some(name) => Ok(Some(CommandText { raw, name })),
    }
}

/// What the `shlex` crate makes of a command line: its words, or `None` when the quoting is
/// malformed.
pub uninterp spec fn shlex_split(line: Seq<char>) -> Option<Seq<Seq<char>>>;

/// `shlex::split`: the words of a shell-like command line. Which words it finds is not
/// stated; it is a function of the line alone.
#[verifier::external_body]
pub(crate) fn split_words(line: &str) -> (r: Option<Vec<String>>)
    ensures
        match r {
            Some(v) => shlex_split(line@) == Some(string_views(v@)),
            None => shlex_split(line@) is None,
        },
{
    shlex::split(line)
}

/// The text of the error for a command line that does not split into words.
pub open spec fn invalid_command_message(contents: Seq<char>) -> Seq<char> {
    "Invalid command string: "@ + contents
}

/// The words a command runs with, or the error it fails with, given the words of its
/// command line: the first word is replaced by the name the filters gave back, and the
/// command is looked up by the name it was typed with.
pub open spec fn assembled_command(
    modules: Seq<ModInfo>,
    contents: Seq<char>,
    words: Option<Seq<Seq<char>>>,
    name: Seq<char>,
    filtered: Seq<char>,
) -> Result<Seq<Seq<char>>, ErrorView> {
    match words {
        None => Err(ErrorView { message: invalid_command_message(contents), user_error: true }),
        Some(w) => match module_position(modules, name) {
            Some(i) if modules[i].command => Ok(w.update(0, filtered)),
            _ => Err(ErrorView { message: no_such_command_message(name), user_error: true }),
        },
    }
}

/// The view of a command's outcome.
pub open spec fn outcome_view(r: Result<Vec<String>, Error>) -> Result<Seq<Seq<char>>, ErrorView> {
    match r {
        Ok(v) => Ok(string_views(v@)),
        Err(e) => Err(e@),
    }
}

impl Dispatch {
    /// The words a command runs with, from the words `split` of its command line (see
    /// [`assembled_command`]). `contents` is the whole message, `name` the command as typed
    /// and `filtered` the name the filters gave back.
    pub fn assemble_command(
        &self,
        contents: &str,
        split: Option<Vec<String>>,
        name: &str,
        filtered: String,
    ) -> (r: Result<Vec<String>, Error>)
        requires
            self.well_formed(),
            split matches Some(v) ==> v.len() > 0,
        ensures
            outcome_view(r) == assembled_command(
                self.modules(),
                contents@,
                match split {
                    Some(v) => Some(string_views(v@)),
                    None => None,
                },
                name@,
                filtered@,
            ),
    {
        match split {
            None => {
                let mut s = String::new();
                push_str(&mut s, "Invalid command string: ");
                push_str(&mut s, contents);
                Err(Error::from_err(s, true))
            },
            Some(words) => {
                let mut command = words;
                let ghost before = command@;
                command.set(0, filtered);
                assert(string_views(command@) =~= string_views(before).update(0, command@[0]@));
                match self.command_module(name) {
                    Ok(_) => Ok(command),
                    Err(e) => Err(e.into_error()),
                }
            },
        }
    }

    /// Splits the command line `raw` with `shlex` and assembles the command (see
    /// [`assembled_command`]). `None` when the line splits into no words at all.
    pub fn prepare_command(
        &self,
        contents: &str,
        raw: &str,
        name: &str,
        filtered: String,
    ) -> (r: Option<Result<Vec<String>, Error>>)
        requires
            self.well_formed(),
        ensures
            r is None <==> shlex_split(raw@) == Some(Seq::<Seq<char>>::empty()),
            (r matches Some(x) ==> outcome_view(x) == assembled_command(
                self.modules(),
                contents@,
                shlex_split(raw@),
                name@,
                filtered@,
            )),
    {
        let split = split_words(raw);
        match &split {
            Some(v) => {
                if v.len() == 0 {
                    assert(string_views(v@) =~= Seq::<Seq<char>>::empty());
                    return None;
                }
                assert(string_views(v@).len() == v@.len());
            },
            None => {},
        }
        Some(self.assemble_command(contents, split, name, filtered))
    }
}


/// The reply to a message whose handling failed: the error's message in a code block when it
/// is the user's, otherwise a generic notice in a code block.
pub fn error_reply(e: &Error) -> (r: String)
    ensures
        r@ == codeblock(
            if e@.user_error {
                e@.message
            } else {
                internal_error_text()
            },
        ),
{
    let text = e.user_facing_text();
    codeblock_safe(text.as_str())
}

} // verus!
