//! The cache of guild settings in front of the database: what a read finds, when the
//! database must be asked, and the hit and miss counters.

use vstd::prelude::*;
use crate::status::CacheStats;
use crate::text::str_eq;

verus! {

/// One cached setting: guild, key, and the value if one was read or written.
pub struct CacheEntry {
    pub guild: u64,
    pub key: String,
    pub value: Option<String>,
}

/// The view of an entry.
pub open spec fn entry_view(e: CacheEntry) -> (u64, Seq<char>, Option<Seq<char>>) {
    (
        e.guild,
        e.key@,
        match e.value {
            Some(v) => Some(v@),
            None => None,
        },
    )
}

/// What the cache holds for `(guild, key)`: nothing when it never saw the key, otherwise
/// the value it holds, if any (the last entry for the pair counts).
pub open spec fn cached(es: Seq<(u64, Seq<char>, Option<Seq<char>>)>, guild: u64, key: Seq<char>) -> Option<
    Option<Seq<char>>,
>
    decreases es.len(),
{
    if es.len() == 0 {
        None
    } else if es.last().0 == guild && es.last().1 == key {
        Some(es.last().2)
    } else {
        cached(es.drop_last(), guild, key)
    }
}

/// `n + 1`, wrapping around at `u64::MAX`.
pub open spec fn bump(n: u64) -> u64 {
    if n == u64::MAX {
        0
    } else {
        (n + 1) as u64
    }
}

/// What a read of the cache found.
#[derive(Debug, Clone, PartialEq, Eq)]
pub enum CacheRead {
    /// The cache holds a value.
    Hit(String),
    /// The database must be asked.
    Miss,
}

/// The cache of guild settings and its counters.
pub struct ConfigCache {
    entries: Vec<CacheEntry>,
    cache_misses: u64,
    cache_accesses: u64,
}

impl ConfigCache {
    /// The cached entries, in the order they were made.
    pub closed spec fn view_entries(&self) -> Seq<(u64, Seq<char>, Option<Seq<char>>)> {
        self.entries@.map_values(|e: CacheEntry| entry_view(e))
    }

    /// The number of reads.
    pub closed spec fn accesses(&self) -> u64 {
        self.cache_accesses
    }

    /// The number of reads that had to ask the database.
    pub closed spec fn misses(&self) -> u64 {
        self.cache_misses
    }

    /// An empty cache.
    pub fn new() -> (c: ConfigCache)
        ensures
            forall|g: u64, k: Seq<char>| cached(c.view_entries(), g, k) is None,
            c.accesses() == 0,
            c.misses() == 0,
    {
        let c = ConfigCache { entries: Vec::new(), cache_misses: 0, cache_accesses: 0 };
        assert(c.view_entries() =~= Seq::<(u64, Seq<char>, Option<Seq<char>>)>::empty());
        c
    }

    /// The counters as they stand.
    pub fn statistics(&self) -> (s: CacheStats)
        ensures
            s.accesses == self.accesses(),
            s.misses == self.misses(),
    {
        CacheStats { accesses: self.cache_accesses, misses: self.cache_misses }
    }

    fn find(&self, guild: u64, key: &str) -> (r: Option<usize>)
        ensures
            match r {
                Some(i) => i < self.entries@.len() && cached(self.view_entries(), guild, key@)
                    == Some(entry_view(self.entries@[i as int]).2) && self.entries@[i as int].guild
                    == guild && self.entries@[i as int].key@ == key@ && last_match(self.view_entries(), i as int),
                None => cached(self.view_entries(), guild, key@) is None,
            },
    {
        let ghost es = self.view_entries();
        let mut i: usize = self.entries.len();
        assert(es.take(i as int) =~= es);
        while i > 0
            invariant
                i <= self.entries.len(),
                es == self.view_entries(),
                cached(es, guild, key@) == cached(es.take(i as int), guild, key@),
                forall|j: int| i <= j < es.len() ==> !(es[j].0 == guild && es[j].1 == key@),
            decreases i,
        {
            let ghost p = es.take(i as int);
            assert(p.drop_last() =~= es.take(i - 1));
            assert(p.last() == entry_view(self.entries@[i - 1]));
            if self.entries[i - 1].guild == guild && str_eq(self.entries[i - 1].key.as_str(), key) {
                return Some(i - 1);
            }
            i = i - 1;
        }
        assert(es.take(0) =~= Seq::<(u64, Seq<char>, Option<Seq<char>>)>::empty());
        None
    }

    /// Makes sure the cache has an entry for `(guild, key)`, empty if it is new; gives its
    /// position.
    fn entry(&mut self, guild: u64, key: &str) -> (i: usize)
        ensures
            i < final(self).entries@.len(),
            last_match(final(self).view_entries(), i as int),
            final(self).entries@[i as int].guild == guild,
            final(self).entries@[i as int].key@ == key@,
            cached(final(self).view_entries(), guild, key@) == Some(entry_view(final(self).entries@[i as int]).2),
            cached(old(self).view_entries(), guild, key@) matches Some(v) ==> entry_view(final(self).entries@[i as int]).2 == v,
            cached(old(self).view_entries(), guild, key@) is None ==> final(self).entries@[i as int].value is None,
            forall|g: u64, k: Seq<char>| !(g == guild && k == key@) ==> #[trigger] cached(final(self).view_entries(), g, k)
                == cached(old(self).view_entries(), g, k),
            cached(old(self).view_entries(), guild, key@) is Some ==> final(self).view_entries() == old(self).view_entries(),
            final(self).accesses() == old(self).accesses(),
            final(self).misses() == old(self).misses(),
    {
        match self.find(guild, key) {
            Some(i) => i,
            None => {
                let ghost before = self.view_entries();
                self.entries.push(CacheEntry { guild, key: String::from_str(key), value: None });
                proof {
                    let after = self.view_entries();
                    assert(after.drop_last() =~= before);
                }
                self.entries.len() - 1
            },
        }
    }

    fn set_value(&mut self, i: usize, v: Option<String>)
        requires
            i < old(self).entries@.len(),
            last_match(old(self).view_entries(), i as int),
            cached(old(self).view_entries(), old(self).entries@[i as int].guild, old(self).entries@[i as int].key@)
                == Some(entry_view(old(self).entries@[i as int]).2),
        ensures
            last_match(final(self).view_entries(), i as int),
            i < final(self).entries@.len(),
            cached(final(self).view_entries(), old(self).entries@[i as int].guild, old(self).entries@[i as int].key@)
                == Some(
                match v {
                    Some(x) => Some(x@),
                    None => None,
                },
            ),
            forall|g: u64, k: Seq<char>| !(g == old(self).entries@[i as int].guild && k == old(self).entries@[i as int].key@)
                ==> #[trigger] cached(final(self).view_entries(), g, k) == cached(old(self).view_entries(), g, k),
            final(self).accesses() == old(self).accesses(),
            final(self).misses() == old(self).misses(),
    {
        let ghost before = self.view_entries();
        let ghost g0 = self.entries@[i as int].guild;
        let ghost k0 = self.entries@[i as int].key@;
        let mut e = self.entries.remove(i);
        e.value = v;
        self.entries.insert(i, e);
        proof {
            let after = self.view_entries();
            assert(after =~= before.update(i as int, entry_view(e)));
            lemma_cached_update(before, i as int, entry_view(e), g0, k0);
        }
    }

    /// The first step of a read that fills the cache: counts the read; a value held is a
    /// hit; otherwise the read counts as a miss and the database must be asked (the entry
    /// now exists, still empty).
    pub fn begin_get_or_insert(&mut self, guild: u64, key: &str) -> (r: CacheRead)
        ensures
            final(self).accesses() == bump(old(self).accesses()),
            match cached(old(self).view_entries(), guild, key@) {
                Some(Some(v)) => r matches CacheRead::Hit(x) && x@ == v && final(self).misses()
                    == old(self).misses(),
                _ => r is Miss && final(self).misses() == bump(old(self).misses()),
            },
            match cached(old(self).view_entries(), guild, key@) {
                Some(v) => cached(final(self).view_entries(), guild, key@) == Some(v),
                None => cached(final(self).view_entries(), guild, key@) == Some(None::<Seq<char>>),
            },
            forall|g: u64, k: Seq<char>| !(g == guild && k == key@) ==> #[trigger] cached(final(self).view_entries(), g, k)
                == cached(old(self).view_entries(), g, k),
    {
        self.cache_accesses = self.cache_accesses.wrapping_add(1);
        let i = self.entry(guild, key);
        match &self.entries[i].value {
            Some(v) => CacheRead::Hit(v.clone()),
            None => {
                self.cache_misses = self.cache_misses.wrapping_add(1);
                CacheRead::Miss
            },
        }
    }

    /// The second step of a read that missed: keeps the value the database gave.
    pub fn complete_insert(&mut self, guild: u64, key: &str, v: String)
        ensures
            cached(final(self).view_entries(), guild, key@) == Some(Some(v@)),
            forall|g: u64, k: Seq<char>| !(g == guild && k == key@) ==> #[trigger] cached(final(self).view_entries(), g, k)
                == cached(old(self).view_entries(), g, k),
            final(self).accesses() == old(self).accesses(),
            final(self).misses() == old(self).misses(),
    {
        let i = self.entry(guild, key);
        self.set_value(i, Some(v));
    }

    /// A write through the cache: counts an access and a miss; the value written is then
    /// held (see [`ConfigCache::complete_insert`]).
    pub fn begin_insert(&mut self, guild: u64, key: &str)
        ensures
            final(self).accesses() == bump(old(self).accesses()),
            final(self).misses() == bump(old(self).misses()),
            forall|g: u64, k: Seq<char>| !(g == guild && k == key@) ==> #[trigger] cached(final(self).view_entries(), g, k)
                == cached(old(self).view_entries(), g, k),
    {
        self.cache_misses = self.cache_misses.wrapping_add(1);
        self.cache_accesses = self.cache_accesses.wrapping_add(1);
        let _ = self.entry(guild, key);
    }

    /// A read that may find nothing: counts the read. When the cache never saw the key, the
    /// read counts as a miss, an empty entry is made and `None` says the database must be
    /// asked; otherwise what the cache holds is the answer, even when it holds no value.
    pub fn get(&mut self, guild: u64, key: &str) -> (r: Option<Option<String>>)
        ensures
            final(self).accesses() == bump(old(self).accesses()),
            match cached(old(self).view_entries(), guild, key@) {
                Some(v) => (r matches Some(x) && match x {
                    Some(s) => v == Some(s@),
                    None => v is None,
                }) && final(self).misses() == old(self).misses()
                    && final(self).view_entries() == old(self).view_entries(),
                None => r is None && final(self).misses() == bump(old(self).misses())
                    && cached(final(self).view_entries(), guild, key@) == Some(None::<Seq<char>>),
            },
            forall|g: u64, k: Seq<char>| !(g == guild && k == key@) ==> #[trigger] cached(final(self).view_entries(), g, k)
                == cached(old(self).view_entries(), g, k),
    {
        self.cache_accesses = self.cache_accesses.wrapping_add(1);
        match self.find(guild, key) {
            Some(i) => Some(self.entries[i].value.clone()),
            None => {
                self.cache_misses = self.cache_misses.wrapping_add(1);
                let _ = self.entry(guild, key);
                None
            },
        }
    }

    /// After the database answered a read that missed: a value is kept; no value leaves the
    /// entry empty.
    pub fn complete_get(&mut self, guild: u64, key: &str, v: Option<String>)
        ensures
            v matches Some(x) ==> cached(final(self).view_entries(), guild, key@) == Some(Some(x@)),
            v is None ==> final(self).view_entries() == old(self).view_entries(),
            forall|g: u64, k: Seq<char>| !(g == guild && k == key@) ==> #[trigger] cached(final(self).view_entries(), g, k)
                == cached(old(self).view_entries(), g, k),
            final(self).accesses() == old(self).accesses(),
            final(self).misses() == old(self).misses(),
    {
        if let Some(x) = v {
            self.complete_insert(guild, key, x);
        }
    }
}

/// The entry at `i` is the last one for its guild and key.
pub open spec fn last_match(es: Seq<(u64, Seq<char>, Option<Seq<char>>)>, i: int) -> bool {
    forall|j: int| i < j < es.len() ==> !(es[j].0 == es[i].0 && es[j].1 == es[i].1)
}

proof fn lemma_cached_last(es: Seq<(u64, Seq<char>, Option<Seq<char>>)>, i: int)
    requires
        0 <= i < es.len(),
        last_match(es, i),
    ensures
        cached(es, es[i].0, es[i].1) == Some(es[i].2),
    decreases es.len(),
{
    if i < es.len() - 1 {
        assert(last_match(es.drop_last(), i));
        lemma_cached_last(es.drop_last(), i);
    }
}

proof fn lemma_cached_update(
    es: Seq<(u64, Seq<char>, Option<Seq<char>>)>,
    i: int,
    e: (u64, Seq<char>, Option<Seq<char>>),
    g0: u64,
    k0: Seq<char>,
)
    requires
        0 <= i < es.len(),
        es[i].0 == g0 && es[i].1 == k0,
        e.0 == g0 && e.1 == k0,
        last_match(es, i),
    ensures
        cached(es.update(i, e), g0, k0) == Some(e.2),
        forall|g: u64, k: Seq<char>| !(g == g0 && k == k0) ==> #[trigger] cached(es.update(i, e), g, k) == cached(es, g, k),
    decreases es.len(),
{
    let u = es.update(i, e);
    if i < es.len() - 1 {
        assert(u.drop_last() =~= es.drop_last().update(i, e));
        assert(!(es.last().0 == g0 && es.last().1 == k0));
        assert(last_match(es.drop_last(), i));
        lemma_cached_update(es.drop_last(), i, e, g0, k0);
        assert(u.last() == es.last());
        assert forall|g: u64, k: Seq<char>| !(g == g0 && k == k0) implies #[trigger] cached(u, g, k) == cached(es, g, k) by {
            if !(es.last().0 == g && es.last().1 == k) {
                assert(cached(u.drop_last(), g, k) == cached(es.drop_last(), g, k));
            }
        }
    } else {
        assert(u.drop_last() =~= es.drop_last());
        assert forall|g: u64, k: Seq<char>| !(g == g0 && k == k0) implies #[trigger] cached(u, g, k) == cached(es, g, k) by {
            assert(u.last() == e);
        }
    }
    lemma_cached_last(u, i);
}

} // verus!
