//! A keyed cache whose entries expire according to an eviction strategy.

use vstd::prelude::*;
use std::collections::HashMap;
use std::sync::Arc;
use crate::error::Error;

verus! {

broadcast use vstd::std_specs::hash::group_hash_axioms;

/// A cached value together with the tag its strategy gave it when it was stored.
#[derive(Debug)]
pub struct Cached<V, Tag> {
    inner: Arc<(Tag, V)>,
}

impl<V, Tag> Cached<V, Tag> {
    /// The stored tag.
    pub closed spec fn spec_tag(&self) -> Tag {
        self.inner.0
    }

    /// The stored value.
    pub closed spec fn spec_value(&self) -> V {
        self.inner.1
    }

    /// The tag the strategy gave the value when it was stored.
    pub fn tag(&self) -> (t: &Tag)
        ensures
            *t == self.spec_tag(),
    {
        &self.inner.0
    }

    /// The cached value.
    pub fn value(&self) -> (v: &V)
        ensures
            *v == self.spec_value(),
    {
        &self.inner.1
    }

    /// Another handle on the same cached value.
    pub fn share(&self) -> (c: Cached<V, Tag>)
        ensures
            c.spec_tag() == self.spec_tag(),
            c.spec_value() == self.spec_value(),
    {
        Cached { inner: self.inner.clone() }
    }

    fn make(tag: Tag, value: V) -> (c: Cached<V, Tag>)
        ensures
            c.spec_tag() == tag,
            c.spec_value() == value,
    {
        Cached { inner: Arc::new((tag, value)) }
    }
}

/// Decides when cached entries expire.
pub trait EvictionStrategy {
    /// The tag stored with each entry.
    type Tag;

    /// Whether an entry tagged `t` has expired at time `now` (milliseconds).
    spec fn evicts(&self, t: Self::Tag, now: u64) -> bool;

    /// The tag given to an entry for `key` stored at time `now`.
    spec fn tag_for(&self, key: u64, now: u64) -> Self::Tag;

    /// Whether an entry tagged `t` has expired at time `now`.
    fn should_evict(&self, t: &Self::Tag, now: u64) -> (b: bool)
        ensures
            b == self.evicts(*t, now),
    ;

    /// The tag for an entry for `key` stored at time `now`.
    fn create_tag(&self, key: u64, now: u64) -> (t: Self::Tag)
        ensures
            t == self.tag_for(key, now),
    ;
}

/// Expires entries once they are older than a time to live.
#[derive(Copy, Clone, Debug)]
pub struct TimedEvictionStrategy {
    ttl: u64,
}

/// The time elapsed from `then` to `now`, zero when the clock went backwards.
pub open spec fn elapsed(then: u64, now: u64) -> int {
    if now >= then {
        now - then
    } else {
        0
    }
}

impl TimedEvictionStrategy {
    /// A strategy whose entries live for `ttl` milliseconds.
    pub fn new(ttl: u64) -> (s: TimedEvictionStrategy)
        ensures
            s.ttl() == ttl,
    {
        TimedEvictionStrategy { ttl }
    }

    /// The time to live, in milliseconds.
    pub closed spec fn ttl(&self) -> u64 {
        self.ttl
    }
}

impl EvictionStrategy for TimedEvictionStrategy {
    type Tag = u64;

    open spec fn evicts(&self, t: u64, now: u64) -> bool {
        self.ttl() < elapsed(t, now)
    }

    open spec fn tag_for(&self, key: u64, now: u64) -> u64 {
        now
    }

    fn should_evict(&self, t: &u64, now: u64) -> (b: bool) {
        let e: u64 = if now >= *t { now - *t } else { 0 };
        self.ttl < e
    }

    fn create_tag(&self, key: u64, now: u64) -> (t: u64) {
        now
    }
}

/// Never expires anything.
#[derive(Copy, Clone, Debug, Default)]
pub struct NullEvictionStrategy;

impl EvictionStrategy for NullEvictionStrategy {
    type Tag = ();

    open spec fn evicts(&self, t: (), now: u64) -> bool {
        false
    }

    open spec fn tag_for(&self, key: u64, now: u64) -> () {
        ()
    }

    fn should_evict(&self, t: &(), now: u64) -> (b: bool) {
        false
    }

    fn create_tag(&self, key: u64, now: u64) -> (t: ()) {
        ()
    }
}

/// A cache from integer keys to values, expiring entries with strategy `S`.
pub struct Cache<V, S: EvictionStrategy> {
    cache: HashMap<u64, Cached<V, S::Tag>>,
    strategy: S,
}

/// The old and new values of an updated entry.
#[derive(Debug)]
pub struct Update<V, Tag> {
    pub old: Option<Cached<V, Tag>>,
    pub new: Option<Cached<V, Tag>>,
}

/// The content of an optional cached value.
pub open spec fn entry_of<V, Tag>(c: Option<Cached<V, Tag>>) -> Option<(Tag, V)> {
    match c {
        Some(x) => Some((x.spec_tag(), x.spec_value())),
        None => None,
    }
}

/// What a read of `key` at `now` sees in `m`: the stored entry, unless it has expired.
pub open spec fn fresh_entry<V, S: EvictionStrategy>(s: S, m: Map<u64, (S::Tag, V)>, key: u64, now: u64) -> Option<(S::Tag, V)> {
    if m.contains_key(key) && !s.evicts(m[key].0, now) {
        Some(m[key])
    } else {
        None
    }
}

/// An update of `key` at `now` by `update_fn` took the entries from `before` to `after`:
/// `previous` is the key's fresh entry before; `update_fn` was given its value (`None` when
/// there was none) and gave the value of `stored`, which is now the key's entry with a tag
/// made at `now`; when it gave `None`, the key was removed.
pub open spec fn updated_by<V, S: EvictionStrategy, F: Fn(Option<&V>) -> Option<V>>(
    s: S,
    before: Map<u64, (S::Tag, V)>,
    after: Map<u64, (S::Tag, V)>,
    key: u64,
    now: u64,
    update_fn: F,
    previous: Option<(S::Tag, V)>,
    stored: Option<(S::Tag, V)>,
) -> bool {
    let passed = match previous {
        Some(e) => Some(&e.1),
        None => None,
    };
    &&& previous == fresh_entry(s, before, key, now)
    &&& match stored {
        Some(e) => update_fn.ensures((passed,), Some(e.1)) && e.0 == s.tag_for(key, now) && after
            == before.insert(key, e),
        None => update_fn.ensures((passed,), None::<V>) && after == before.remove(key),
    }
}

impl<V, S: EvictionStrategy> Cache<V, S> {
    /// The entries of the cache.
    pub closed spec fn entries(&self) -> Map<u64, (S::Tag, V)> {
        Map::new(
            |k: u64| self.cache@.contains_key(k),
            |k: u64| (self.cache@[k].spec_tag(), self.cache@[k].spec_value()),
        )
    }

    /// The cache's strategy.
    pub closed spec fn spec_strategy(&self) -> S {
        self.strategy
    }

    /// An empty cache using `strategy`.
    pub fn new(strategy: S) -> (c: Cache<V, S>)
        ensures
            c.entries() == Map::<u64, (S::Tag, V)>::empty(),
            c.spec_strategy() == strategy,
    {
        let c = Cache { cache: HashMap::new(), strategy };
        assert(c.entries() =~= Map::<u64, (S::Tag, V)>::empty());
        c
    }

    /// Stores `v` under `key` at time `now`, replacing any previous entry.
    pub fn insert(&mut self, key: u64, v: V, now: u64)
        ensures
            final(self).spec_strategy() == old(self).spec_strategy(),
            final(self).entries() == old(self).entries().insert(
                key,
                (old(self).spec_strategy().tag_for(key, now), v),
            ),
    {
        let tag = self.strategy.create_tag(key, now);
        self.cache.insert(key, Cached::make(tag, v));
        assert(self.entries() =~= old(self).entries().insert(
            key,
            (old(self).spec_strategy().tag_for(key, now), v),
        ));
    }

    /// The entry of `key` at time `now`, if it has not expired. An expired entry is dropped.
    pub fn get(&mut self, key: u64, now: u64) -> (r: Option<Cached<V, S::Tag>>)
        ensures
            final(self).spec_strategy() == old(self).spec_strategy(),
            entry_of(r) == fresh_entry(old(self).spec_strategy(), old(self).entries(), key, now),
            r is Some ==> final(self).entries() == old(self).entries(),
            r is None ==> final(self).entries() == old(self).entries().remove(key),
    {
        let found = match self.cache.get(&key) {
            Some(c) => if self.strategy.should_evict(c.tag(), now) {
                None
            } else {
                Some(c.share())
            },
            None => None,
        };
        if found.is_none() {
            self.cache.remove(&key);
            assert(self.entries() =~= old(self).entries().remove(key));
        }
        found
    }

    /// Removes the entry of `key`, expired or not, and returns it.
    pub fn remove(&mut self, key: u64) -> (r: Option<Cached<V, S::Tag>>)
        ensures
            final(self).spec_strategy() == old(self).spec_strategy(),
            entry_of(r) == if old(self).entries().contains_key(key) {
                Some(old(self).entries()[key])
            } else {
                None
            },
            final(self).entries() == old(self).entries().remove(key),
    {
        let r = self.cache.remove(&key);
        assert(self.entries() =~= old(self).entries().remove(key));
        r
    }

    /// Replaces the entry of `key` with what `update_fn` makes of its current value (`None`
    /// when absent or expired); a `None` from `update_fn` leaves the key empty.
    pub fn update<F: Fn(Option<&V>) -> Option<V>>(&mut self, key: u64, now: u64, update_fn: F) -> (u:
        Update<V, S::Tag>)
        requires
            forall|x: Option<&V>| update_fn.requires((x,)),
        ensures
            final(self).spec_strategy() == old(self).spec_strategy(),
            updated_by(
                old(self).spec_strategy(),
                old(self).entries(),
                final(self).entries(),
                key,
                now,
                update_fn,
                entry_of(u.old),
                entry_of(u.new),
            ),
    {
        let current = self.get(key, now);
        let ghost mid = self.entries();
        assert(mid.remove(key) =~= old(self).entries().remove(key));
        let new = match &current {
            Some(c) => update_fn(Some(c.value())),
            None => update_fn(None),
        };
        let stored = match new {
            Some(v) => {
                let tag = self.strategy.create_tag(key, now);
                let c = Cached::make(tag, v);
                self.cache.insert(key, c.share());
                assert(self.entries() =~= mid.insert(key, (c.spec_tag(), c.spec_value())));
                assert(mid.insert(key, (c.spec_tag(), c.spec_value())) =~= old(self).entries().insert(
                    key,
                    (c.spec_tag(), c.spec_value()),
                ));
                Some(c)
            },
            None => {
                self.cache.remove(&key);
                assert(self.entries() =~= mid.remove(key));
                None
            },
        };
        Update { old: current, new: stored }
    }

    /// Updates `key` (see [`Cache::update`]) and returns its new entry.
    pub fn update_and_fetch<F: Fn(Option<&V>) -> Option<V>>(&mut self, key: u64, now: u64, update_fn: F) -> (r:
        Option<Cached<V, S::Tag>>)
        requires
            forall|x: Option<&V>| update_fn.requires((x,)),
        ensures
            final(self).spec_strategy() == old(self).spec_strategy(),
            updated_by(
                old(self).spec_strategy(),
                old(self).entries(),
                final(self).entries(),
                key,
                now,
                update_fn,
                fresh_entry(old(self).spec_strategy(), old(self).entries(), key, now),
                entry_of(r),
            ),
    {
        let u = self.update(key, now, update_fn);
        u.new
    }

    /// Updates `key` (see [`Cache::update`]) and returns the entry it had, if it had not
    /// expired.
    pub fn fetch_and_update<F: Fn(Option<&V>) -> Option<V>>(&mut self, key: u64, now: u64, update_fn: F) -> (r:
        Option<Cached<V, S::Tag>>)
        requires
            forall|x: Option<&V>| update_fn.requires((x,)),
        ensures
            final(self).spec_strategy() == old(self).spec_strategy(),
            exists|stored: Option<(S::Tag, V)>|
                #[trigger] updated_by(
                    old(self).spec_strategy(),
                    old(self).entries(),
                    final(self).entries(),
                    key,
                    now,
                    update_fn,
                    entry_of(r),
                    stored,
                ),
    {
        let u = self.update(key, now, update_fn);
        u.old
    }

    /// The entry of `key` while it has not expired; otherwise (absent or expired) `f`
    /// supplies a value that is stored at `now` in its place. An error from `f` is passed on,
    /// leaving the cache unchanged.
    pub fn get_or_insert_with<F: FnOnce() -> Result<V, Error>>(&mut self, key: u64, now: u64, f: F) -> (r:
        Result<Cached<V, S::Tag>, Error>)
        requires
            f.requires(()),
        ensures
            final(self).spec_strategy() == old(self).spec_strategy(),
            fresh_entry(old(self).spec_strategy(), old(self).entries(), key, now) is Some ==> (r matches Ok(c)
                && entry_of(Some(c)) == Some(old(self).entries()[key]) && final(self).entries()
                == old(self).entries()),
            fresh_entry(old(self).spec_strategy(), old(self).entries(), key, now) is None ==> exists|
                out: Result<V, Error>,
            |
                #![trigger f.ensures((), out)]
                f.ensures((), out) && match out {
                    Err(e) => r == Err::<Cached<V, S::Tag>, Error>(e) && final(self).entries()
                        == old(self).entries(),
                    Ok(v) => r matches Ok(c) && c.spec_tag() == old(self).spec_strategy().tag_for(key, now)
                        && c.spec_value() == v && final(self).entries() == old(self).entries().insert(
                        key,
                        (c.spec_tag(), v),
                    ),
                },
    {
        match self.cache.get(&key) {
            Some(c) => {
                if !self.strategy.should_evict(c.tag(), now) {
                    return Ok(c.share());
                }
            },
            None => {},
        }
        let out = f();
        match out {
            Err(e) => Err(e),
            Ok(v) => {
                let tag = self.strategy.create_tag(key, now);
                let c = Cached::make(tag, v);
                self.cache.insert(key, c.share());
                assert(self.entries() =~= old(self).entries().insert(key, (c.spec_tag(), c.spec_value())));
                Ok(c)
            },
        }
    }
}

impl<V, S: EvictionStrategy> Cache<V, S> {
    /// The entry of `key` while it has not expired; otherwise `val` supplies a value that is
    /// stored at `now` (see [`Cache::get_or_insert_with`], whose supplier here cannot fail).
    pub fn get_or_insert_sync<G: FnOnce() -> V>(&mut self, key: u64, now: u64, val: G) -> (r: Cached<V, S::Tag>)
        requires
            val.requires(()),
        ensures
            final(self).spec_strategy() == old(self).spec_strategy(),
            fresh_entry(old(self).spec_strategy(), old(self).entries(), key, now) is Some ==> entry_of(Some(r))
                == Some(old(self).entries()[key]) && final(self).entries() == old(self).entries(),
            fresh_entry(old(self).spec_strategy(), old(self).entries(), key, now) is None ==> exists|v: V|
                #![trigger val.ensures((), v)]
                val.ensures((), v) && r.spec_value() == v && r.spec_tag()
                    == old(self).spec_strategy().tag_for(key, now) && final(self).entries()
                    == old(self).entries().insert(key, (r.spec_tag(), v)),
    {
        let f = move || -> (out: Result<V, Error>)
            requires
                val.requires(()),
            ensures
                out matches Ok(v) && val.ensures((), v),
        {
            Ok(val())
        };
        let res = self.get_or_insert_with(key, now, f);
        match res {
            Ok(c) => c,
            Err(_) => {
                proof {
                    if fresh_entry(old(self).spec_strategy(), old(self).entries(), key, now) is Some {
                    } else {
                        let out = choose|out: Result<V, Error>| #[trigger] f.ensures((), out) && match out {
                            Err(e) => res == Err::<Cached<V, S::Tag>, Error>(e) && self.entries() == old(self).entries(),
                            Ok(v) => true,
                        };
                        assert(false);
                    }
                    assert(false);
                }
                vstd::pervasive::unreached()
            },
        }
    }
}

impl<V: Default, S: EvictionStrategy> Cache<V, S> {
    /// Stores `V`'s default value under `key` at time `now`.
    pub fn reset(&mut self, key: u64, now: u64)
        ensures
            final(self).spec_strategy() == old(self).spec_strategy(),
            exists|v: V|
                #![trigger call_ensures(V::default, (), v)]
                call_ensures(V::default, (), v) && final(self).entries() == old(self).entries().insert(
                    key,
                    (old(self).spec_strategy().tag_for(key, now), v),
                ),
    {
        let v = V::default();
        self.insert(key, v, now);
    }

    /// The entry of `key` while it has not expired; otherwise `V`'s default value is stored at
    /// `now`.
    pub fn get_or_insert_default(&mut self, key: u64, now: u64) -> (r: Cached<V, S::Tag>)
        ensures
            final(self).spec_strategy() == old(self).spec_strategy(),
            fresh_entry(old(self).spec_strategy(), old(self).entries(), key, now) is Some ==> entry_of(Some(r))
                == Some(old(self).entries()[key]) && final(self).entries() == old(self).entries(),
            fresh_entry(old(self).spec_strategy(), old(self).entries(), key, now) is None ==> call_ensures(
                V::default,
                (),
                r.spec_value(),
            ) && r.spec_tag() == old(self).spec_strategy().tag_for(key, now) && final(self).entries()
                == old(self).entries().insert(key, (r.spec_tag(), r.spec_value())),
    {
        self.get_or_insert_sync(key, now, V::default)
    }
}

impl<V> Cache<V, NullEvictionStrategy> {
    /// An empty cache whose entries never expire.
    pub fn null() -> (c: Cache<V, NullEvictionStrategy>)
        ensures
            c.entries() == Map::<u64, ((), V)>::empty(),
    {
        Cache::new(NullEvictionStrategy)
    }
}

/// A cache whose entries expire after a time to live.
pub struct TimedCache<V> {
    inner: Cache<V, TimedEvictionStrategy>,
}

impl<V> TimedCache<V> {
    /// An empty cache whose entries live for `ttl` milliseconds.
    pub fn new(ttl: u64) -> (c: TimedCache<V>)
        ensures
            c.inner().entries() == Map::<u64, (u64, V)>::empty(),
            c.inner().spec_strategy().ttl() == ttl,
    {
        TimedCache { inner: Cache::new(TimedEvictionStrategy::new(ttl)) }
    }

    /// The underlying cache.
    pub closed spec fn inner(&self) -> Cache<V, TimedEvictionStrategy> {
        self.inner
    }

    /// The underlying cache.
    pub fn as_cache(&self) -> (c: &Cache<V, TimedEvictionStrategy>)
        ensures
            *c == self.inner(),
    {
        &self.inner
    }

    /// The underlying cache, for changes.
    pub fn as_cache_mut(&mut self) -> (c: &mut Cache<V, TimedEvictionStrategy>)
        ensures
            *c == old(self).inner(),
            final(self).inner() == *final(c),
    {
        &mut self.inner
    }
}

/// A read of a key just written, before its entry expires, gives back what was written;
/// other keys read as they did before the write.
pub proof fn cache_read_after_write<V, S: EvictionStrategy>(
    s: S,
    m: Map<u64, (S::Tag, V)>,
    key: u64,
    v: V,
    written: u64,
    other: u64,
    now: u64,
)
    requires
        !s.evicts(s.tag_for(key, written), now),
    ensures
        fresh_entry(s, m.insert(key, (s.tag_for(key, written), v)), key, now) == Some(
            (s.tag_for(key, written), v),
        ),
        other != key ==> fresh_entry(s, m.insert(key, (s.tag_for(key, written), v)), other, now)
            == fresh_entry(s, m, other, now),
{
}

/// With the timed strategy, an entry is fresh exactly while no more than its time to live
/// has elapsed since it was written.
pub proof fn timed_entry_lifetime(s: TimedEvictionStrategy, key: u64, written: u64, now: u64)
    ensures
        !s.evicts(s.tag_for(key, written), now) <==> elapsed(written, now) <= s.ttl(),
{
}

/// With entries that never expire, a read after an update (by [`Cache::update`],
/// [`Cache::update_and_fetch`] or [`Cache::fetch_and_update`]) sees what `update_fn` made of
/// the value it was given: the stored entry, or nothing when it gave `None`; other keys read
/// as before.
pub proof fn read_after_update<V, F: Fn(Option<&V>) -> Option<V>>(
    s: NullEvictionStrategy,
    before: Map<u64, ((), V)>,
    after: Map<u64, ((), V)>,
    key: u64,
    now: u64,
    update_fn: F,
    previous: Option<((), V)>,
    stored: Option<((), V)>,
    other: u64,
)
    requires
        updated_by(s, before, after, key, now, update_fn, previous, stored),
    ensures
        previous == (if before.contains_key(key) {
            Some(before[key])
        } else {
            None
        }),
        fresh_entry(s, after, key, now) == stored,
        other != key ==> fresh_entry(s, after, other, now) == fresh_entry(s, before, other, now),
{
}

} // verus!
