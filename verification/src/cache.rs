//! A bounded in-memory cache whose entries may expire.
//!
//! Time is read from a monotonic clock as nanoseconds since the cache was made; the
//! `*_at` methods take that reading as an argument and are exact, the others read the
//! clock and call them.
use std::collections::HashMap;
use std::hash::Hash;
use vstd::prelude::*;
use vstd::std_specs::hash::obeys_key_model;
use vstd::std_specs::iter::IteratorSpec;

verus! {

/// Nanoseconds in one second.
pub const NANOS_PER_SEC: u128 = 1_000_000_000;

#[verifier::external_type_specification]
#[verifier::external_body]
pub struct ExClockOrigin(tokio::time::Instant);

/// Calls `tokio::time::Instant::now`. Nothing is claimed of the instant.
#[verifier::external_body]
fn clock_origin() -> tokio::time::Instant {
    tokio::time::Instant::now()
}

/// Calls `Instant::elapsed` on `origin` and reads the duration with `as_nanos`. The
/// reading depends on the clock; nothing is claimed.
#[verifier::external_body]
fn nanos_since(origin: &tokio::time::Instant) -> u128 {
    origin.elapsed().as_nanos()
}

/// A cached value and the instant after which it is stale, if any.
#[derive(Debug)]
pub struct CacheEntry<V> {
    pub value: V,
    pub expires_at: Option<u128>,
}

/// The instant at which an entry written at `now` with the given lifetime goes stale.
pub open spec fn expiry(ttl_secs: Option<u64>, now: u128) -> Option<u128> {
    match ttl_secs {
        Some(secs) => Some((now + secs * NANOS_PER_SEC) as u128),
        None => None,
    }
}

/// The entry is stale at `now`: it has an expiry and `now` is past it.
pub open spec fn is_stale<V>(e: CacheEntry<V>, now: u128) -> bool {
    match e.expires_at {
        Some(t) => now > t,
        None => false,
    }
}

/// The entries of `m` that are not stale at `now`.
pub open spec fn live_part<K, V>(m: Map<K, CacheEntry<V>>, now: u128) -> Map<K, CacheEntry<V>> {
    Map::new(|k: K| m.contains_key(k) && !is_stale(m[k], now), |k: K| m[k])
}

/// `kept` is a possible content of the cache after making room in `before` (the cache
/// bounded by `max_size`, at instant `now`), before the new entry goes in. When the cache
/// is full, the stale entries go; if it is still full, entries are dropped until
/// `max_size / 2` remain, which ones being up to the map's iteration order.
pub open spec fn room_made<K, V>(
    before: Map<K, CacheEntry<V>>,
    kept: Map<K, CacheEntry<V>>,
    max_size: nat,
    now: u128,
) -> bool {
    if before.len() < max_size {
        kept == before
    } else {
        let live = live_part(before, now);
        if live.len() < max_size {
            kept == live
        } else {
            kept.submap_of(live) && kept.len() == max_size / 2
        }
    }
}

impl<V> CacheEntry<V> {
    /// An entry written at `now` that goes stale `ttl_secs` seconds later, or never.
    pub fn new(value: V, ttl_secs: Option<u64>, now: u128) -> (e: CacheEntry<V>)
        requires
            now <= u64::MAX as u128,
        ensures
            e.value == value,
            e.expires_at == expiry(ttl_secs, now),
    {
        let expires_at = match ttl_secs {
            Some(secs) => Some(now + (secs as u128) * NANOS_PER_SEC),
            None => None,
        };
        CacheEntry { value, expires_at }
    }

    /// Whether the entry is stale at `now`.
    pub fn is_expired(&self, now: u128) -> (r: bool)
        ensures
            r == is_stale(*self, now),
    {
        match self.expires_at {
            Some(t) => now > t,
            None => false,
        }
    }
}

/// A map from keys to entries that never holds more than about `max_size` of them.
pub struct CacheManager<K, V> {
    entries: HashMap<K, CacheEntry<V>>,
    max_size: usize,
    origin: tokio::time::Instant,
}

impl<K, V> View for CacheManager<K, V> {
    type V = Map<K, CacheEntry<V>>;

    closed spec fn view(&self) -> Map<K, CacheEntry<V>> {
        self.entries@
    }
}

/// Removes the distinct keys `ks`, all present, from `m`.
fn remove_keys<K: Eq + Hash, V>(m: &mut HashMap<K, CacheEntry<V>>, ks: &Vec<K>)
    requires
        obeys_key_model::<K>(),
        ks@.no_duplicates(),
        forall|i: int| 0 <= i < ks@.len() ==> old(m)@.contains_key(#[trigger] ks@[i]),
    ensures
        final(m)@ == old(m)@.remove_keys(ks@.to_set()),
        final(m)@.len() == old(m)@.len() - ks@.len(),
{
    let ghost start = m@;
    let mut i: usize = 0;
    while i < ks.len()
        invariant
            obeys_key_model::<K>(),
            ks@.no_duplicates(),
            forall|j: int| 0 <= j < ks@.len() ==> start.contains_key(#[trigger] ks@[j]),
            i <= ks@.len(),
            forall|k: K|
                #[trigger] m@.contains_key(k) <==> start.contains_key(k) && (forall|j: int|
                    0 <= j < i ==> ks@[j] != k),
            forall|k: K| #[trigger] m@.contains_key(k) ==> m@[k] == start[k],
            m@.dom().finite(),
            m@.len() == start.len() - i,
        decreases ks@.len() - i,
    {
        let ghost before = m@;
        let ghost x = ks@[i as int];
        assert(before.contains_key(x)) by {
            assert forall|j: int| 0 <= j < i implies ks@[j] != x by {
                assert(ks@[j] != ks@[i as int]);
            }
        }
        m.remove(&ks[i]);
        proof {
            before.lemma_remove_key_len(x);
        }
        i = i + 1;
    }
    assert(m@ =~= start.remove_keys(ks@.to_set())) by {
        assert forall|k: K| #[trigger] ks@.contains(k) implies !m@.contains_key(k) by {
            let j = choose|j: int| 0 <= j < ks@.len() && ks@[j] == k;
            assert(ks@[j] == k);
        }
    }
}

/// The keys of `m` in its iteration order.
fn key_list<K: Eq + Hash + Copy, V>(m: &HashMap<K, CacheEntry<V>>) -> (ks: Vec<K>)
    requires
        obeys_key_model::<K>(),
    ensures
        ks@.no_duplicates(),
        ks@.len() == m@.len(),
        forall|k: K| #[trigger] ks@.contains(k) <==> m@.contains_key(k),
{
    let mut ks: Vec<K> = Vec::new();
    for k in it: m.keys()
        invariant
            obeys_key_model::<K>(),
            it.seq() == m.keys().remaining(),
            ks@ == it.seq().subrange(0, it.index()).unref(),
    {
        assert(it.seq()[it.index()] == k);
        ks.push(*k);
        assert(ks@ =~= it.seq().subrange(0, it.index() + 1).unref());
    }
    assert(ks@ =~= m.keys().remaining().unref());
    ks
}

/// The keys of `m` whose entries are stale at `now`.
fn stale_keys<K: Eq + Hash + Copy, V>(m: &HashMap<K, CacheEntry<V>>, now: u128) -> (ks: Vec<K>)
    requires
        obeys_key_model::<K>(),
    ensures
        ks@.no_duplicates(),
        forall|i: int| 0 <= i < ks@.len() ==> m@.contains_key(#[trigger] ks@[i]),
        forall|k: K| #[trigger] ks@.contains(k) <==> m@.contains_key(k) && is_stale(m@[k], now),
{
    let all = key_list(m);
    let mut ks: Vec<K> = Vec::new();
    let mut i: usize = 0;
    while i < all.len()
        invariant
            obeys_key_model::<K>(),
            all@.no_duplicates(),
            forall|k: K| #[trigger] all@.contains(k) <==> m@.contains_key(k),
            i <= all@.len(),
            ks@.no_duplicates(),
            forall|k: K|
                #[trigger] ks@.contains(k) <==> (exists|j: int| 0 <= j < i && all@[j] == k)
                    && m@.contains_key(k) && is_stale(m@[k], now),
        decreases all@.len() - i,
    {
        let key: K = all[i];
        assert(all@.contains(key));
        let ghost prev = ks@;
        let ghost old_i = i as int;
        let mut pushed = false;
        match m.get(&key) {
            Some(e) => {
                if e.is_expired(now) {
                    assert(!ks@.contains(key)) by {
                        if ks@.contains(key) {
                            let j = choose|j: int| 0 <= j < i && all@[j] == key;
                            assert(all@[j] == all@[i as int]);
                        }
                    }
                    ks.push(key);
                    pushed = true;
                }
            },
            None => {},
        }
        i = i + 1;
        assert(pushed ==> ks@ == prev.push(key));
        assert(!pushed ==> ks@ == prev);
        assert(pushed <==> m@.contains_key(key) && is_stale(m@[key], now));
        assert forall|k: K|
            #[trigger] ks@.contains(k) <==> (exists|j: int| 0 <= j < i && all@[j] == k) && m@.contains_key(
                k,
            ) && is_stale(m@[k], now) by {
            assert((exists|j: int| 0 <= j < i && all@[j] == k) <==> ((exists|j: int|
                0 <= j < old_i && all@[j] == k) || all@[old_i] == k)) by {
                if exists|j: int| 0 <= j < i && all@[j] == k {
                    let j = choose|j: int| 0 <= j < i && all@[j] == k;
                    if j < old_i {
                        assert(exists|j2: int| 0 <= j2 < old_i && all@[j2] == k);
                    }
                }
                if all@[old_i] == k {
                    assert(0 <= old_i < i && all@[old_i] == k);
                }
            }
            if pushed {
                assert(ks@.contains(k) <==> prev.contains(k) || k == key) by {
                    if ks@.contains(k) {
                        let j = choose|j: int| 0 <= j < ks@.len() && ks@[j] == k;
                        if j < prev.len() {
                            assert(prev[j] == k);
                        }
                    }
                    if prev.contains(k) {
                        let j = choose|j: int| 0 <= j < prev.len() && prev[j] == k;
                        assert(ks@[j] == k);
                    }
                    if k == key {
                        assert(ks@[prev.len() as int] == k);
                    }
                }
            }
        }
    }
    assert forall|k: K| m@.contains_key(k) && is_stale(m@[k], now) implies #[trigger] ks@.contains(k) by {
        assert(all@.contains(k));
        let j = choose|j: int| 0 <= j < all@.len() && all@[j] == k;
        assert(exists|j2: int| 0 <= j2 < i && all@[j2] == k);
    }
    assert forall|j: int| 0 <= j < ks@.len() implies m@.contains_key(#[trigger] ks@[j]) by {
        assert(ks@.contains(ks@[j]));
    }
    ks
}

/// The first `n` keys of `m` in its iteration order.
fn some_keys<K: Eq + Hash + Copy, V>(m: &HashMap<K, CacheEntry<V>>, n: usize) -> (ks: Vec<K>)
    requires
        obeys_key_model::<K>(),
        n <= m@.len(),
    ensures
        ks@.no_duplicates(),
        ks@.len() == n,
        forall|i: int| 0 <= i < ks@.len() ==> m@.contains_key(#[trigger] ks@[i]),
{
    let all = key_list(m);
    let mut ks: Vec<K> = Vec::new();
    let mut i: usize = 0;
    while i < n
        invariant
            all@.no_duplicates(),
            all@.len() == m@.len(),
            forall|k: K| #[trigger] all@.contains(k) <==> m@.contains_key(k),
            n <= all@.len(),
            i <= n,
            ks@ == all@.subrange(0, i as int),
        decreases n - i,
    {
        ks.push(all[i]);
        i = i + 1;
        assert(ks@ =~= all@.subrange(0, i as int));
    }
    assert forall|j: int| 0 <= j < ks@.len() implies m@.contains_key(#[trigger] ks@[j]) by {
        assert(all@.contains(all@[j]));
    }
    ks
}

impl<K: Eq + Hash + Copy, V: Clone> CacheManager<K, V> {
    /// The bound the cache was made with.
    pub closed spec fn capacity(&self) -> nat {
        self.max_size as nat
    }

    /// An empty cache that makes room once it holds `max_size` entries.
    pub fn new(max_size: usize) -> (c: Self)
        requires
            obeys_key_model::<K>(),
        ensures
            c@ == Map::<K, CacheEntry<V>>::empty(),
            c.capacity() == max_size,
    {
        CacheManager { entries: HashMap::new(), max_size, origin: clock_origin() }
    }

    /// The instant on the cache's clock.
    fn now(&self) -> u128 {
        nanos_since(&self.origin)
    }

    /// The value for `key` at instant `now`: present when the key has an entry that is
    /// not stale then.
    pub fn get_at(&self, key: &K, now: u128) -> (r: Option<V>)
        requires
            obeys_key_model::<K>(),
        ensures
            match r {
                Some(v) => self@.contains_key(*key) && !is_stale(self@[*key], now) && cloned(
                    self@[*key].value,
                    v,
                ),
                None => !self@.contains_key(*key) || is_stale(self@[*key], now),
            },
    {
        match self.entries.get(key) {
            Some(entry) => {
                if !entry.is_expired(now) {
                    Some(entry.value.clone())
                } else {
                    None
                }
            },
            None => None,
        }
    }

    /// The value for `key` now, if it has an entry that is not stale: the result is what
    /// [`CacheManager::get_at`] gives at the instant the clock reads. An entry that never
    /// expires is always found.
    pub fn get(&self, key: &K) -> (r: Option<V>)
        requires
            obeys_key_model::<K>(),
        ensures
            exists|now: u128|
                #![trigger is_stale(self@[*key], now)]
                match r {
                    Some(v) => self@.contains_key(*key) && !is_stale(self@[*key], now) && cloned(
                        self@[*key].value,
                        v,
                    ),
                    None => !self@.contains_key(*key) || is_stale(self@[*key], now),
                },
            self@.contains_key(*key) && self@[*key].expires_at is None ==> (r matches Some(v)
                && cloned(self@[*key].value, v)),
            !self@.contains_key(*key) ==> r is None,
    {
        let now = self.now();
        let r = self.get_at(key, now);
        proof {
            let _stale_then = is_stale(self@[*key], now);
        }
        r
    }

    /// Stores `value` for `key` at instant `now`, stale `ttl_secs` seconds later or never.
    /// When the cache is full it first drops its stale entries and then, if still full,
    /// enough others to leave `max_size / 2`.
    pub fn set_with_ttl_at(&mut self, key: K, value: V, ttl_secs: Option<u64>, now: u128)
        requires
            obeys_key_model::<K>(),
            now <= u64::MAX as u128,
        ensures
            exists|kept: Map<K, CacheEntry<V>>|
                #![trigger room_made(old(self)@, kept, old(self).capacity(), now)]
                room_made(old(self)@, kept, old(self).capacity(), now) && final(self)@ == kept.insert(
                    key,
                    CacheEntry { value, expires_at: expiry(ttl_secs, now) },
                ),
            final(self).capacity() == old(self).capacity(),
    {
        let ghost before = self.entries@;
        if self.entries.len() >= self.max_size {
            let stale = stale_keys(&self.entries, now);
            remove_keys(&mut self.entries, &stale);
            assert(self.entries@ =~= live_part(before, now));
            if self.entries.len() >= self.max_size {
                let to_remove = self.entries.len() - self.max_size / 2;
                let ghost live = self.entries@;
                let victims = some_keys(&self.entries, to_remove);
                remove_keys(&mut self.entries, &victims);
                assert(self.entries@.submap_of(live));
            }
        }
        let ghost kept = self.entries@;
        assert(room_made(before, kept, self.max_size as nat, now));
        let entry = CacheEntry::new(value, ttl_secs, now);
        self.entries.insert(key, entry);
        assert(self.entries@ == kept.insert(key, CacheEntry { value, expires_at: expiry(ttl_secs, now) }));
        assert(room_made(old(self)@, kept, old(self).capacity(), now));
    }

    /// Stores `value` for `key` now: the cache becomes what
    /// [`CacheManager::set_with_ttl_at`] makes of it at the instant the clock reads.
    pub fn set_with_ttl(&mut self, key: K, value: V, ttl_secs: Option<u64>)
        requires
            obeys_key_model::<K>(),
        ensures
            exists|now: u128, kept: Map<K, CacheEntry<V>>|
                #![trigger room_made(old(self)@, kept, old(self).capacity(), now)]
                now <= u64::MAX && room_made(old(self)@, kept, old(self).capacity(), now)
                    && final(self)@ == kept.insert(
                    key,
                    CacheEntry { value, expires_at: expiry(ttl_secs, now) },
                ),
            final(self)@.contains_key(key),
            final(self)@[key].value == value,
            final(self).capacity() == old(self).capacity(),
    {
        let now = self.now();
        if now > u64::MAX as u128 {
            // The clock would have to run for centuries to get here.
            self.set_with_ttl_at(key, value, ttl_secs, u64::MAX as u128);
        } else {
            self.set_with_ttl_at(key, value, ttl_secs, now);
        }
    }

    /// Stores `value` for `key` with no expiry, making room as
    /// [`CacheManager::set_with_ttl_at`] does at the instant the clock reads.
    pub fn set(&mut self, key: K, value: V)
        requires
            obeys_key_model::<K>(),
        ensures
            final(self)@.contains_key(key),
            final(self)@[key].value == value,
            final(self)@[key].expires_at is None,
            exists|now: u128, kept: Map<K, CacheEntry<V>>|
                #![trigger room_made(old(self)@, kept, old(self).capacity(), now)]
                now <= u64::MAX && room_made(old(self)@, kept, old(self).capacity(), now)
                    && final(self)@ == kept.insert(key, CacheEntry { value, expires_at: None }),
            final(self).capacity() == old(self).capacity(),
    {
        let now = self.now();
        let now = if now > u64::MAX as u128 { u64::MAX as u128 } else { now };
        self.set_with_ttl_at(key, value, None, now);
    }

    /// Removes the entry for `key` and returns its value, stale or not.
    pub fn remove(&mut self, key: &K) -> (r: Option<V>)
        requires
            obeys_key_model::<K>(),
        ensures
            final(self)@ == old(self)@.remove(*key),
            final(self).capacity() == old(self).capacity(),
            match r {
                Some(v) => old(self)@.contains_key(*key) && v == old(self)@[*key].value,
                None => !old(self)@.contains_key(*key),
            },
    {
        match self.entries.remove(key) {
            Some(e) => Some(e.value),
            None => None,
        }
    }

    /// Removes every entry.
    pub fn clear(&mut self)
        ensures
            final(self)@ == Map::<K, CacheEntry<V>>::empty(),
            final(self).capacity() == old(self).capacity(),
    {
        self.entries.clear();
    }

    /// Removes the entries that are stale at `now`.
    pub fn cleanup_at(&mut self, now: u128)
        requires
            obeys_key_model::<K>(),
        ensures
            final(self)@ == live_part(old(self)@, now),
            final(self).capacity() == old(self).capacity(),
    {
        let ghost before = self.entries@;
        let stale = stale_keys(&self.entries, now);
        remove_keys(&mut self.entries, &stale);
        assert(self.entries@ =~= live_part(before, now));
    }

    /// Removes the entries that are stale now: what is left is what
    /// [`CacheManager::cleanup_at`] leaves at the instant the clock reads.
    pub fn cleanup(&mut self)
        requires
            obeys_key_model::<K>(),
        ensures
            exists|now: u128| #[trigger] live_part(old(self)@, now) == final(self)@,
            final(self)@.submap_of(old(self)@),
            final(self).capacity() == old(self).capacity(),
    {
        let now = self.now();
        self.cleanup_at(now);
    }

    /// The number of entries, stale ones included.
    pub fn len(&self) -> (n: usize)
        requires
            obeys_key_model::<K>(),
        ensures
            n == self@.len(),
    {
        self.entries.len()
    }

    /// Whether the cache holds no entry.
    pub fn is_empty(&self) -> (b: bool)
        requires
            obeys_key_model::<K>(),
        ensures
            b == (self@.len() == 0),
    {
        self.len() == 0
    }
}

/// What a write leaves in the cache: the written entry, under its key.
pub proof fn lemma_write_then_read<K, V>(
    before: Map<K, CacheEntry<V>>,
    kept: Map<K, CacheEntry<V>>,
    after: Map<K, CacheEntry<V>>,
    max_size: nat,
    key: K,
    entry: CacheEntry<V>,
    now: u128,
)
    requires
        room_made(before, kept, max_size, now),
        after == kept.insert(key, entry),
    ensures
        after.contains_key(key),
        after[key] == entry,
        forall|k: K| k != key && #[trigger] after.contains_key(k) ==> before.contains_key(k)
            && after[k] == before[k],
{
    assert forall|k: K| k != key && #[trigger] after.contains_key(k) implies before.contains_key(k)
        && after[k] == before[k] by {
        assert(kept.contains_key(k));
        if before.len() >= max_size {
            let live = live_part(before, now);
            assert(live.contains_key(k));
        }
    }
}

/// Making room never invents or changes an entry, and evicts live entries only when the
/// live entries alone fill the cache: a cache below its bound keeps everything, and one
/// whose live entries are fewer than its bound keeps every live entry as it was.
pub proof fn lemma_room_keeps_live_entries<K, V>(
    before: Map<K, CacheEntry<V>>,
    kept: Map<K, CacheEntry<V>>,
    max_size: nat,
    now: u128,
)
    requires
        room_made(before, kept, max_size, now),
    ensures
        forall|k: K| #[trigger] kept.contains_key(k) ==> before.contains_key(k) && kept[k] == before[k],
        before.len() < max_size ==> kept == before,
        live_part(before, now).len() < max_size ==> forall|k: K|
            before.contains_key(k) && !is_stale(before[k], now) ==> #[trigger] kept.contains_key(k)
                && kept[k] == before[k],
        before.len() >= max_size ==> forall|k: K|
            #[trigger] kept.contains_key(k) ==> !is_stale(kept[k], now),
        before.len() >= max_size && live_part(before, now).len() >= max_size ==> kept.len()
            == max_size / 2,
{
    let live = live_part(before, now);
    if before.len() >= max_size {
        assert forall|k: K| #[trigger] kept.contains_key(k) implies !is_stale(kept[k], now) by {
            assert(live.contains_key(k));
        }
    }
    assert forall|k: K| #[trigger] kept.contains_key(k) implies before.contains_key(k) && kept[k]
        == before[k] by {
        if before.len() >= max_size {
            assert(live.contains_key(k));
        }
    }
    if live.len() < max_size {
        assert forall|k: K| before.contains_key(k) && !is_stale(before[k], now) implies
            #[trigger] kept.contains_key(k) && kept[k] == before[k] by {
            if before.len() >= max_size {
                assert(live.contains_key(k));
            }
        }
    }
}

/// The entries of a cache are finitely many: its contents are those of a hash map.
pub proof fn lemma_entries_finite<K, V>(c: &CacheManager<K, V>)
    ensures
        c@.dom().finite(),
{
    vstd::std_specs::hash::axiom_hashmap_view_finite_dom(c.entries);
}

/// The number of entries a cache bounded by `max_size` may hold: the bound, but at least
/// one, since a write always stores its entry.
pub open spec fn size_limit(max_size: nat) -> nat {
    if max_size >= 1 {
        max_size
    } else {
        1
    }
}

/// A cache within its limit stays within it after a write; when it was below its bound
/// before, the write leaves every other entry as it was.
pub proof fn lemma_write_keeps_bound<K, V>(
    before: Map<K, CacheEntry<V>>,
    kept: Map<K, CacheEntry<V>>,
    max_size: nat,
    key: K,
    entry: CacheEntry<V>,
    now: u128,
)
    requires
        before.dom().finite(),
        before.len() <= size_limit(max_size),
        room_made(before, kept, max_size, now),
    ensures
        kept.insert(key, entry).len() <= size_limit(max_size),
        before.len() < max_size ==> kept.insert(key, entry) == before.insert(key, entry),
{
    let live = live_part(before, now);
    assert(live.dom().subset_of(before.dom()));
    vstd::set_lib::lemma_len_subset(live.dom(), before.dom());
    if before.len() >= max_size && live.len() >= max_size {
        vstd::set_lib::lemma_len_subset(kept.dom(), live.dom());
    }
    assert(kept.dom().finite());
    let after = kept.insert(key, entry);
    if kept.contains_key(key) {
        assert(after.dom() =~= kept.dom());
    } else {
        assert(after.dom() =~= kept.dom().insert(key));
    }
}

/// The entry is fresh exactly until `ttl_secs` seconds have passed since `written`, and
/// for ever without a lifetime.
pub open spec fn fresh_until<V>(e: CacheEntry<V>, ttl_secs: Option<u64>, written: u128) -> bool {
    forall|t: u128|
        #[trigger] is_stale(e, t) <==> (ttl_secs matches Some(secs) && t > written + secs
            * NANOS_PER_SEC)
}

/// What a write (`set_with_ttl`, or `set` with no lifetime) does, whatever instant the
/// clock read: a cache within its limit stays within it; the key holds the value, fresh
/// until its lifetime has passed from the instant of the write (forever without one);
/// and when the cache was below its bound, no other entry is removed or changed.
pub proof fn lemma_set_keeps_bound<K: Eq + Hash + Copy, V: Clone>(
    c: &CacheManager<K, V>,
    after: Map<K, CacheEntry<V>>,
    key: K,
    value: V,
    ttl_secs: Option<u64>,
)
    requires
        exists|now: u128, kept: Map<K, CacheEntry<V>>|
            #![trigger room_made(c@, kept, c.capacity(), now)]
            now <= u64::MAX && room_made(c@, kept, c.capacity(), now) && after == kept.insert(
                key,
                CacheEntry { value, expires_at: expiry(ttl_secs, now) },
            ),
    ensures
        c@.len() <= size_limit(c.capacity()) ==> after.len() <= size_limit(c.capacity()),
        after.contains_key(key),
        after[key].value == value,
        exists|written: u128| #[trigger] fresh_until(after[key], ttl_secs, written),
        c@.len() < c.capacity() ==> after == c@.insert(key, after[key]),
{
    lemma_entries_finite(c);
    let (now, kept) = choose|now: u128, kept: Map<K, CacheEntry<V>>|
        #![trigger room_made(c@, kept, c.capacity(), now)]
        now <= u64::MAX && room_made(c@, kept, c.capacity(), now) && after == kept.insert(
            key,
            CacheEntry { value, expires_at: expiry(ttl_secs, now) },
        );
    let entry = CacheEntry { value, expires_at: expiry(ttl_secs, now) };
    if c@.len() <= size_limit(c.capacity()) {
        lemma_write_keeps_bound(c@, kept, c.capacity(), key, entry, now);
    }
    if c@.len() < c.capacity() {
        assert(kept == c@);
    }
    assert(after[key] == entry);
    assert forall|t: u128|
        #[trigger] is_stale(after[key], t) <==> (ttl_secs matches Some(secs) && t > now + secs
            * NANOS_PER_SEC) by {
        match ttl_secs {
            Some(secs) => {
                lemma_lifetime(value, secs, now, t);
            },
            None => {},
        }
    }
    assert(fresh_until(after[key], ttl_secs, now));
}

/// An entry written with a lifetime is fresh up to its expiry and stale after it.
pub proof fn lemma_lifetime<V>(value: V, secs: u64, written: u128, now: u128)
    requires
        written <= u64::MAX as u128,
    ensures
        is_stale(CacheEntry { value, expires_at: expiry(Some(secs), written) }, now) <==> now
            > written + secs * NANOS_PER_SEC,
{
}

} // verus!
