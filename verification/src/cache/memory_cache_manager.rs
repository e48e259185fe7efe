//! A cache in memory.

use vstd::prelude::*;

use crate::cache::factory::CacheFactory;
use crate::cache::manager::CacheManager;
use crate::error::{Error, Result};
use crate::table::{lemma_push_contains, Table};
use crate::text::{concat, join, opt_str, opt_text, starts_with, texts};

verus! {

/// Nanoseconds in a second.
pub const NANOS: u128 = 1_000_000_000;

/// Nanoseconds in an hour.
pub const HOUR: u128 = 3_600_000_000_000;

/// How a cache in memory works. Durations are in nanoseconds.
pub struct MemoryCacheConfig {
    /// What the keys start with.
    pub prefix: String,
    /// How long an answer may take.
    pub response_timeout: Option<u128>,
    /// How long a text lives where nothing is said of it.
    pub default_ttl: Option<u128>,
    /// How often expired texts are removed, in milliseconds.
    pub cleanup_interval_ms: u64,
}

impl Default for MemoryCacheConfig {
    fn default() -> (r: Self)
        ensures
            r.prefix@ == "memory_cache"@,
            r.response_timeout == Some(5_000_000_000u128),
            r.default_ttl == Some(HOUR),
            r.cleanup_interval_ms == 1000,
    {
        MemoryCacheConfig {
            prefix: "memory_cache".to_string(),
            response_timeout: Some(5_000_000_000),
            default_ttl: Some(HOUR),
            cleanup_interval_ms: 1000,
        }
    }
}

/// A text in a cache, and when it expires, if ever.
pub struct CacheEntry {
    pub value: String,
    pub expiration: Option<u128>,
}

/// A text in a cache by its view.
#[verifier::ext_equal]
pub struct EntryView {
    pub value: Seq<char>,
    pub expiration: Option<u128>,
}

impl View for CacheEntry {
    type V = EntryView;

    open spec fn view(&self) -> EntryView {
        EntryView { value: self.value@, expiration: self.expiration }
    }
}

impl EntryView {
    /// Whether the text has not expired at `now`.
    pub open spec fn live(self, now: u128) -> bool {
        match self.expiration {
            Some(end) => end > now,
            None => true,
        }
    }
}

/// A cache in memory.
pub struct MemoryCacheManager {
    cache: Table<CacheEntry>,
    config: MemoryCacheConfig,
    /// Whether expired texts are removed from time to time.
    cleaning: bool,
}

/// A cache in memory by its view.
#[verifier::ext_equal]
pub struct CacheView {
    pub entries: Map<Seq<char>, EntryView>,
    pub prefix: Seq<char>,
    pub default_ttl: Option<u128>,
    pub cleaning: bool,
}

impl View for MemoryCacheManager {
    type V = CacheView;

    closed spec fn view(&self) -> CacheView {
        CacheView {
            entries: self.cache@,
            prefix: self.config.prefix@,
            default_ttl: self.config.default_ttl,
            cleaning: self.cleaning,
        }
    }
}

/// The life of a text in nanoseconds: what is said of it, or else what the cache has set.
pub open spec fn life(default_ttl: Option<u128>, ttl_seconds: u64) -> Option<int> {
    if ttl_seconds > 0 {
        Some(ttl_seconds * NANOS)
    } else {
        match default_ttl {
            Some(ttl) => Some(ttl as int),
            None => None,
        }
    }
}

/// The entries without those that have expired at `now`.
pub open spec fn without_expired(
    entries: Map<Seq<char>, EntryView>,
    now: u128,
) -> Map<Seq<char>, EntryView> {
    Map::new(
        |k: Seq<char>| entries.contains_key(k) && entries[k].live(now),
        |k: Seq<char>| entries[k],
    )
}

/// The entries without those whose keys start with `start`.
pub open spec fn without_prefix(
    entries: Map<Seq<char>, EntryView>,
    start: Seq<char>,
) -> Map<Seq<char>, EntryView> {
    Map::new(
        |k: Seq<char>| entries.contains_key(k) && !start.is_prefix_of(k),
        |k: Seq<char>| entries[k],
    )
}

impl CacheView {
    /// The key in the cache for a key.
    pub open spec fn full_key(self, key: Seq<char>) -> Seq<char> {
        self.prefix + ":"@ + key
    }

    /// The entry under a key.
    pub open spec fn entry(self, key: Seq<char>) -> Option<EntryView> {
        if self.entries.contains_key(self.full_key(key)) {
            Some(self.entries[self.full_key(key)])
        } else {
            None
        }
    }

    /// The text under a key at `now`.
    pub open spec fn read(self, key: Seq<char>, now: u128) -> Option<Seq<char>> {
        match self.entry(key) {
            Some(entry) => if entry.live(now) {
                Some(entry.value)
            } else {
                None
            },
            None => None,
        }
    }

    /// The cache after a key was read: an entry that has expired is gone.
    pub open spec fn after_read(self, key: Seq<char>, now: u128) -> CacheView {
        match self.entry(key) {
            Some(entry) => if entry.live(now) {
                self
            } else {
                self.without_key(key)
            },
            None => self,
        }
    }

    /// The cache without the entry under a key.
    pub open spec fn without_key(self, key: Seq<char>) -> CacheView {
        CacheView { entries: self.entries.remove(self.full_key(key)), ..self }
    }

    /// The cache after the time to remove expired texts came round.
    pub open spec fn after_tick(self, now: u128) -> CacheView {
        if self.cleaning {
            CacheView { entries: without_expired(self.entries, now), ..self }
        } else {
            self
        }
    }

    /// Whether the end of a life that begins at `now` can be told.
    pub open spec fn can_expire(self, ttl_seconds: u64, now: u128) -> bool {
        match life(self.default_ttl, ttl_seconds) {
            Some(ttl) => now + ttl <= u128::MAX,
            None => true,
        }
    }

    /// When a text expires that is put in at `now`.
    pub open spec fn end(self, ttl_seconds: u64, now: u128) -> Option<u128> {
        match life(self.default_ttl, ttl_seconds) {
            Some(ttl) => Some((now + ttl) as u128),
            None => None,
        }
    }

    /// The cache after a text was put in at `now`.
    pub open spec fn written(
        self,
        key: Seq<char>,
        value: Seq<char>,
        ttl_seconds: u64,
        now: u128,
    ) -> CacheView {
        CacheView {
            entries: self.entries.insert(
                self.full_key(key),
                EntryView { value, expiration: self.end(ttl_seconds, now) },
            ),
            ..self
        }
    }

    /// The cache after several keys were read, one after the other.
    pub open spec fn after_reads(self, keys: Seq<Seq<char>>, now: u128) -> CacheView
        decreases keys.len(),
    {
        if keys.len() == 0 {
            self
        } else {
            self.after_reads(keys.drop_last(), now).after_read(keys.last(), now)
        }
    }

    /// The cache after several texts were put in at `now`, one after the other.
    pub open spec fn written_all(
        self,
        pairs: Seq<(Seq<char>, Seq<char>)>,
        ttl_seconds: u64,
        now: u128,
    ) -> CacheView
        decreases pairs.len(),
    {
        if pairs.len() == 0 {
            self
        } else {
            self.written_all(pairs.drop_last(), ttl_seconds, now).written(
                pairs.last().0,
                pairs.last().1,
                ttl_seconds,
                now,
            )
        }
    }

    /// How many seconds a text has left: none where it has expired, and -1 where there is no text
    /// or it never expires.
    pub open spec fn seconds_left(self, key: Seq<char>, now: u128) -> i64 {
        match self.entry(key) {
            Some(EntryView { expiration: Some(end), .. }) => if end > now {
                (((end - now) as u128) / NANOS) as i64
            } else {
                0
            },
            _ => -1i64,
        }
    }
}

/// Keys and texts by their characters.
pub open spec fn pair_texts(pairs: Seq<(&str, &str)>) -> Seq<(Seq<char>, Seq<char>)> {
    pairs.map_values(|p: (&str, &str)| (p.0@, p.1@))
}

/// Keys by their characters.
pub open spec fn key_texts(keys: Seq<&str>) -> Seq<Seq<char>> {
    keys.map_values(|k: &str| k@)
}

impl MemoryCacheManager {
    /// How often expired texts are to be removed, in milliseconds.
    pub closed spec fn cleanup_interval(&self) -> u64 {
        self.config.cleanup_interval_ms
    }

    /// A cache without texts.
    pub fn new(config: MemoryCacheConfig) -> (r: Self)
        ensures
            r@ == (CacheView {
                entries: Map::empty(),
                prefix: config.prefix@,
                default_ttl: config.default_ttl,
                cleaning: false,
            }),
            r.cleanup_interval() == config.cleanup_interval_ms,
    {
        MemoryCacheManager { cache: Table::new(), config, cleaning: false }
    }

    /// A cache without texts whose keys start with `prefix`.
    pub fn with_prefix(prefix: &str) -> (r: Self)
        ensures
            r@ == (CacheView {
                entries: Map::empty(),
                prefix: prefix@,
                default_ttl: Some(HOUR),
                cleaning: false,
            }),
            r.cleanup_interval() == 1000,
    {
        let mut config = MemoryCacheConfig::default();
        config.prefix = prefix.to_string();
        MemoryCacheManager::new(config)
    }

    /// How often expired texts are to be removed, in milliseconds.
    pub fn cleanup_interval_ms(&self) -> (r: u64)
        ensures
            r == self.cleanup_interval(),
    {
        self.config.cleanup_interval_ms
    }

    /// The key in the cache for a key.
    pub fn prefixed_key(&self, key: &str) -> (r: String)
        ensures
            r@ == self@.full_key(key@),
    {
        join(self.config.prefix.as_str(), ":", key)
    }

    /// Has expired texts removed from time to time, and says how often, in milliseconds.
    pub fn start_cleanup_task(&mut self) -> (r: u64)
        ensures
            r == old(self).cleanup_interval(),
            final(self)@ == (CacheView { cleaning: true, ..old(self)@ }),
            final(self).cleanup_interval() == old(self).cleanup_interval(),
    {
        self.cleaning = true;
        self.config.cleanup_interval_ms
    }

    /// Removes the texts that have expired at `now`, where that is still to be done from time to
    /// time, and says whether it is.
    pub fn cleanup_tick(&mut self, now: u128) -> (r: bool)
        ensures
            r == old(self)@.cleaning,
            final(self)@ == old(self)@.after_tick(now),
            final(self).cleanup_interval() == old(self).cleanup_interval(),
    {
        if self.cleaning {
            self.cleanup_expired_entries(now);
        }
        self.cleaning
    }

    /// Removes the texts that have expired at `now`.
    pub fn cleanup_expired_entries(&mut self, now: u128)
        ensures
            final(self)@ == (CacheView {
                entries: without_expired(old(self)@.entries, now),
                ..old(self)@
            }),
            final(self).cleanup_interval() == old(self).cleanup_interval(),
    {
        let ghost start = self.cache@;
        let keys = self.cache.keys();
        let mut i: usize = 0;
        while i < keys.len()
            invariant
                i <= keys@.len(),
                texts(keys@).to_set() == start.dom(),
                self.config == old(self).config,
                self.cleaning == old(self).cleaning,
                forall|k: Seq<char>| #[trigger]
                    self.cache@.contains_key(k) <==> start.contains_key(k) && (texts(keys@).take(
                        i as int,
                    ).contains(k) ==> start[k].live(now)),
                forall|k: Seq<char>| #[trigger]
                    self.cache@.contains_key(k) ==> self.cache@[k] == start[k],
            decreases keys@.len() - i,
        {
            let ghost key = keys@[i as int]@;
            let ghost seen = texts(keys@).take(i as int);
            proof {
                assert(texts(keys@)[i as int] == key);
                assert(texts(keys@).to_set().contains(key));
                assert(texts(keys@).take(i + 1) =~= seen.push(key));
                assert forall|k: Seq<char>| seen.push(key).contains(k) <==> (seen.contains(k) || k
                    == key) by {
                    lemma_push_contains(seen, key, k);
                }
            }
            let expired = match self.cache.get(keys[i].as_str()) {
                Some(entry) => match entry.expiration {
                    Some(end) => end <= now,
                    None => false,
                },
                None => false,
            };
            if expired {
                self.cache.remove(keys[i].as_str());
            }
            i = i + 1;
        }
        proof {
            assert(texts(keys@).take(i as int) =~= texts(keys@));
            assert forall|k: Seq<char>| start.contains_key(k) implies #[trigger] texts(
                keys@,
            ).contains(k) by {
                assert(texts(keys@).to_set().contains(k));
            }
            assert(self.cache@ =~= without_expired(start, now));
        }
    }

    /// When a text expires that is put in at `now`.
    fn expiration(&self, ttl_seconds: u64, now: u128) -> (r: Option<u128>)
        requires
            self@.can_expire(ttl_seconds, now),
        ensures
            r == self@.end(ttl_seconds, now),
    {
        if ttl_seconds > 0 {
            Some(now + (ttl_seconds as u128) * NANOS)
        } else {
            match self.config.default_ttl {
                Some(ttl) => Some(now + ttl),
                None => None,
            }
        }
    }

    /// Removes the text under a key, and says whether there was one.
    pub fn delete(&mut self, key: &str) -> (r: Result<bool>)
        ensures
            r == Ok::<bool, Error>(old(self)@.entry(key@) is Some),
            final(self)@ == old(self)@.without_key(key@),
            final(self).cleanup_interval() == old(self).cleanup_interval(),
    {
        let full = self.prefixed_key(key);
        let existed = self.cache.remove(full.as_str()).is_some();
        Ok(existed)
    }

    /// The texts under several keys; none where there is none, or it has expired.
    pub fn get_many(&mut self, keys: &Vec<&str>, now: u128) -> (r: Result<Vec<Option<String>>>)
        ensures
            r is Ok,
            r->Ok_0@.len() == keys@.len(),
            forall|i: int|
                0 <= i < keys@.len() ==> opt_text(#[trigger] r->Ok_0@[i]) == old(self)@.read(
                    keys@[i]@,
                    now,
                ),
            final(self)@ == old(self)@.after_reads(key_texts(keys@), now),
            final(self).cleanup_interval() == old(self).cleanup_interval(),
    {
        let mut found: Vec<Option<String>> = Vec::new();
        let mut i: usize = 0;
        assert(key_texts(keys@).take(0) =~= Seq::<Seq<char>>::empty());
        while i < keys.len()
            invariant
                i <= keys@.len(),
                found@.len() == i,
                forall|j: int|
                    0 <= j < i ==> opt_text(#[trigger] found@[j]) == old(self)@.read(
                        keys@[j]@,
                        now,
                    ),
                self@ == old(self)@.after_reads(key_texts(keys@).take(i as int), now),
                self.cleanup_interval() == old(self).cleanup_interval(),
            decreases keys@.len() - i,
        {
            proof {
                let seen = key_texts(keys@).take(i + 1);
                assert(seen.drop_last() =~= key_texts(keys@).take(i as int));
                assert(seen.last() == keys@[i as int]@);
                lemma_reads_agree(
                    old(self)@,
                    key_texts(keys@).take(i as int),
                    keys@[i as int]@,
                    now,
                );
            }
            match self.get(keys[i], now) {
                Ok(value) => {
                    found.push(value);
                },
                Err(_) => {
                    found.push(None);
                },
            }
            i = i + 1;
        }
        assert(key_texts(keys@).take(i as int) =~= key_texts(keys@));
        Ok(found)
    }

    /// Puts several texts in.
    pub fn set_many(&mut self, pairs: &Vec<(&str, &str)>, ttl_seconds: u64, now: u128) -> (r: Result<
        (),
    >)
        requires
            old(self)@.can_expire(ttl_seconds, now),
        ensures
            r is Ok,
            final(self)@ == old(self)@.written_all(pair_texts(pairs@), ttl_seconds, now),
            final(self).cleanup_interval() == old(self).cleanup_interval(),
    {
        let mut i: usize = 0;
        assert(pair_texts(pairs@).take(0) =~= Seq::<(Seq<char>, Seq<char>)>::empty());
        while i < pairs.len()
            invariant
                i <= pairs@.len(),
                self@.can_expire(ttl_seconds, now),
                self@ == old(self)@.written_all(
                    pair_texts(pairs@).take(i as int),
                    ttl_seconds,
                    now,
                ),
                self.cleanup_interval() == old(self).cleanup_interval(),
            decreases pairs@.len() - i,
        {
            proof {
                let seen = pair_texts(pairs@).take(i + 1);
                assert(seen.drop_last() =~= pair_texts(pairs@).take(i as int));
                assert(seen.last() == (pairs@[i as int].0@, pairs@[i as int].1@));
            }
            let _ = self.set(pairs[i].0, pairs[i].1, ttl_seconds, now);
            i = i + 1;
        }
        assert(pair_texts(pairs@).take(i as int) =~= pair_texts(pairs@));
        Ok(())
    }

    /// Removes every text whose key starts with the prefix of this cache, and says how many they
    /// were.
    pub fn clear_prefix(&mut self) -> (r: Result<usize>)
        ensures
            final(self)@ == (CacheView {
                entries: without_prefix(old(self)@.entries, old(self)@.prefix + ":"@),
                ..old(self)@
            }),
            final(self).cleanup_interval() == old(self).cleanup_interval(),
            r is Ok,
            r->Ok_0 == old(self)@.entries.dom().filter(
                |k: Seq<char>| (old(self)@.prefix + ":"@).is_prefix_of(k),
            ).len(),
    {
        let start_text = concat(self.config.prefix.as_str(), ":");
        let ghost start = self.cache@;
        let ghost mine = |k: Seq<char>| start_text@.is_prefix_of(k);
        let keys = self.cache.keys();
        let mut removed: usize = 0;
        let mut i: usize = 0;
        let ghost mut gone: Set<Seq<char>> = Set::empty();
        while i < keys.len()
            invariant
                i <= keys@.len(),
                mine == (|k: Seq<char>| start_text@.is_prefix_of(k)),
                texts(keys@).no_duplicates(),
                texts(keys@).to_set() == start.dom(),
                self.config == old(self).config,
                self.cleaning == old(self).cleaning,
                removed <= i,
                gone.finite(),
                gone.len() == removed,
                forall|k: Seq<char>| #[trigger]
                    gone.contains(k) <==> texts(keys@).take(i as int).contains(k)
                        && start_text@.is_prefix_of(k),
                forall|k: Seq<char>| #[trigger]
                    self.cache@.contains_key(k) <==> start.contains_key(k) && !gone.contains(k),
                forall|k: Seq<char>| #[trigger]
                    self.cache@.contains_key(k) ==> self.cache@[k] == start[k],
            decreases keys@.len() - i,
        {
            let ghost key = keys@[i as int]@;
            let ghost seen = texts(keys@).take(i as int);
            proof {
                assert(texts(keys@)[i as int] == key);
                assert(texts(keys@).to_set().contains(key));
                assert(texts(keys@).take(i + 1) =~= seen.push(key));
                assert forall|k: Seq<char>| seen.push(key).contains(k) <==> (seen.contains(k) || k
                    == key) by {
                    lemma_push_contains(seen, key, k);
                }
                assert(!seen.contains(key)) by {
                    if seen.contains(key) {
                        let j = choose|j: int| 0 <= j < seen.len() && seen[j] == key;
                        assert(texts(keys@)[j] == key);
                    }
                }
            }
            if starts_with(keys[i].as_str(), start_text.as_str()) {
                self.cache.remove(keys[i].as_str());
                removed = removed + 1;
                proof {
                    gone = gone.insert(key);
                }
            }
            i = i + 1;
        }
        proof {
            assert(texts(keys@).take(i as int) =~= texts(keys@));
            assert forall|k: Seq<char>| start.contains_key(k) <==> #[trigger] texts(
                keys@,
            ).contains(k) by {
                assert(texts(keys@).to_set().contains(k) <==> texts(keys@).contains(k));
                assert(start.dom().contains(k) <==> start.contains_key(k));
            }
            assert(gone =~= start.dom().filter(mine));
            assert(self.cache@ =~= without_prefix(start, start_text@));
        }
        Ok(removed)
    }

    /// How many seconds a text has left; -1 where there is none, or it never expires.
    pub fn ttl(&self, key: &str, now: u128) -> (r: Result<i64>)
        ensures
            r == Ok::<i64, Error>(self@.seconds_left(key@, now)),
    {
        let full = self.prefixed_key(key);
        match self.cache.get(full.as_str()) {
            Some(entry) => match entry.expiration {
                Some(end) => if end > now {
                    Ok(((end - now) / NANOS) as i64)
                } else {
                    Ok(0)
                },
                None => Ok(-1),
            },
            None => Ok(-1),
        }
    }
}

/// To have read keys does not change what is read of a key at that time.
proof fn lemma_reads_agree(cache: CacheView, keys: Seq<Seq<char>>, key: Seq<char>, now: u128)
    ensures
        cache.after_reads(keys, now).read(key, now) == cache.read(key, now),
        cache.after_reads(keys, now).prefix == cache.prefix,
    decreases keys.len(),
{
    if keys.len() > 0 {
        let rest = keys.drop_last();
        let before = cache.after_reads(rest, now);
        lemma_reads_agree(cache, rest, key, now);
        lemma_reads_agree(cache, rest, keys.last(), now);
        lemma_full_keys_differ(cache, key, keys.last());
    }
}

/// Different keys have different keys in a cache.
pub proof fn lemma_full_keys_differ(cache: CacheView, a: Seq<char>, b: Seq<char>)
    ensures
        cache.full_key(a) == cache.full_key(b) <==> a == b,
{
    let head = cache.prefix + ":"@;
    let n = head.len() as int;
    assert(cache.full_key(a).subrange(n, n + a.len()) =~= a);
    assert(cache.full_key(b).subrange(n, n + b.len()) =~= b);
}

impl CacheManager for MemoryCacheManager {
    open spec fn can_expire(&self, ttl_seconds: u64, now: u128) -> bool {
        self@.can_expire(ttl_seconds, now)
    }

    /// Whether there is a text under a key that has not expired at `now`.
    fn has(&mut self, key: &str, now: u128) -> (r: Result<bool>)
        ensures
            r == Ok::<bool, Error>(old(self)@.read(key@, now) is Some),
            final(self)@ == old(self)@,
            final(self).cleanup_interval() == old(self).cleanup_interval(),
    {
        let full = self.prefixed_key(key);
        match self.cache.get(full.as_str()) {
            Some(entry) => match entry.expiration {
                Some(end) => Ok(end > now),
                None => Ok(true),
            },
            None => Ok(false),
        }
    }

    /// The text under a key; none where there is none, or it has expired. One that has expired is
    /// removed.
    fn get(&mut self, key: &str, now: u128) -> (r: Result<Option<String>>)
        ensures
            r is Ok,
            opt_text(r->Ok_0) == old(self)@.read(key@, now),
            final(self)@ == old(self)@.after_read(key@, now),
            final(self).cleanup_interval() == old(self).cleanup_interval(),
    {
        let full = self.prefixed_key(key);
        let mut expired = false;
        let mut found: Option<String> = None;
        match self.cache.get(full.as_str()) {
            Some(entry) => {
                expired = match entry.expiration {
                    Some(end) => end <= now,
                    None => false,
                };
                if !expired {
                    found = Some(entry.value.clone());
                }
            },
            None => {},
        }
        if expired {
            self.cache.remove(full.as_str());
        }
        Ok(found)
    }

    /// Puts a text under a key, in place of what was there. Without a life of its own it lives as
    /// long as the cache has set.
    fn set(&mut self, key: &str, value: &str, ttl_seconds: u64, now: u128) -> (r: Result<()>)
        ensures
            r is Ok,
            final(self)@ == old(self)@.written(key@, value@, ttl_seconds, now),
            final(self).cleanup_interval() == old(self).cleanup_interval(),
    {
        let full = self.prefixed_key(key);
        let expiration = self.expiration(ttl_seconds, now);
        self.cache.insert(full, CacheEntry { value: value.to_string(), expiration });
        Ok(())
    }

    /// Removes every text, and has expired texts not removed any more from time to time.
    fn disconnect(&mut self) -> (r: Result<()>)
        ensures
            r is Ok,
            final(self)@ == (CacheView { entries: Map::empty(), cleaning: false, ..old(self)@ }),
            final(self).cleanup_interval() == old(self).cleanup_interval(),
    {
        self.cleaning = false;
        self.cache.clear();
        Ok(())
    }

    /// A cache in memory always works.
    fn is_healthy(&self) -> (r: Result<bool>)
        ensures
            r == Ok::<bool, Error>(true),
    {
        Ok(true)
    }
}

impl CacheFactory {
    /// A cache in memory, whose keys start with `prefix`. Expired texts are removed from time to time.
    pub fn create_memory(prefix: Option<&str>) -> (r: Result<MemoryCacheManager>)
        ensures
            r is Ok,
            r->Ok_0@ == (CacheView {
                entries: Map::empty(),
                prefix: match opt_str(prefix) {
                    Some(p) => p,
                    None => "memory_cache"@,
                },
                default_ttl: Some(HOUR),
                cleaning: true,
            }),
            r->Ok_0.cleanup_interval() == 1000,
    {
        let prefix = match prefix {
            Some(prefix) => prefix,
            None => "memory_cache",
        };
        let mut cache = MemoryCacheManager::with_prefix(prefix);
        cache.start_cleanup_task();
        Ok(cache)
    }
}

/// What was put in is read back until it expires, and not afterwards; what is under other keys does
/// not change.
pub proof fn written_text_is_read_until_it_expires(
    cache: CacheView,
    key: Seq<char>,
    value: Seq<char>,
    ttl_seconds: u64,
    now: u128,
    later: u128,
    other: Seq<char>,
)
    requires
        cache.can_expire(ttl_seconds, now),
    ensures
        cache.written(key, value, ttl_seconds, now).read(key, later) == match life(
            cache.default_ttl,
            ttl_seconds,
        ) {
            Some(ttl) => if later < now + ttl {
                Some(value)
            } else {
                None
            },
            None => Some(value),
        },
        other != key ==> cache.written(key, value, ttl_seconds, now).read(other, later)
            == cache.read(other, later),
{
    lemma_full_keys_differ(cache, other, key);
}

/// A key that was deleted reads as nothing, and no other key changes.
pub proof fn deleted_key_is_not_read(
    cache: CacheView,
    key: Seq<char>,
    now: u128,
    other: Seq<char>,
)
    ensures
        cache.without_key(key).read(key, now) == None::<Seq<char>>,
        other != key ==> cache.without_key(key).read(other, now) == cache.read(other, now),
{
    lemma_full_keys_differ(cache, other, key);
}

/// To remove what has expired changes nothing of what is read then or later.
pub proof fn cleanup_changes_no_reading(
    cache: CacheView,
    now: u128,
    later: u128,
    key: Seq<char>,
)
    requires
        now <= later,
    ensures
        (CacheView { entries: without_expired(cache.entries, now), ..cache }).read(key, later)
            == cache.read(key, later),
{
}

/// A cache that was given up is empty, and the time to remove expired texts changes nothing in it
/// any more, until that is begun anew.
pub proof fn given_up_cache_is_not_cleaned(cache: CacheView, key: Seq<char>, now: u128)
    ensures
        ({
            let gone = CacheView { entries: Map::empty(), cleaning: false, ..cache };
            &&& gone.read(key, now) == None::<Seq<char>>
            &&& gone.after_tick(now) == gone
            &&& (CacheView { cleaning: false, ..cache }).after_tick(now) == (CacheView {
                cleaning: false,
                ..cache
            })
            &&& (CacheView { cleaning: true, ..gone }).after_tick(now).cleaning
        }),
{
}

/// A cache whose prefix was cleared reads as nothing.
pub proof fn cleared_cache_reads_as_nothing(cache: CacheView, now: u128, key: Seq<char>)
    ensures
        (CacheView { entries: without_prefix(cache.entries, cache.prefix + ":"@), ..cache }).read(
            key,
            now,
        ) == None::<Seq<char>>,
{
    let head = cache.prefix + ":"@;
    assert(head =~= cache.full_key(key).subrange(0, head.len() as int));
    assert(head.is_prefix_of(cache.full_key(key)));
}

/// A text stands in a cache under the cache's prefix, a colon and its key. It is read until as many
/// seconds have passed as were said for it; where none were, until the cache's own time in nanoseconds
/// has passed; and where that has none, for ever.
pub proof fn written_text_lives_as_long_as_was_said(
    cache: CacheView,
    key: Seq<char>,
    value: Seq<char>,
    ttl_seconds: u64,
    now: u128,
    later: u128,
)
    requires
        cache.can_expire(ttl_seconds, now),
    ensures
        ({
            let after = cache.written(key, value, ttl_seconds, now);
            let full = cache.prefix + ":"@ + key;
            let lives = if ttl_seconds > 0 {
                later - now < ttl_seconds * 1_000_000_000
            } else {
                match cache.default_ttl {
                    Some(ttl) => later - now < ttl,
                    None => true,
                }
            };
            &&& after.entries.contains_key(full)
            &&& after.entries[full].value == value
            &&& after.entries.remove(full) == cache.entries.remove(full)
            &&& after.read(key, later) == if lives {
                Some(value)
            } else {
                None
            }
            &&& after.prefix == cache.prefix
            &&& after.default_ttl == cache.default_ttl
            &&& after.cleaning == cache.cleaning
        }),
{
    let after = cache.written(key, value, ttl_seconds, now);
    let full = cache.prefix + ":"@ + key;
    assert(after.entries.remove(full) =~= cache.entries.remove(full));
}

/// A key reads as the text that stands under the cache's prefix, a colon and the key, unless its time
/// has come. To read it takes out what has expired there, and changes nothing else.
pub proof fn key_reads_as_its_entry(cache: CacheView, key: Seq<char>, now: u128)
    ensures
        ({
            let full = cache.prefix + ":"@ + key;
            let known = cache.entries.contains_key(full);
            let entry = cache.entries[full];
            let lives = match entry.expiration {
                Some(end) => now < end,
                None => true,
            };
            &&& cache.read(key, now) == if known && lives {
                Some(entry.value)
            } else {
                None
            }
            &&& cache.after_read(key, now).entries == if known && !lives {
                cache.entries.remove(full)
            } else {
                cache.entries
            }
            &&& cache.after_read(key, now).prefix == cache.prefix
            &&& cache.after_read(key, now).default_ttl == cache.default_ttl
            &&& cache.after_read(key, now).cleaning == cache.cleaning
            &&& cache.without_key(key).entries == cache.entries.remove(full)
            &&& cache.seconds_left(key, now) == if !known || entry.expiration is None {
                -1i64
            } else if !lives {
                0i64
            } else {
                ((entry.expiration->0 - now) / 1_000_000_000) as i64
            }
        }),
{
}

/// Of several texts that were put in together, each key reads as the last that was put in for it, and
/// the others read as before.
pub proof fn last_of_the_texts_put_in_is_read(
    cache: CacheView,
    pairs: Seq<(Seq<char>, Seq<char>)>,
    ttl_seconds: u64,
    now: u128,
    key: Seq<char>,
    i: int,
)
    requires
        -1 <= i < pairs.len(),
        i >= 0 ==> pairs[i].0 == key,
        forall|j: int| i < j < pairs.len() ==> (#[trigger] pairs[j]).0 != key,
    ensures
        cache.written_all(pairs, ttl_seconds, now).prefix == cache.prefix,
        cache.written_all(pairs, ttl_seconds, now).default_ttl == cache.default_ttl,
        cache.written_all(pairs, ttl_seconds, now).entry(key) == if i >= 0 {
            cache.written(key, pairs[i].1, ttl_seconds, now).entry(key)
        } else {
            cache.entry(key)
        },
    decreases pairs.len(),
{
    if pairs.len() > 0 {
        let rest = pairs.drop_last();
        let last = pairs.len() - 1;
        assert(pairs[last] == pairs.last());
        let before = cache.written_all(rest, ttl_seconds, now);
        if i < last {
            assert forall|j: int| i < j < rest.len() implies (#[trigger] rest[j]).0 != key by {
                assert(pairs[j].0 != key);
            }
            last_of_the_texts_put_in_is_read(cache, rest, ttl_seconds, now, key, i);
            lemma_full_keys_differ(before, key, pairs.last().0);
        } else {
            lemma_settings_stay(cache, rest, ttl_seconds, now);
        }
    }
}

/// To put texts in changes nothing of how the cache works.
proof fn lemma_settings_stay(
    cache: CacheView,
    pairs: Seq<(Seq<char>, Seq<char>)>,
    ttl_seconds: u64,
    now: u128,
)
    ensures
        cache.written_all(pairs, ttl_seconds, now).prefix == cache.prefix,
        cache.written_all(pairs, ttl_seconds, now).default_ttl == cache.default_ttl,
    decreases pairs.len(),
{
    if pairs.len() > 0 {
        lemma_settings_stay(cache, pairs.drop_last(), ttl_seconds, now);
    }
}

/// What several reads take out is what has expired under the keys that were read, and no more.
pub proof fn reads_take_out_what_has_expired(
    cache: CacheView,
    keys: Seq<Seq<char>>,
    now: u128,
    key: Seq<char>,
)
    ensures
        cache.after_reads(keys, now).prefix == cache.prefix,
        cache.after_reads(keys, now).entry(key) == if keys.contains(key) && cache.read(key, now)
            is None {
            None
        } else {
            cache.entry(key)
        },
    decreases keys.len(),
{
    if keys.len() > 0 {
        let rest = keys.drop_last();
        let last = keys.last();
        let before = cache.after_reads(rest, now);
        reads_take_out_what_has_expired(cache, rest, now, key);
        reads_take_out_what_has_expired(cache, rest, now, last);
        lemma_full_keys_differ(before, key, last);
        assert(keys =~= rest.push(last));
        lemma_push_contains(rest, last, key);
    }
}

/// When the time to remove expired texts comes round, a text is removed where its time has come, and
/// the others stay as they are; where that was not begun, or was given up, all stay.
pub proof fn expired_texts_are_removed_in_time(cache: CacheView, now: u128, full: Seq<char>)
    requires
        cache.entries.contains_key(full),
    ensures
        cache.after_tick(now).entries.contains_key(full) <==> !cache.cleaning
            || cache.entries[full].expiration is None || cache.entries[full].expiration->0 > now,
        cache.after_tick(now).entries.contains_key(full) ==> cache.after_tick(now).entries[full]
            == cache.entries[full],
        cache.after_tick(now).entries.submap_of(cache.entries),
        cache.after_tick(now).cleaning == cache.cleaning,
        cache.after_tick(now).prefix == cache.prefix,
{
}

/// To clear a prefix removes the texts whose keys start with it, and no others.
pub proof fn clearing_removes_what_starts_so(
    entries: Map<Seq<char>, EntryView>,
    start: Seq<char>,
    full: Seq<char>,
)
    requires
        entries.contains_key(full),
    ensures
        without_prefix(entries, start).contains_key(full) <==> !start.is_prefix_of(full),
        !start.is_prefix_of(full) ==> without_prefix(entries, start)[full] == entries[full],
        without_prefix(entries, start).submap_of(entries),
{
}

/// The end of a text's life can be told where it comes before the end of time.
pub proof fn end_of_a_life_can_be_told(cache: CacheView, ttl_seconds: u64, now: u128)
    ensures
        ttl_seconds > 0 ==> (cache.can_expire(ttl_seconds, now) <==> now + ttl_seconds
            * 1_000_000_000 <= u128::MAX),
        ttl_seconds == 0 ==> (cache.can_expire(ttl_seconds, now) <==> (cache.default_ttl is None
            || now + cache.default_ttl->0 <= u128::MAX)),
{
}

} // verus!
