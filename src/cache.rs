use vstd::prelude::*;

use crate::content::views;

verus! {

/// What a cache table holds: under each key, the tokens and the instant
/// (in milliseconds) from which they are stale.
pub uninterp spec fn cache_table(m: dashmap::DashMap<String, (Vec<String>, u64)>) -> Map<
    Seq<char>,
    (Seq<Seq<char>>, u64),
>;

/// The view of a stored entry.
pub open spec fn entry_view(e: (Vec<String>, u64)) -> (Seq<Seq<char>>, u64) {
    (views(e.0@), e.1)
}

/// An entry stored until `expires_at` is still served at `now`.
pub open spec fn is_fresh(expires_at: u64, now: u64) -> bool {
    now < expires_at
}

/// Relies on dashmap::DashMap::new: an empty map.
#[verifier::external_body]
fn entries_new() -> (m: dashmap::DashMap<String, (Vec<String>, u64)>)
    ensures
        cache_table(m).dom() == Set::<Seq<char>>::empty(),
{
    dashmap::DashMap::new()
}

/// Relies on dashmap::DashMap::get: a copy of the value stored under
/// `key`, if any.
#[verifier::external_body]
fn entries_get(m: &dashmap::DashMap<String, (Vec<String>, u64)>, key: &str) -> (r: Option<
    (Vec<String>, u64),
>)
    ensures
        r is Some <==> cache_table(*m).contains_key(key@),
        r matches Some(e) ==> entry_view(e) == cache_table(*m)[key@],
{
    m.get(key).map(|e| e.value().clone())
}

/// Relies on dashmap::DashMap::insert: `key` now maps to `value`.
#[verifier::external_body]
fn entries_insert(m: &mut dashmap::DashMap<String, (Vec<String>, u64)>, key: String, value: (
    Vec<String>,
    u64,
))
    ensures
        cache_table(*final(m)) == cache_table(*old(m)).insert(key@, entry_view(value)),
{
    m.insert(key, value);
}

/// Relies on dashmap::DashMap::remove: `key` no longer has an entry.
#[verifier::external_body]
fn entries_remove(m: &mut dashmap::DashMap<String, (Vec<String>, u64)>, key: &str)
    ensures
        cache_table(*final(m)) == cache_table(*old(m)).remove(key@),
{
    m.remove(key);
}

/// Relies on dashmap::DashMap::clear: no entry is left.
#[verifier::external_body]
fn entries_clear(m: &mut dashmap::DashMap<String, (Vec<String>, u64)>)
    ensures
        cache_table(*final(m)).dom() == Set::<Seq<char>>::empty(),
{
    m.clear();
}

/// Whether a stored entry is still served at `now`.
fn entry_is_fresh(entry: &(Vec<String>, u64), now: u64) -> (r: bool)
    ensures
        r == is_fresh(entry.1, now),
{
    now < entry.1
}

/// Relies on dashmap::DashMap::retain: keeps exactly the entries for which
/// the predicate holds, unchanged.
#[verifier::external_body]
fn entries_retain_fresh(m: &mut dashmap::DashMap<String, (Vec<String>, u64)>, now: u64)
    ensures
        forall|k: Seq<char>|
            #![trigger cache_table(*final(m)).contains_key(k)]
            cache_table(*final(m)).contains_key(k) <==> (cache_table(*old(m)).contains_key(k)
                && is_fresh(cache_table(*old(m))[k].1, now)),
        forall|k: Seq<char>| #[trigger]
            cache_table(*final(m)).contains_key(k) ==> cache_table(*final(m))[k] == cache_table(
                *old(m),
            )[k],
{
    m.retain(|_, e| entry_is_fresh(e, now));
}

/// Relies on dashmap::DashMap::len: the number of entries.
#[verifier::external_body]
fn entries_len(m: &dashmap::DashMap<String, (Vec<String>, u64)>) -> (r: usize)
    ensures
        r == cache_table(*m).dom().len(),
{
    m.len()
}

/// The instant, in milliseconds, at which an entry stored at `now` with a
/// TTL of `ttl_seconds` goes stale; it saturates at the top of `u64`.
pub open spec fn expiry(now: u64, ttl_seconds: u64) -> u64 {
    if now + ttl_seconds * 1000 <= u64::MAX {
        (now + ttl_seconds * 1000) as u64
    } else {
        u64::MAX
    }
}

/// What a lookup at `now` returns from a table: the tokens of a fresh
/// entry, else nothing.
pub open spec fn lookup(
    t: Map<Seq<char>, (Seq<Seq<char>>, u64)>,
    key: Seq<char>,
    now: u64,
) -> Option<Seq<Seq<char>>> {
    if t.contains_key(key) && is_fresh(t[key].1, now) {
        Some(t[key].0)
    } else {
        None
    }
}

/// A map from cache key to token list with a time-to-live. Time is given
/// by the caller, in milliseconds on a monotonic clock.
#[derive(Debug)]
pub struct ContentCache {
    entries: dashmap::DashMap<String, (Vec<String>, u64)>,
}

impl ContentCache {
    /// The stored entries: tokens and expiry, by key.
    pub closed spec fn table(&self) -> Map<Seq<char>, (Seq<Seq<char>>, u64)> {
        cache_table(self.entries)
    }

    pub fn new() -> (c: Self)
        ensures
            c.table() == Map::<Seq<char>, (Seq<Seq<char>>, u64)>::empty(),
    {
        let c = ContentCache { entries: entries_new() };
        assert(c.table() =~= Map::<Seq<char>, (Seq<Seq<char>>, u64)>::empty());
        c
    }

    /// Stores `content` under `key`, fresh until `ttl_seconds` after `now`.
    pub fn insert(&mut self, key: String, content: Vec<String>, ttl_seconds: u64, now: u64)
        ensures
            final(self).table() == old(self).table().insert(
                key@,
                (views(content@), expiry(now, ttl_seconds)),
            ),
    {
        let expires_at = match ttl_seconds.checked_mul(1000) {
            Some(span) => match now.checked_add(span) {
                Some(t) => t,
                None => u64::MAX,
            },
            None => u64::MAX,
        };
        entries_insert(&mut self.entries, key, (content, expires_at));
    }

    /// The tokens stored under `key` if still fresh at `now`; a stale entry
    /// is evicted.
    pub fn get(&mut self, key: &str, now: u64) -> (r: Option<Vec<String>>)
        ensures
            r is Some <==> lookup(old(self).table(), key@, now) is Some,
            r matches Some(v) ==> lookup(old(self).table(), key@, now) == Some(views(v@)),
            lookup(old(self).table(), key@, now) is Some ==> final(self).table() == old(
                self,
            ).table(),
            lookup(old(self).table(), key@, now) is None ==> final(self).table() == old(
                self,
            ).table().remove(key@),
    {
        match entries_get(&self.entries, key) {
            Some(entry) => {
                if now < entry.1 {
                    Some(entry.0)
                } else {
                    entries_remove(&mut self.entries, key);
                    None
                }
            },
            None => {
                proof {
                    assert(old(self).table().remove(key@) =~= old(self).table());
                }
                None
            },
        }
    }

    pub fn remove(&mut self, key: &str)
        ensures
            final(self).table() == old(self).table().remove(key@),
    {
        entries_remove(&mut self.entries, key);
    }

    pub fn clear(&mut self)
        ensures
            final(self).table() == Map::<Seq<char>, (Seq<Seq<char>>, u64)>::empty(),
    {
        entries_clear(&mut self.entries);
        assert(self.table() =~= Map::<Seq<char>, (Seq<Seq<char>>, u64)>::empty());
    }

    /// Drops every entry that is stale at `now`.
    pub fn cleanup_expired(&mut self, now: u64)
        ensures
            final(self).table() == old(self).table().restrict(
                old(self).table().dom().filter(
                    |k: Seq<char>| is_fresh(old(self).table()[k].1, now),
                ),
            ),
    {
        entries_retain_fresh(&mut self.entries, now);
        assert(self.table() =~= old(self).table().restrict(
            old(self).table().dom().filter(|k: Seq<char>| is_fresh(old(self).table()[k].1, now)),
        ));
    }

    /// The number of stored entries, stale ones included.
    pub fn size(&self) -> (r: usize)
        ensures
            r == self.table().dom().len(),
    {
        entries_len(&self.entries)
    }
}

impl Default for ContentCache {
    fn default() -> (c: Self)
        ensures
            c.table() == Map::<Seq<char>, (Seq<Seq<char>>, u64)>::empty(),
    {
        Self::new()
    }
}

/// Cache TTL: an entry stored at `t` with a TTL of `ttl_seconds` is served
/// to lookups in `[t, t + ttl)` and to none from `t + ttl` on, as long as
/// its key is not written again.
pub proof fn lemma_cache_ttl(
    table: Map<Seq<char>, (Seq<Seq<char>>, u64)>,
    key: Seq<char>,
    tokens: Seq<Seq<char>>,
    ttl_seconds: u64,
    t: u64,
    now: u64,
)
    requires
        t <= now,
        t + ttl_seconds * 1000 <= u64::MAX,
    ensures
        now < t + ttl_seconds * 1000 ==> lookup(
            table.insert(key, (tokens, expiry(t, ttl_seconds))),
            key,
            now,
        ) == Some(tokens),
        now >= t + ttl_seconds * 1000 ==> lookup(
            table.insert(key, (tokens, expiry(t, ttl_seconds))),
            key,
            now,
        ) is None,
{
}

} // verus!
