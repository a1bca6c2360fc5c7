//! The trace correlation cache: a bounded mapping from trace identifier
//! to the most recent trace entry, with least-recently-used eviction
//! under a capacity bound and time-to-idle expiry. The storage is
//! moka's synchronized cache; its behaviour is stated over an abstract
//! contents map, and everything built on top is verified against that
//! statement. Eviction and expiry are driven by capacity pressure and
//! by the clock, so the contracts promise only what holds of every
//! outcome: entries may disappear, but are never altered, and no entry
//! appears that was not inserted.
use crate::log::TraceId;
use crate::log::TrivialLogItem;
use vstd::prelude::*;

verus! {

/// The stored form of one cache entry: observation time in
/// milliseconds, duration text, tag text, content text.
pub type StoredEntry = (u64, String, String, String);

/// Mathematical image of one stored entry.
pub type StoredEntryV = (u64, Seq<char>, Seq<char>, Seq<char>);

/// The backing store: moka's synchronized cache over plain values.
pub type Store = moka::sync::Cache<TraceId, StoredEntry>;

/// A cache entry derived from a trace record: when it was observed (a
/// millisecond timestamp supplied by the caller), the duration text,
/// and the trivial content of the record.
pub struct TraceItem {
    pub time: u64,
    pub duration: String,
    pub content: TrivialLogItem,
}

impl View for TraceItem {
    type V = StoredEntryV;

    open spec fn view(&self) -> StoredEntryV {
        (self.time, self.duration@, self.content.tag@, self.content.content@)
    }
}

#[verifier::external_type_specification]
#[verifier::external_body]
#[verifier::reject_recursive_types(K)]
#[verifier::reject_recursive_types(V)]
#[verifier::reject_recursive_types(S)]
pub struct ExMokaCache<K, V, S>(moka::sync::Cache<K, V, S>);

/// What a cache currently holds, as a map from key to the stored entry
/// with its string fields viewed as character sequences.
pub uninterp spec fn cache_contents(c: Store) -> Map<TraceId, StoredEntryV>;

/// The live-entry count that the cache itself reports of its current
/// state; moka documents it as an estimate, so nothing relates it to
/// the contents map.
pub uninterp spec fn cache_reported_count(c: Store) -> u64;

/// The contents of a cache that holds nothing.
pub open spec fn empty_contents() -> Map<TraceId, StoredEntryV> {
    Map::empty()
}

/// Relies on moka::sync::CacheBuilder::new / time_to_idle / build:
/// a newly built cache holds no entries. `build` panics only on an
/// expiry above one thousand years, which the bound on `tti_millis`
/// rules out.
#[verifier::external_body]
fn cache_new(capacity: u64, tti_millis: u64) -> (c: Store)
    requires
        1 <= tti_millis <= 1_000_000_000_000u64,
    ensures
        cache_contents(c) == empty_contents(),
{
    moka::sync::CacheBuilder::new(capacity).time_to_idle(
        std::time::Duration::from_millis(tti_millis),
    ).build()
}

/// Relies on moka::sync::Cache::insert: the entry under `k`, if it
/// survives the eviction policy, is now `v`; no other key gains an
/// entry, and surviving entries under other keys are unchanged.
#[verifier::external_body]
fn cache_insert(c: &mut Store, k: TraceId, v: StoredEntry)
    ensures
        cache_contents(*final(c)).dom().subset_of(cache_contents(*old(c)).dom().insert(k)),
        cache_contents(*final(c)).contains_key(k) ==> cache_contents(*final(c))[k] == (
            v.0,
            v.1@,
            v.2@,
            v.3@,
        ),
        forall|k2: TraceId|
            k2 != k && cache_contents(*final(c)).contains_key(k2) ==> cache_contents(
                *old(c),
            ).contains_key(k2) && cache_contents(*final(c))[k2] == cache_contents(*old(c))[k2],
{
    c.insert(k, v);
}

/// Relies on moka::sync::Cache::get: the answer, if any, is a clone of
/// the entry stored under `k`; reading may expire or evict entries but
/// never adds or alters one. An absent answer carries no claim, since
/// idle expiry depends on the clock.
#[verifier::external_body]
fn cache_get(c: &mut Store, k: TraceId) -> (r: Option<StoredEntry>)
    ensures
        cache_contents(*final(c)).dom().subset_of(cache_contents(*old(c)).dom()),
        forall|k2: TraceId|
            cache_contents(*final(c)).contains_key(k2) ==> cache_contents(*final(c))[k2]
                == cache_contents(*old(c))[k2],
        match r {
            Some(v) => cache_contents(*old(c)).contains_key(k) && cache_contents(*old(c))[k] == (
                v.0,
                v.1@,
                v.2@,
                v.3@,
            ),
            None => true,
        },
{
    c.get(&k)
}

/// Relies on moka::sync::Cache::run_pending_tasks: housekeeping only
/// removes entries (expired or evicted); it never adds or alters one.
#[verifier::external_body]
fn cache_run_pending(c: &mut Store)
    ensures
        cache_contents(*final(c)).dom().subset_of(cache_contents(*old(c)).dom()),
        forall|k2: TraceId|
            cache_contents(*final(c)).contains_key(k2) ==> cache_contents(*final(c))[k2]
                == cache_contents(*old(c))[k2],
{
    c.run_pending_tasks();
}

/// Relies on moka::sync::Cache::entry_count: it reports the cache's
/// own estimate of its live-entry count, a function of the cache state.
#[verifier::external_body]
fn cache_entry_count(c: &Store) -> (r: u64)
    ensures
        r == cache_reported_count(*c),
{
    c.entry_count()
}

/// The relation that one insertion leaves between the old and the new
/// contents of the cache: the inserted key, if present, holds the new
/// entry; no other key appeared; entries that survived are unchanged.
pub open spec fn insert_rel(
    before: Map<TraceId, StoredEntryV>,
    after: Map<TraceId, StoredEntryV>,
    id: TraceId,
    item: StoredEntryV,
) -> bool {
    &&& after.dom().subset_of(before.dom().insert(id))
    &&& (after.contains_key(id) ==> after[id] == item)
    &&& forall|k: TraceId|
        k != id && after.contains_key(k) ==> before.contains_key(k) && after[k] == before[k]
}

/// The bounded trace-correlation cache. Its view is the abstract map
/// of live entries.
pub struct TraceCache {
    cache: Store,
}

impl View for TraceCache {
    type V = Map<TraceId, StoredEntryV>;

    closed spec fn view(&self) -> Map<TraceId, StoredEntryV> {
        cache_contents(self.cache)
    }
}

impl TraceCache {
    /// The reported live-entry count of the current state, an estimate.
    pub closed spec fn spec_reported_count(&self) -> u64 {
        cache_reported_count(self.cache)
    }

    /// Build an empty cache with the given capacity bound and
    /// time-to-idle threshold in milliseconds.
    pub fn new(capacity: u64, tti_millis: u64) -> (r: TraceCache)
        requires
            1 <= tti_millis <= 1_000_000_000_000u64,
        ensures
            r@ == empty_contents(),
    {
        TraceCache { cache: cache_new(capacity, tti_millis) }
    }

    /// Insert an entry: last write wins under `id`, nothing else gains
    /// an entry, and surviving entries are unchanged.
    pub fn insert(&mut self, id: TraceId, item: TraceItem)
        ensures
            insert_rel(old(self)@, final(self)@, id, item@),
    {
        let TraceItem { time, duration, content } = item;
        let TrivialLogItem { tag, content: text } = content;
        cache_insert(&mut self.cache, id, (time, duration, tag, text));
    }

    /// Look an entry up, refreshing its idle timer: a present answer is
    /// the entry stored under `id`; an absent answer means the entry is
    /// missing or has sat idle past the threshold.
    pub fn get(&mut self, id: TraceId) -> (r: Option<TraceItem>)
        ensures
            final(self)@.dom().subset_of(old(self)@.dom()),
            forall|k: TraceId| final(self)@.contains_key(k) ==> final(self)@[k] == old(self)@[k],
            match r {
                Some(item) => old(self)@.contains_key(id) && item@ == old(self)@[id],
                None => true,
            },
    {
        match cache_get(&mut self.cache, id) {
            Some((time, duration, tag, text)) => Some(
                TraceItem { time, duration, content: TrivialLogItem { tag, content: text } },
            ),
            None => None,
        }
    }

    /// Run the cache's pending housekeeping, then report its live-entry
    /// count. Housekeeping only removes entries.
    pub fn settled_entry_count(&mut self) -> (r: u64)
        ensures
            final(self)@.dom().subset_of(old(self)@.dom()),
            forall|k: TraceId| final(self)@.contains_key(k) ==> final(self)@[k] == old(self)@[k],
            r == final(self).spec_reported_count(),
    {
        cache_run_pending(&mut self.cache);
        cache_entry_count(&self.cache)
    }
}

/// Law: inserting under the same identifier twice retains only the
/// second entry — whatever survives under that identifier after both
/// insertions is the second item, and no key outside the original
/// contents and the identifier holds an entry.
pub proof fn lemma_insert_last_write_wins(
    m0: Map<TraceId, StoredEntryV>,
    m1: Map<TraceId, StoredEntryV>,
    m2: Map<TraceId, StoredEntryV>,
    id: TraceId,
    v1: StoredEntryV,
    v2: StoredEntryV,
)
    requires
        insert_rel(m0, m1, id, v1),
        insert_rel(m1, m2, id, v2),
    ensures
        m2.contains_key(id) ==> m2[id] == v2,
        m2.dom().subset_of(m0.dom().insert(id)),
{
}

} // verus!
