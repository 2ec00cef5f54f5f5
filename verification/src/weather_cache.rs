//! A time-to-live cache in front of a slow upstream source.
//!
//! Time is a count of ticks that the caller supplies; [`CachedApiClient::get`]
//! reads it from a monotonic clock, in nanoseconds since the cache was made.
//!
//! Nothing is swept: an expired record stays until a later fetch for its key
//! replaces it, and the number of records is not bounded.
//!
//! The cache does not coalesce. A caller that shares it and asks upstream
//! itself, between [`CachedApiClient::lookup_at`] and
//! [`CachedApiClient::settle_at`], may find that another caller missed on the
//! same key meanwhile; both then ask upstream.

use dashmap::DashMap;
use std::time::Duration;
use std::time::Instant;
use vstd::prelude::*;
use vstd::string::*;

verus! {

/// One cached value with the ticks at which it was fetched and at which it expires.
pub struct DataRecord<T> where T: Clone {
    pub data: T,
    pub fetched_at: u64,
    pub valid_until: u64,
}

/// The tick at which a value fetched at `fetched_at` expires under a lifetime
/// of `ttl`: their sum, or the last tick where the sum lies beyond it.
pub open spec fn expiry(fetched_at: u64, ttl: u64) -> u64 {
    if fetched_at + ttl > u64::MAX {
        u64::MAX
    } else {
        (fetched_at + ttl) as u64
    }
}

impl<T: Clone> DataRecord<T> {
    /// Whether the record is still fresh at `now` under a lifetime of `ttl`.
    pub open spec fn live_at(&self, now: u64, ttl: u64) -> bool {
        now - self.fetched_at < ttl
    }

    /// From its fetch on, a record whose expiry is its fetch tick plus the
    /// lifetime is fresh exactly until the expiry.
    pub proof fn lemma_live_until_expiry(self, now: u64, ttl: u64)
        requires
            self.fetched_at <= now,
            self.valid_until == self.fetched_at + ttl,
        ensures
            self.live_at(now, ttl) <==> now < self.valid_until,
    {
    }

    /// Whether the record is still fresh at `now` under a lifetime of `ttl`.
    pub fn is_live(&self, now: u64, ttl: u64) -> (live: bool)
        ensures
            live == self.live_at(now, ttl),
    {
        now < self.fetched_at || now - self.fetched_at < ttl
    }
}

/// An upstream source that produces a value for a key. Nothing is assumed of
/// what an implementation returns.
pub trait ApiFetch<T> {
    type Error;

    fn fetch(&self, key: &str) -> Result<T, Self::Error>;
}

/// `dashmap::DashMap`, the concurrent map; opaque here, spoken of through
/// [`index_entries`].
#[verifier::external_type_specification]
#[verifier::external_body]
#[verifier::reject_recursive_types(K)]
#[verifier::reject_recursive_types(V)]
#[verifier::reject_recursive_types(S)]
pub struct ExDashMap<K, V, S>(DashMap<K, V, S>);

/// `std::time::Instant`, a reading of the monotonic clock; opaque here.
#[verifier::external_type_specification]
#[verifier::external_body]
pub struct ExInstant(Instant);

/// The slot that a key index assigns to each key it holds.
pub uninterp spec fn index_entries(index: DashMap<String, usize>) -> Map<Seq<char>, usize>;

/// `DashMap::new`: a map that holds no key.
#[verifier::external_body]
fn index_new() -> (made: DashMap<String, usize>)
    ensures
        index_entries(made) =~= Map::empty(),
{
    DashMap::new()
}

/// `DashMap::get`, with the guard it returns turned into the slot it guards:
/// the slot stored under `key`, if the map holds the key.
#[verifier::external_body]
fn index_get(index: &DashMap<String, usize>, key: &str) -> (slot: Option<usize>)
    ensures
        slot == if index_entries(*index).contains_key(key@) {
            Some(index_entries(*index)[key@])
        } else {
            None
        },
{
    index.get(key).map(|entry| *entry.value())
}

/// `DashMap::insert`: afterwards the map holds `slot` under `key` and is
/// otherwise as before; the slot that `key` had before is returned.
#[verifier::external_body]
fn index_insert(index: &mut DashMap<String, usize>, key: String, slot: usize) -> (before: Option<
    usize,
>)
    ensures
        index_entries(*final(index)) == index_entries(*old(index)).insert(key@, slot),
        before == if index_entries(*old(index)).contains_key(key@) {
            Some(index_entries(*old(index))[key@])
        } else {
            None
        },
{
    index.insert(key, slot)
}

/// `Instant::now`: the current reading of the monotonic clock.
#[verifier::external_body]
fn clock_now() -> Instant {
    Instant::now()
}

/// `Instant::elapsed`: the time that has passed since `origin`.
#[verifier::external_body]
fn clock_elapsed(origin: &Instant) -> Duration {
    origin.elapsed()
}

/// `Duration::as_nanos`: the whole nanoseconds of a duration.
#[verifier::external_body]
fn duration_nanos(duration: &Duration) -> u128 {
    duration.as_nanos()
}

/// A cache of upstream values, each served for `ttl` ticks after it was fetched.
#[verifier::reject_recursive_types(T)]
#[verifier::reject_recursive_types(F)]
pub struct CachedApiClient<T, F> where T: Clone, F: ApiFetch<T> {
    client: F,
    index: DashMap<String, usize>,
    slots: Vec<DataRecord<T>>,
    ttl: u64,
    origin: Instant,
    log: Ghost<Seq<(Seq<char>, Result<T, F::Error>)>>,
}

impl<T: Clone, F: ApiFetch<T>> CachedApiClient<T, F> {
    /// The invariant of the cache: every key has a slot of its own among the
    /// records, and every record expires its lifetime after it was fetched.
    /// [`Self::new_from`] establishes it and every method keeps it.
    pub closed spec fn well_formed(&self) -> bool {
        let index = index_entries(self.index);
        &&& forall|key: Seq<char>| #[trigger]
            index.contains_key(key) ==> index[key] < self.slots@.len()
        &&& forall|a: Seq<char>, b: Seq<char>|
            #![trigger index[a], index[b]]
            index.contains_key(a) && index.contains_key(b) && index[a] == index[b] ==> a == b
        &&& forall|slot: int|
            0 <= slot < self.slots@.len() ==> (#[trigger] self.slots@[slot]).valid_until == expiry(
                self.slots@[slot].fetched_at,
                self.ttl,
            )
    }

    /// Every record of the cache, fresh or not, expires its lifetime after
    /// it was fetched.
    pub proof fn lemma_records_expire_after_ttl(self, key: Seq<char>)
        requires
            self.well_formed(),
            self.entries().contains_key(key),
        ensures
            self.entries()[key].valid_until == expiry(self.entries()[key].fetched_at, self.ttl()),
    {
    }

    /// The records that the cache holds, by key; expired ones among them.
    pub closed spec fn entries(&self) -> Map<Seq<char>, DataRecord<T>> {
        Map::new(
            |key: Seq<char>| index_entries(self.index).contains_key(key),
            |key: Seq<char>| self.slots@[index_entries(self.index)[key] as int],
        )
    }

    /// The lifetime of a record, in ticks.
    pub closed spec fn ttl(&self) -> u64 {
        self.ttl
    }

    /// Every request that the cache has made upstream, oldest first: the key
    /// and what came back.
    pub closed spec fn fetches(&self) -> Seq<(Seq<char>, Result<T, F::Error>)> {
        self.log@
    }

    /// Whether the cache holds a record for `key` that is fresh at `now`.
    pub open spec fn live_at(&self, key: Seq<char>, now: u64) -> bool {
        self.entries().contains_key(key) && self.entries()[key].live_at(now, self.ttl())
    }

    /// An empty cache in front of `base_client` that serves each value for
    /// `ttl` ticks: nanoseconds, where the cache is to read the clock itself.
    pub fn new_from(base_client: F, ttl: u64) -> (cache: Self)
        ensures
            cache.well_formed(),
            cache.entries() == Map::<Seq<char>, DataRecord<T>>::empty(),
            cache.ttl() == ttl,
            cache.fetches() == Seq::<(Seq<char>, Result<T, F::Error>)>::empty(),
    {
        let cache = CachedApiClient {
            client: base_client,
            index: index_new(),
            slots: Vec::new(),
            ttl,
            origin: clock_now(),
            log: Ghost(Seq::empty()),
        };
        assert(cache.entries() =~= Map::<Seq<char>, DataRecord<T>>::empty());
        cache
    }

    /// The record held for `key`, fresh or not.
    pub fn entry(&self, key: &str) -> (record: Option<&DataRecord<T>>)
        requires
            self.well_formed(),
        ensures
            match record {
                Some(found) => self.entries().contains_key(key@) && *found == self.entries()[key@],
                None => !self.entries().contains_key(key@),
            },
    {
        match index_get(&self.index, key) {
            Some(slot) => Some(&self.slots[slot]),
            None => None,
        }
    }

    /// The cached value for `key` if it is fresh at `now`. Upstream is not
    /// asked; a caller that gets nothing may ask it and hand what it
    /// returned to [`Self::settle_at`].
    pub fn lookup_at(&self, key: &str, now: u64) -> (hit: Option<T>)
        requires
            self.well_formed(),
        ensures
            hit is Some <==> self.live_at(key@, now),
            hit matches Some(value) ==> cloned(self.entries()[key@].data, value),
    {
        match self.entry(key) {
            Some(record) => {
                if record.is_live(now, self.ttl) {
                    Some(record.data.clone())
                } else {
                    None
                }
            },
            None => None,
        }
    }

    /// Stores `val` for `key` as fetched at `now`, in place of any record the
    /// key had, and hands that record back.
    pub fn insert(&mut self, key: &str, val: T, now: u64) -> (before: Option<DataRecord<T>>)
        requires
            old(self).well_formed(),
        ensures
            final(self).well_formed(),
            final(self).entries() == old(self).entries().insert(
                key@,
                (DataRecord {
                    data: val,
                    fetched_at: now,
                    valid_until: expiry(now, old(self).ttl()),
                }),
            ),
            final(self).ttl() == old(self).ttl(),
            final(self).fetches() == old(self).fetches(),
            before == if old(self).entries().contains_key(key@) {
                Some(old(self).entries()[key@])
            } else {
                None
            },
    {
        let record = DataRecord {
            data: val,
            fetched_at: now,
            valid_until: now.saturating_add(self.ttl),
        };
        let fresh: usize = self.slots.len();
        self.slots.push(record);
        match index_get(&self.index, key) {
            Some(slot) => {
                let before = self.slots.swap_remove(slot);
                assert(final(self).entries() =~= old(self).entries().insert(key@, record));
                Some(before)
            },
            None => {
                index_insert(&mut self.index, key.to_owned(), fresh);
                assert(final(self).entries() =~= old(self).entries().insert(key@, record));
                None
            },
        }
    }

    /// Takes in what upstream returned for `key` at `now`: a value is stored
    /// and handed on; a failure is handed on and leaves the cache as it was,
    /// a stale record for the key included.
    pub fn settle_at(&mut self, key: &str, fetched: Result<T, F::Error>, now: u64) -> (served:
        Result<T, F::Error>)
        requires
            old(self).well_formed(),
        ensures
            final(self).well_formed(),
            served == fetched,
            final(self).ttl() == old(self).ttl(),
            final(self).fetches() == old(self).fetches(),
            Self::settled(
                old(self).entries(),
                old(self).ttl(),
                key@,
                fetched,
                now,
                final(self).entries(),
            ),
    {
        match fetched {
            Ok(value) => {
                let _ = self.insert(key, value.clone(), now);
                Ok(value)
            },
            Err(e) => Err(e),
        }
    }

    /// How the records stand once `fetched`, which upstream returned for
    /// `key` at `now`, has been taken in.
    pub open spec fn settled(
        before: Map<Seq<char>, DataRecord<T>>,
        ttl: u64,
        key: Seq<char>,
        fetched: Result<T, F::Error>,
        now: u64,
        after: Map<Seq<char>, DataRecord<T>>,
    ) -> bool {
        match fetched {
            Ok(value) => {
                &&& after.contains_key(key)
                &&& cloned(value, after[key].data)
                &&& after[key].fetched_at == now
                &&& after[key].valid_until == expiry(now, ttl)
                &&& after == before.insert(key, after[key])
            },
            Err(_) => after == before,
        }
    }

    /// Asks upstream for `key`, once.
    fn ask(&mut self, key: &str) -> (fetched: Result<T, F::Error>)
        requires
            old(self).well_formed(),
        ensures
            final(self).well_formed(),
            final(self).fetches() == old(self).fetches().push((key@, fetched)),
            final(self).entries() == old(self).entries(),
            final(self).ttl() == old(self).ttl(),
    {
        let fetched = self.client.fetch(key);
        self.log = Ghost(self.log@.push((key@, fetched)));
        fetched
    }

    /// What a `get` of `key` at `now` does to a cache and what it serves.
    ///
    /// On a fresh record the value is served from the cache, which stays as
    /// it was, and upstream is not asked. Otherwise upstream is asked exactly
    /// once, what it returned is served, and the records are settled by it.
    pub open spec fn get_outcome(
        before: Self,
        key: Seq<char>,
        now: u64,
        after: Self,
        served: Result<T, F::Error>,
    ) -> bool {
        &&& after.ttl() == before.ttl()
        &&& if before.live_at(key, now) {
            &&& served matches Ok(value)
            &&& cloned(before.entries()[key].data, value)
            &&& after.entries() == before.entries()
            &&& after.fetches() == before.fetches()
        } else {
            &&& after.fetches() == before.fetches().push((key, served))
            &&& Self::settled(before.entries(), before.ttl(), key, served, now, after.entries())
        }
    }

    /// A fresh record is served from the cache: upstream is not asked and the
    /// cache stays as it was.
    pub proof fn lemma_fresh_record_is_served(
        before: Self,
        key: Seq<char>,
        now: u64,
        after: Self,
        served: Result<T, F::Error>,
    )
        requires
            Self::get_outcome(before, key, now, after, served),
            before.live_at(key, now),
        ensures
            served matches Ok(value) && cloned(before.entries()[key].data, value),
            after.fetches() == before.fetches(),
            after.entries() == before.entries(),
    {
    }

    /// Without a fresh record upstream is asked exactly once, for this key,
    /// and what it returned is served; a failure leaves the records as they were.
    pub proof fn lemma_stale_record_is_fetched_once(
        before: Self,
        key: Seq<char>,
        now: u64,
        after: Self,
        served: Result<T, F::Error>,
    )
        requires
            Self::get_outcome(before, key, now, after, served),
            !before.live_at(key, now),
        ensures
            after.fetches().len() == before.fetches().len() + 1,
            after.fetches().drop_last() == before.fetches(),
            after.fetches().last() == (key, served),
            served is Err ==> after.entries() == before.entries(),
            served is Ok ==> after.entries().contains_key(key) && after.entries()[key].fetched_at
                == now,
    {
        assert(before.fetches().push((key, served)).drop_last() =~= before.fetches());
    }

    /// A value that was fetched at `first` is served from the cache at every
    /// `second` less than the lifetime after it.
    pub proof fn lemma_fetched_value_stays_fresh(
        before: Self,
        key: Seq<char>,
        first: u64,
        between: Self,
        fetched: Result<T, F::Error>,
        second: u64,
        after: Self,
        served: Result<T, F::Error>,
    )
        requires
            Self::get_outcome(before, key, first, between, fetched),
            !before.live_at(key, first),
            fetched is Ok,
            second - first < before.ttl(),
            Self::get_outcome(between, key, second, after, served),
        ensures
            served matches Ok(value) && cloned(between.entries()[key].data, value),
            after.fetches() == between.fetches(),
            after.entries() == between.entries(),
    {
    }

    /// The value for `key` at the tick `now`: from the cache while the record
    /// is fresh, else from upstream.
    pub fn get_at(&mut self, key: &str, now: u64) -> (served: Result<T, F::Error>)
        requires
            old(self).well_formed(),
        ensures
            final(self).well_formed(),
            Self::get_outcome(*old(self), key@, now, *final(self), served),
    {
        match self.lookup_at(key, now) {
            Some(value) => Ok(value),
            None => {
                let fetched = self.ask(key);
                self.settle_at(key, fetched, now)
            },
        }
    }

    /// The tick of the clock: whole nanoseconds since the cache was made, or
    /// the last tick once they no longer fit.
    pub fn now(&self) -> u64 {
        let elapsed = clock_elapsed(&self.origin);
        let nanos: u128 = duration_nanos(&elapsed);
        tick_of(nanos)
    }

    /// The value for `key` at the current tick of the clock.
    pub fn get(&mut self, key: &str) -> (served: Result<T, F::Error>)
        requires
            old(self).well_formed(),
        ensures
            final(self).well_formed(),
            exists|now: u64| Self::get_outcome(*old(self), key@, now, *final(self), served),
    {
        let now = self.now();
        let served = self.get_at(key, now);
        assert(Self::get_outcome(*old(self), key@, now, *self, served));
        served
    }
}

/// The tick that stands for a count of nanoseconds: the count itself, or the
/// last tick where the count lies beyond it.
pub open spec fn tick_for(nanos: u128) -> u64 {
    if nanos > u64::MAX {
        u64::MAX
    } else {
        nanos as u64
    }
}

/// Turns the nanoseconds that the clock counted into a tick.
pub fn tick_of(nanos: u128) -> (tick: u64)
    ensures
        tick == tick_for(nanos),
{
    if nanos > u64::MAX as u128 {
        u64::MAX
    } else {
        nanos as u64
    }
}

} // verus!
