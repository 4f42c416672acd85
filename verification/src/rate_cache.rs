//! The in-memory cache of the last upstream answer.
//!
//! Instants are nanoseconds on the service's monotonic clock. An entry is served while the
//! time elapsed since it was fetched (zero if the clock reads earlier) is below the time to
//! live.
use vstd::prelude::*;

use crate::nbp_parser::{copy_items, CurrencyExchangeRateItem, ItemModel};

verus! {

/// The records fetched at `fetched_at`.
pub struct CachedRates {
    pub fetched_at: u128,
    pub items: Vec<CurrencyExchangeRateItem>,
}

/// The cache: empty, or the last records fetched.
pub struct RateCache {
    entry: Option<CachedRates>,
}

/// What the cache holds: when the records were fetched, and the records.
pub type CacheModel = Option<(u128, Seq<ItemModel>)>;

/// Nanoseconds in a second.
pub const NANOS_PER_SEC: u128 = 1_000_000_000;

/// Time elapsed from `from` to `now`, zero when `now` is earlier.
pub open spec fn elapsed(from: u128, now: u128) -> int {
    if now >= from {
        now - from
    } else {
        0
    }
}

/// An entry fetched at `fetched_at` may still be served at `now`.
pub open spec fn is_fresh(fetched_at: u128, now: u128, ttl_secs: u64) -> bool {
    elapsed(fetched_at, now) < ttl_secs * NANOS_PER_SEC
}

/// What a lookup at `now` serves from a cache holding `model`.
pub open spec fn lookup_spec(model: CacheModel, now: u128, ttl_secs: u64) -> Option<
    Seq<ItemModel>,
> {
    match model {
        Some((fetched_at, items)) => if is_fresh(fetched_at, now, ttl_secs) {
            Some(items)
        } else {
            None
        },
        None => None,
    }
}

/// The records an upstream fetch brought, if it succeeded.
pub open spec fn fetched<E>(outcome: &Result<Vec<CurrencyExchangeRateItem>, E>) -> Option<
    Seq<ItemModel>,
> {
    match outcome {
        Ok(v) => Some(v.deep_view()),
        Err(_) => None,
    }
}

/// The cache after a fetch completed at `now`: the records it brought, or, after a failure,
/// what the cache held.
pub open spec fn after_fetch(model: CacheModel, now: u128, fetched: Option<Seq<ItemModel>>) -> CacheModel {
    match fetched {
        Some(items) => Some((now, items)),
        None => model,
    }
}

pub open spec fn served(r: Option<Vec<CurrencyExchangeRateItem>>) -> Option<Seq<ItemModel>> {
    match r {
        Some(v) => Some(v.deep_view()),
        None => None,
    }
}

impl View for RateCache {
    type V = CacheModel;

    closed spec fn view(&self) -> CacheModel {
        match self.entry {
            Some(e) => Some((e.fetched_at, e.items.deep_view())),
            None => None,
        }
    }
}

impl RateCache {
    /// An empty cache.
    pub fn new() -> (r: RateCache)
        ensures
            r@ == None::<(u128, Seq<ItemModel>)>,
    {
        RateCache { entry: None }
    }

    /// Whether an entry fetched at `fetched_at` may still be served at `now`.
    pub fn fresh(fetched_at: u128, now: u128, ttl_secs: u64) -> (r: bool)
        ensures
            r == is_fresh(fetched_at, now, ttl_secs),
            fetched_at <= now ==> (r <==> now - fetched_at < ttl_secs * 1_000_000_000),
            now < fetched_at ==> (r <==> ttl_secs > 0),
    {
        let since = if now >= fetched_at {
            now - fetched_at
        } else {
            0
        };
        assert(ttl_secs * NANOS_PER_SEC <= u64::MAX * NANOS_PER_SEC) by (nonlinear_arith)
            requires
                ttl_secs <= u64::MAX,
        ;
        since < (ttl_secs as u128) * NANOS_PER_SEC
    }

    /// The records to serve at `now` without asking upstream: a copy of the cached ones while
    /// they are fresh, else none.
    pub fn lookup(&self, now: u128, ttl_secs: u64) -> (r: Option<Vec<CurrencyExchangeRateItem>>)
        ensures
            served(r) == lookup_spec(self@, now, ttl_secs),
            self@ is None ==> r is None,
            self@ matches Some((fetched_at, items)) ==> {
                &&& fetched_at <= now && now - fetched_at < ttl_secs * 1_000_000_000 ==> served(r)
                    == Some(items)
                &&& fetched_at <= now && now - fetched_at >= ttl_secs * 1_000_000_000 ==> r is None
                &&& now < fetched_at ==> (r is Some <==> ttl_secs > 0)
                &&& r matches Some(v) ==> v.deep_view() == items
            },
    {
        match &self.entry {
            Some(e) => {
                if Self::fresh(e.fetched_at, now, ttl_secs) {
                    Some(copy_items(&e.items))
                } else {
                    None
                }
            },
            None => None,
        }
    }

    /// Takes the outcome of an upstream fetch that completed at `now`: records that came back
    /// replace what the cache held, a failure leaves the cache as it was. The outcome is handed
    /// back unchanged.
    pub fn record_fetch<E>(
        &mut self,
        now: u128,
        outcome: Result<Vec<CurrencyExchangeRateItem>, E>,
    ) -> (r: Result<Vec<CurrencyExchangeRateItem>, E>)
        ensures
            final(self)@ == after_fetch(old(self)@, now, fetched(&outcome)),
            r == outcome,
            outcome is Err ==> final(self)@ == old(self)@,
            outcome is Ok ==> final(self)@ == Some((now, outcome->Ok_0.deep_view())),
    {
        if let Ok(items) = &outcome {
            self.store(now, items);
        }
        outcome
    }

    /// Keeps a copy of `items`, fetched at `now`, in place of what the cache held.
    pub fn store(&mut self, now: u128, items: &Vec<CurrencyExchangeRateItem>)
        ensures
            final(self)@ == Some((now, items.deep_view())),
    {
        self.entry = Some(CachedRates { fetched_at: now, items: copy_items(items) });
    }
}

/// A new cache serves nothing.
pub proof fn law_new_cache_serves_nothing(now: u128, ttl_secs: u64)
    ensures
        lookup_spec(None, now, ttl_secs) == None::<Seq<ItemModel>>,
{
}

/// What was just stored is served for as long as it is fresh: a lookup less than the time to
/// live after a store gives back exactly the stored records.
pub proof fn law_store_then_lookup(
    stored_at: u128,
    items: Seq<ItemModel>,
    now: u128,
    ttl_secs: u64,
)
    requires
        elapsed(stored_at, now) < ttl_secs * NANOS_PER_SEC,
    ensures
        lookup_spec(Some((stored_at, items)), now, ttl_secs) == Some(items),
{
}

/// A lookup right after a store, with a positive time to live, gives back the stored records.
pub proof fn law_store_then_immediate_lookup(stored_at: u128, items: Seq<ItemModel>, ttl_secs: u64)
    requires
        ttl_secs > 0,
    ensures
        lookup_spec(Some((stored_at, items)), stored_at, ttl_secs) == Some(items),
{
    assert(ttl_secs * NANOS_PER_SEC > 0) by (nonlinear_arith)
        requires
            ttl_secs > 0,
    ;
}

/// Records are never served once the time to live has passed since they were fetched.
pub proof fn law_stale_entry_not_served(model: CacheModel, now: u128, ttl_secs: u64)
    requires
        model matches Some((fetched_at, _)) && elapsed(fetched_at, now) >= ttl_secs * NANOS_PER_SEC,
    ensures
        lookup_spec(model, now, ttl_secs) == None::<Seq<ItemModel>>,
{
}

/// Whatever a lookup serves is the last stored set of records.
pub proof fn law_served_records_were_stored(model: CacheModel, now: u128, ttl_secs: u64)
    requires
        lookup_spec(model, now, ttl_secs) is Some,
    ensures
        model matches Some((_, items)) && lookup_spec(model, now, ttl_secs) == Some(items),
{
}

/// A failed fetch leaves the cache as it was; so where the cache had nothing to serve when
/// the fetch was made, it still has nothing to serve at any later instant, and the next request
/// asks upstream again.
pub proof fn law_failed_fetch_keeps_cache(
    model: CacheModel,
    asked_at: u128,
    failed_at: u128,
    later: u128,
    ttl_secs: u64,
)
    requires
        lookup_spec(model, asked_at, ttl_secs) is None,
        asked_at <= later,
    ensures
        after_fetch(model, failed_at, None) == model,
        lookup_spec(after_fetch(model, failed_at, None), later, ttl_secs) is None,
{
}

/// A successful fetch is what the cache serves next, while it is fresh.
pub proof fn law_successful_fetch_is_served(
    model: CacheModel,
    now: u128,
    items: Seq<ItemModel>,
    later: u128,
    ttl_secs: u64,
)
    requires
        elapsed(now, later) < ttl_secs * NANOS_PER_SEC,
    ensures
        lookup_spec(after_fetch(model, now, Some(items)), later, ttl_secs) == Some(items),
{
}

/// The age of an entry is the plain difference of the instants: an entry fetched at or before
/// `now` is fresh exactly while that difference is below the time to live, however long the
/// time to live is.
pub proof fn law_fresh_exactly_below_ttl(fetched_at: u128, now: u128, ttl_secs: u64)
    requires
        fetched_at <= now,
    ensures
        is_fresh(fetched_at, now, ttl_secs) <==> now - fetched_at < ttl_secs * 1_000_000_000,
{
}

/// An entry at least as old as its time to live is never served, for every time to live.
pub proof fn law_old_entry_never_served(
    fetched_at: u128,
    items: Seq<ItemModel>,
    now: u128,
    ttl_secs: u64,
)
    requires
        fetched_at <= now,
        now - fetched_at >= ttl_secs * 1_000_000_000,
    ensures
        lookup_spec(Some((fetched_at, items)), now, ttl_secs) is None,
{
}

/// An entry younger than its time to live is served, with exactly the records stored.
pub proof fn law_young_entry_served(
    fetched_at: u128,
    items: Seq<ItemModel>,
    now: u128,
    ttl_secs: u64,
)
    requires
        fetched_at <= now,
        now - fetched_at < ttl_secs * 1_000_000_000,
    ensures
        lookup_spec(Some((fetched_at, items)), now, ttl_secs) == Some(items),
{
}

/// Freshness only runs out: an entry that is not fresh at some instant is not fresh at any
/// later one.
pub proof fn law_staleness_lasts(fetched_at: u128, now: u128, later: u128, ttl_secs: u64)
    requires
        now <= later,
        !is_fresh(fetched_at, now, ttl_secs),
    ensures
        !is_fresh(fetched_at, later, ttl_secs),
        fetched_at <= now ==> later - fetched_at >= ttl_secs * 1_000_000_000,
{
}

} // verus!
