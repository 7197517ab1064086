//! The cache: one slot that holds the latest fetch and the instant at which
//! it was made.
//!
//! Instants are nanoseconds on a clock that does not run backwards. The slot
//! is either empty or holds one entry, and an entry is only ever read or
//! replaced as a whole.

use vstd::prelude::*;
use crate::tfl::{clone_arrivals, Arrival};

verus! {

/// The latest fetch: the arrivals, and when they were fetched.
#[derive(Debug, PartialEq, Eq)]
pub struct Cache {
    /// The instant of the fetch, in nanoseconds.
    pub last_fetch: u64,
    /// The arrivals as they were fetched.
    pub data: Vec<Arrival>,
}

/// What a `Cache` holds, as plain values.
pub ghost struct CacheView {
    pub last_fetch: u64,
    pub data: Seq<Arrival>,
}

impl View for Cache {
    type V = CacheView;

    open spec fn view(&self) -> CacheView {
        CacheView { last_fetch: self.last_fetch, data: self.data@ }
    }
}

/// What the slot holds: nothing, or one entry.
pub open spec fn slot_view(slot: Option<Cache>) -> Option<CacheView> {
    match slot {
        Some(entry) => Some(entry@),
        None => None,
    }
}

/// The time from `then` to `now`; none when `now` is the earlier.
pub open spec fn elapsed(then: u64, now: u64) -> int {
    if now >= then {
        now - then
    } else {
        0
    }
}

/// The arrivals that the slot gives at `now`: those of its entry, as long as
/// less than `ttl` has passed since the entry was made.
pub open spec fn fresh_data(slot: Option<CacheView>, now: u64, ttl: u64) -> Option<Seq<Arrival>> {
    match slot {
        Some(entry) if elapsed(entry.last_fetch, now) < ttl => Some(entry.data),
        _ => None,
    }
}

/// The slot after a fetch at `now` was stored: it holds that fetch, whatever
/// it held before.
pub open spec fn replaced(slot: Option<CacheView>, now: u64, data: Seq<Arrival>) -> Option<CacheView> {
    Some(CacheView { last_fetch: now, data })
}

/// Reads the cache at `now`: the arrivals of the entry if there is one and
/// it is fresh, that is, less than `ttl` has passed since it was made.
pub fn check_arrivals_cache(slot: &Option<Cache>, now: u64, ttl: u64) -> (hit: Option<Vec<Arrival>>)
    ensures
        match fresh_data(slot_view(*slot), now, ttl) {
            Some(data) => hit matches Some(arrivals) && arrivals@ == data,
            None => hit is None,
        },
{
    match slot {
        Some(entry) => {
            let passed = if now >= entry.last_fetch {
                now - entry.last_fetch
            } else {
                0
            };
            if passed < ttl {
                Some(clone_arrivals(&entry.data))
            } else {
                None
            }
        },
        None => None,
    }
}

/// Stores a fetch made at `now`. The slot then holds this fetch and nothing
/// of what it held before.
pub fn update_arrivals_cache(slot: &mut Option<Cache>, now: u64, arrivals: Vec<Arrival>)
    ensures
        *final(slot) == Some(Cache { last_fetch: now, data: arrivals }),
        slot_view(*final(slot)) == replaced(slot_view(*old(slot)), now, arrivals@),
{
    *slot = Some(Cache { last_fetch: now, data: arrivals });
}

/// A fetch stored at `captured_at` is served at every instant from then
/// until `window` has passed, and no longer.
pub proof fn lemma_fresh_within_window(
    slot: Option<CacheView>,
    captured_at: u64,
    data: Seq<Arrival>,
    window: u64,
    query: u64,
)
    ensures
        captured_at <= query < captured_at + window ==> fresh_data(
            replaced(slot, captured_at, data),
            query,
            window,
        ) == Some(data),
        query >= captured_at + window ==> fresh_data(replaced(slot, captured_at, data), query, window)
            is None,
{
}

/// The slot after a run of stores, made one after another in this order.
pub open spec fn after_stores(slot: Option<CacheView>, stores: Seq<CacheView>) -> Option<CacheView>
    decreases stores.len(),
{
    if stores.len() == 0 {
        slot
    } else {
        replaced(after_stores(slot, stores.drop_last()), stores.last().last_fetch, stores.last().data)
    }
}

/// However many stores were made, and whatever the slot held before, the
/// store that came last decides what the slot holds: its instant and its
/// arrivals, with nothing left of any other.
pub proof fn lemma_last_store_wins(slot: Option<CacheView>, stores: Seq<CacheView>)
    requires
        stores.len() > 0,
    ensures
        after_stores(slot, stores) == Some(stores.last()),
{
}

} // verus!
