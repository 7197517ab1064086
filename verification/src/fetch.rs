//! The fetch of one request: serve from the cache while it is fresh, ask the
//! provider when it is not, and store what the provider gave.

use vstd::prelude::*;
use crate::cache::{check_arrivals_cache, fresh_data, replaced, slot_view, update_arrivals_cache, Cache};
use crate::config::ApiConfig;
use crate::error::{upstream_error_text, Failure, FailureView, STATUS_BAD_GATEWAY};
use crate::tfl::{clone_arrivals, Arrival, TflError};

verus! {

/// What has happened to a request for arrivals.
#[derive(Debug, PartialEq, Eq)]
pub enum FetchEvent {
    /// The request has come in.
    Request,
    /// The call to the provider that this request asked for has ended, with
    /// this outcome.
    Fetched(Result<Vec<Arrival>, TflError>),
}

/// What the driver of a request is to do next.
#[derive(Debug, PartialEq, Eq)]
pub enum FetchAction {
    /// Answer the request with this.
    Respond(Result<Vec<Arrival>, Failure>),
    /// Call the provider, and come back with the outcome. The cache is not
    /// to be held meanwhile.
    CallUpstream,
}

/// One step of getting the arrivals for a request, at the instant `now`.
///
/// A request is answered from the cache if the cache is fresh, and without
/// a call to the provider; if it is not, the provider is to be called. When
/// the call has given arrivals, they are stored in place of whatever the
/// cache held, and are the answer. When it has failed, the failure is the
/// answer, and the cache stays as it was.
pub fn fetch_arrivals_from_tfl(
    cache: &mut Option<Cache>,
    config: &ApiConfig,
    now: u64,
    event: FetchEvent,
) -> (action: FetchAction)
    ensures
        match event {
            FetchEvent::Request => {
                &&& *final(cache) == *old(cache)
                &&& match fresh_data(slot_view(*old(cache)), now, config.cache_ttl) {
                    Some(data) => action matches FetchAction::Respond(Ok(arrivals)) && arrivals@
                        == data,
                    None => action == FetchAction::CallUpstream,
                }
            },
            FetchEvent::Fetched(Ok(fetched)) => {
                &&& slot_view(*final(cache)) == replaced(slot_view(*old(cache)), now, fetched@)
                &&& action matches FetchAction::Respond(Ok(arrivals))
                &&& arrivals@ == fetched@
            },
            FetchEvent::Fetched(Err(err)) => {
                &&& *final(cache) == *old(cache)
                &&& action matches FetchAction::Respond(Err(failure))
                &&& failure@ == (FailureView {
                    status: STATUS_BAD_GATEWAY,
                    body: upstream_error_text(err@),
                })
            },
        },
{
    match event {
        FetchEvent::Request => {
            match check_arrivals_cache(cache, now, config.cache_ttl) {
                Some(arrivals) => FetchAction::Respond(Ok(arrivals)),
                None => FetchAction::CallUpstream,
            }
        },
        FetchEvent::Fetched(Ok(fetched)) => {
            let stored = clone_arrivals(&fetched);
            update_arrivals_cache(cache, now, stored);
            FetchAction::Respond(Ok(fetched))
        },
        FetchEvent::Fetched(Err(err)) => FetchAction::Respond(Err(Failure::upstream(err))),
    }
}

} // verus!
