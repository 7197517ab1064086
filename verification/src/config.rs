//! The configuration of the service: which stop it serves, with which
//! credentials, and for how long a fetch stays fresh.

use vstd::prelude::*;
use vstd::string::*;
use crate::text::optional_text;
use crate::tfl::{arrivals_url, build_tfl_url};

verus! {

/// For how long a fetch is served from the cache: ten seconds, in
/// nanoseconds.
pub const CACHE_TTL_NANOS: u64 = 10_000_000_000;

/// The configuration, fixed when the service starts.
#[derive(Debug, PartialEq, Eq)]
pub struct ApiConfig {
    /// The stop whose arrivals are served.
    pub stop_id: String,
    /// The application identifier sent to the provider, if there is one.
    pub app_id: Option<String>,
    /// The application key sent to the provider, if there is one.
    pub app_key: Option<String>,
    /// For how long a fetch stays fresh, in nanoseconds.
    pub cache_ttl: u64,
}

/// A credential as the configuration keeps it: absent when it is empty.
pub open spec fn kept_credential(value: Option<String>) -> Option<String> {
    match value {
        Some(v) if v@.len() > 0 => Some(v),
        _ => None,
    }
}

fn keep_credential(value: Option<String>) -> (kept: Option<String>)
    ensures
        kept == kept_credential(value),
{
    match value {
        Some(v) => {
            if v.as_str().is_empty() {
                None
            } else {
                Some(v)
            }
        },
        None => None,
    }
}

fn clone_optional(value: &Option<String>) -> (copy: Option<String>)
    ensures
        copy == *value,
{
    match value {
        Some(v) => Some(v.clone()),
        None => None,
    }
}

impl Clone for ApiConfig {
    fn clone(&self) -> (copy: Self)
        ensures
            copy == *self,
    {
        ApiConfig {
            stop_id: self.stop_id.clone(),
            app_id: clone_optional(&self.app_id),
            app_key: clone_optional(&self.app_key),
            cache_ttl: self.cache_ttl,
        }
    }
}

impl ApiConfig {
    /// The URL of the arrivals request that this configuration asks for.
    pub open spec fn url(self) -> Seq<char> {
        arrivals_url(self.stop_id@, optional_text(self.app_id), optional_text(self.app_key))
    }

    /// Builds the URL of the arrivals request for the configured stop, with
    /// the credentials that are given.
    pub fn build_tfl_url(&self) -> (url: String)
        ensures
            url@ == self.url(),
    {
        let app_id = match &self.app_id {
            Some(v) => Some(v.as_str()),
            None => None,
        };
        let app_key = match &self.app_key {
            Some(v) => Some(v.as_str()),
            None => None,
        };
        build_tfl_url(self.stop_id.as_str(), app_id, app_key)
    }
}

/// Makes the configuration from the settings as they were read: the stop
/// identifier, which must be set, and the two credentials, each absent when
/// it was not set. A credential that is empty counts as absent, and a fetch
/// stays fresh for ten seconds.
pub fn load_config(
    stop_id: Option<String>,
    app_id: Option<String>,
    app_key: Option<String>,
) -> (config: ApiConfig)
    requires
        stop_id is Some,
    ensures
        config == (ApiConfig {
            stop_id: stop_id.unwrap(),
            app_id: kept_credential(app_id),
            app_key: kept_credential(app_key),
            cache_ttl: CACHE_TTL_NANOS,
        }),
{
    ApiConfig {
        stop_id: stop_id.unwrap(),
        app_id: keep_credential(app_id),
        app_key: keep_credential(app_key),
        cache_ttl: CACHE_TTL_NANOS,
    }
}

} // verus!
