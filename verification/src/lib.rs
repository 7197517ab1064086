//! Arrival predictions for one transit stop, read through a short-lived
//! cache from the TfL API and served as a plain list or as a summary.
//!
//! The library decides and computes; it does no input or output of its own
//! and reads no clock. A driver holds the HTTP client, the clocks and the
//! lock around the cache, hands in the instants, and asks at each step what
//! to do next:
//!
//! - [`fetch::fetch_arrivals_from_tfl`] answers a request from the cache
//!   while the cache is fresh, and otherwise asks for a call to the provider;
//! - [`tfl::fetch_arrivals`] leads that call: which URL to get, which body to
//!   read, and what the outcome is;
//! - [`views::next_bus`] and [`views::next_bus_summary`] turn the fetched
//!   arrivals into what the two endpoints answer.
//!
//! Every function states what it returns, and Verus proves that it does.
//! What rests on code outside this crate is marked as trusted where it
//! stands: percent-encoding, the text of an HTTP status, and the Unicode
//! tables behind trimming and lower-casing.

pub mod cache;
pub mod config;
pub mod error;
pub mod fetch;
pub mod text;
pub mod tfl;
pub mod views;
