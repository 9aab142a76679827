//! Modpack manifest handling around a cache of remote catalog responses.
//!
//! `cache` holds the time-to-live response store; `fetch` the request keys,
//! time-to-live policy, download-URL rules and paginated listing of the fetch
//! layer; `model` the manifest types and their conversions; `order`, `text`,
//! `urls` and `digest` the ordering, string, URL and hashing building blocks
//! they rest on.
pub mod cache;
pub mod digest;
pub mod fetch;
pub mod model;
pub mod order;
pub mod text;
pub mod urls;
