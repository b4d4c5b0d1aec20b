//! A minimal line-oriented key-value store: an in-memory map from keys to
//! values carrying a time-to-live attribute, and the request protocol that
//! clients speak to it.

pub mod store_value;
pub mod store;
pub mod server;
pub mod protocol;
