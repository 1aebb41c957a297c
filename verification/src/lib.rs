//! A library for tracking short-lived chat messages and surfacing them for
//! deletion once a configured lifetime has passed.
//!
//! The heart of the crate is [`storage::Storage`], a durable, ordered-by-expiry
//! index of pending messages: `add` records a message, and `sweep_expired`
//! atomically removes and returns every message whose lifetime has elapsed,
//! never losing a pending message and never handing the same message out twice.
//! [`ingest`] holds the eligibility rules for inbound messages, in particular
//! the hashtag-based exclusion check over UTF-16 code units.

pub mod config;
pub mod ingest;
pub mod storage;
