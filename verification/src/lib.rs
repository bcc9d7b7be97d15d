//! A key-granularity reader/writer lock manager with try semantics.
//!
//! [`rwlatch`] holds the state machine of one key; [`locktable`] maps keys to
//! latches and keeps an entry exactly while its key is locked.

pub mod entries;
pub mod history;
pub mod locktable;
pub mod rwlatch;
