//! A verified core for a small persistent leaderboard record.
//!
//! The crate models a single persisted record holding a display counter, an
//! owner identity, and an ordered leaderboard of `(identity, score)` pairs.
//! `state` holds the record type and the score upsert algorithm; `store`
//! wraps the record's Absent/Present lifecycle behind the four operations a
//! request router calls; `text` renders scores as decimal text for
//! confirmation events; `laws` states and proves the properties the design
//! promises its callers.

pub mod laws;
pub mod state;
pub mod store;
pub mod text;

pub use state::State;
pub use store::{CountResponse, Event, RecordStore, ScoreResponse, StoreError};
