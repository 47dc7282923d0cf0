//! Verified core of a personal input-statistics assistant.
use vstd::prelude::*;

pub mod text;
pub mod todo;
pub mod stats;
pub mod privacy;
pub mod clock;
pub mod ime;
pub mod input;
pub mod config;
pub mod dates;
pub mod due;
pub mod focus;
pub mod keys;
pub mod scheduler;
pub mod export;
pub mod query;
pub mod analysis;
pub mod desktop;
pub mod laws;

verus! {
}
