pub mod bytes;
pub mod database;
pub mod gas;
pub mod hashing;
pub mod laws;
pub mod mempool;
pub mod reputation;
pub mod sanity;
pub mod simulation;
pub mod simulation_trace;
pub mod types;
pub mod uopool;
pub mod user_operation;
pub mod validate;

use vstd::prelude::*;

verus! {

/// Percentage by which both fee fields of a user operation must grow
/// before a same-(sender, nonce) replacement is accepted.
pub const GAS_INCREASE_PERC: u64 = 10;

/// Upper bound on how many user operations an unstaked sender may hold
/// in the pool at once.
pub const MAX_UOS_PER_SENDER: usize = 4;

/// Pool cap for an unstaked entity whose reputation is throttled.
pub const THROTTLED_ENTITY_MEMPOOL_COUNT: usize = 1;

/// Smallest `call_gas_limit` accepted for a user operation.
pub const GAS_CALL_STIPEND: u64 = 35000;

/// Fraction of seen operations that must have been included before an
/// entity's reputation suffers.
pub const MIN_INCLUSION_RATE_DENOMINATOR: u64 = 10;

/// Shortfall tolerated before an entity is throttled.
pub const THROTTLING_SLACK: u64 = 10;

/// Shortfall beyond which an entity is banned.
pub const BAN_SLACK: u64 = 50;

/// Seconds of validity a user operation must still have when admitted.
pub const MIN_VALIDITY_WINDOW: u64 = 30;

} // verus!
