//! Guardrails and configuration constants.
use vstd::prelude::*;

verus! {

/// Minimum length in bytes of the literal inside a contains pattern (`*foo*`).
pub const MIN_CONTAINS_LEN: usize = 3;

/// Minimum length in bytes of the literal prefix of a prefix or glob pattern.
pub const MIN_PREFIX_LEN: usize = 2;

/// Maximum number of dictionary entries to expand for prefix patterns.
pub const MAX_PREFIX_EXPANSION: usize = 20000;

/// Default cursor lifetime in milliseconds (one hour).
pub const CURSOR_TTL_MS: i64 = 3600000;

} // verus!
