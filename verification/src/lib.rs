//! Quiescent-state-based reclamation (QSBR) engine and its collaborators:
//! blocking and spinning mutual-exclusion primitives, an ordered thread
//! registry, and a sorted list that serves as the canonical client.
use vstd::prelude::*;

pub mod qsbr;
pub mod rcuelem;
pub mod rculist;
pub mod utils;

verus! {

/// Values of a per-thread `qstate` word at or above this bound are epoch
/// counters; smaller values are reserved state codes.
pub const COUNTER_BASE: u32 = 10;

pub open spec fn is_counter(q: u32) -> bool {
    q >= COUNTER_BASE
}

} // verus!
