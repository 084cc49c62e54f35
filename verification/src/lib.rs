//! A verified core for a concurrent TCP connect scanner.
//!
//! The library partitions the 16-bit port space into striped, disjoint
//! per-worker assignments, classifies connection attempts, carries the
//! per-port outcomes from many producers to a single consumer over a
//! channel, and aggregates them into a sorted scan result.

use vstd::prelude::*;

pub mod notification;
pub mod report;
pub mod scan;

verus! {

/// Highest TCP port number; the scan covers ports `1..=PORT_MAX`.
pub const PORT_MAX: u32 = 65535;

} // verus!
