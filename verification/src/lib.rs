//! Execution core of a single-strategy trading engine.
//!
//! The library holds the verified logic: the moving-window indicator, the
//! position ledger, the sliding-window rate limiter, the moving-average
//! crossover strategy state machine, the per-event engine dispatch, and the
//! numeric formatting and parsing helpers they rely on.  Prices and sizes are
//! fixed-point integers with eight fractional decimal digits, so every
//! decision the core takes is exact integer arithmetic.
//!
//! Transport, persistence I/O and process wiring live outside the library and
//! exchange plain values with it.

pub mod config;
pub mod engine;
pub mod errors;
pub mod events;
pub mod indicators;
pub mod ma_crossover;
pub mod math;
pub mod orders;
pub mod position_manager;
pub mod rate_limiter;
pub mod registry;
pub mod storage;
pub mod strategy;
pub mod time;

use vstd::prelude::*;

verus! {

/// Number of fixed-point units in one whole: prices and sizes carry eight
/// fractional decimal digits.
pub const FP_ONE: i64 = 100_000_000;

} // verus!
