//! Detection engine for triangular arbitrage on one spot exchange.
//!
//! - `quantize`: rounding down to an exchange's step and tick grids.
//! - `transaction`: one leg of a cycle and what evaluating it gives.
//! - `arbitrage`: a cycle of three legs, its walk, and the profit of a walk.
//! - `topology`: every cycle that a universe of assets allows.
//! - `executor`: the detector's cycles and one worker's decision per snapshot.
//! - `ordering`: the orders handed on for a profit.
//!
//! Amounts and prices are fixed-point integers counted in units of
//! 10^-8 (see [`quantize::SCALE`]).
use vstd::prelude::*;

pub mod arbitrage;
pub mod executor;
pub mod ordering;
pub mod quantize;
mod runtime;
pub mod text;
pub mod topology;
pub mod transaction;

verus! {

} // verus!
