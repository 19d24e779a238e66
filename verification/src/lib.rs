//! A rotating savings circle: members contribute a fixed amount each cycle,
//! one member per cycle receives the pot, reputation tracks who pays on time,
//! reputable addresses vouch for newcomers, and members vote on rule changes.
use vstd::prelude::*;

pub mod types;
pub mod model;
pub mod entries;
mod proofs;
pub mod circle;
pub mod laws;
pub mod admission;

verus! {

} // verus!
