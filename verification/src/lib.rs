//! A discrete-time production economy: entities produce and consume two
//! fungible resources (mass and energy), build one another over time subject
//! to resource availability, and may sacrifice themselves to instantly
//! advance a target's construction.
//!
//! All quantities are fixed-point numbers held in integers: a value of
//! `SCALE` stands for 1.0 unit. Construction progress ("health") runs from
//! 0 to `SCALE`. The per-tick pipeline runs in a fixed stage order; each
//! stage is a public function over the entity store, and each carries a
//! contract that pins down the state it produces.

use vstd::prelude::*;

pub mod fixed;
pub mod components;
pub mod economy;
pub mod store;
pub mod construct;
pub mod sacrifice;
pub mod gate;
pub mod sim;

verus! {

} // verus!
