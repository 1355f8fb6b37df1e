//! Vote admission and voting-power computation for a governance backend.
use vstd::prelude::*;

pub mod admission;
pub mod bindings;
pub mod error;
pub mod events;
pub mod gateway;
pub mod power;
pub mod text;
pub mod store;
pub mod strategy;
pub mod types;
pub mod utils;

verus! {

} // verus!
