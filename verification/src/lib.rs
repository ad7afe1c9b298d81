//! A model of the x87 floating-point unit's register stack, status, control
//! and tag words, with the exact conversions and memory images around them.
use vstd::prelude::*;

pub mod bits;
pub mod f80;
pub mod state;
pub mod tags;
pub mod le;
pub mod env;
pub mod ops;
pub mod arith;
pub mod results;
pub mod computed;
pub mod laws;

verus! {

} // verus!
