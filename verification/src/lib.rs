use vstd::prelude::*;

pub mod git;
pub mod model;
pub mod params;
pub mod state;
pub mod review;
pub mod text;
pub mod tools;

verus! {
} // verus!
