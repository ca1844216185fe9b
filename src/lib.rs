use vstd::prelude::*;

pub mod diff;
pub mod corpus;
pub mod escape;
pub mod pipeline;
pub mod render;
pub mod report;

verus! {

} // verus!
