//! Verified core of a GPU test harness.
use vstd::prelude::*;

pub mod components;
pub mod dataflow;
pub mod demos;
pub mod error;
pub mod float_bits;
pub mod fragments;
pub mod gates;
pub mod generation;
pub mod inspection;
pub mod launch;
pub mod layout;
pub mod messages;
pub mod model;
pub mod obstacle;
pub mod pipelines;
pub mod plan;
pub mod priority_safety;
pub mod ranking;
pub mod scaling;
pub mod search;
pub mod supervision;
pub mod tally;
pub mod text;
pub mod wire;

verus! {

} // verus!
