//! Finds build-artifact directories of known project types and decides what
//! to report and what to remove. The filesystem work itself (walking,
//! existence checks, reading sizes, deleting) is done by the caller, which
//! hands the observations to the functions here.
use vstd::prelude::*;

pub mod path;
pub mod rule;
pub mod engine;
pub mod projects;
pub mod error;
pub mod size;
pub mod report;
pub mod cli;

verus! {

} // verus!
