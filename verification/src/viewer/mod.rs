//! Rendering structured log entries as readable lines.

pub mod models;
pub mod lines;
pub mod render;

use vstd::prelude::*;

verus! {

} // verus!
