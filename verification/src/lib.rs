//! A colorls-compatible directory lister: the logic that decides what is
//! listed, in what order, and how each line is laid out and colored.

pub mod cli;
pub mod config;
pub mod fs;
pub mod git;
pub mod options;
pub mod path;
pub mod render;
pub mod term;
pub mod text;
pub mod util;

use vstd::prelude::*;

verus! {

/// The library's version.
pub const VERSION: &'static str = "0.2.0";

} // verus!
