//! Directory entries: their model, filtering and ordering.

pub mod entry;
pub mod sort;
