//! Turning entries into terminal text.

pub mod cell;
pub mod width;
pub mod grid;
pub mod hyperlink;
pub mod long;
pub mod one_per_line;
pub mod tree;
