//! Formatting helpers for the long listing.

pub mod human;
pub mod mode;
pub mod owner;
pub mod report;
pub mod time_fmt;
