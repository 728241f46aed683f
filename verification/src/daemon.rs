//! The daemon: how it starts and ends, and how it follows the temperatures in between.
pub mod cycle;
pub mod lifecycle;
pub mod listing;
pub mod temps;

pub use temps::{aggregate_temps, TempBuffer};
