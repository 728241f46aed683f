//! The fans of the machine.
pub mod controller;
pub mod discovery;

pub use controller::FanController;
