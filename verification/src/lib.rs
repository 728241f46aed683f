//! Temperature-controlled fan management for Mac Pro 2019 and similar machines.
pub mod config;
pub mod daemon;
pub mod error;
pub mod fan;
pub mod order;
pub mod path;
pub mod sensor;
pub mod text;
pub mod wizard;
