//! UCI protocol: command parsing, its errors and the engine's position state.

pub mod command;
pub mod engine;
pub mod error;
