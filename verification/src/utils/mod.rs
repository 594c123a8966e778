//! Shared constants and small arithmetic helpers.

pub mod constants;
pub mod math;
pub mod settings;
