//! Argument classification and manifest resolution for a Cargo project launcher.

pub mod artifact;
pub mod cli;
pub mod constants;
pub mod helpers;
pub mod manifest;
pub mod text;
