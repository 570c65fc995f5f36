//! Packaging leased segments into a published evidence bundle.
pub mod model;
pub mod runner;
pub mod files;
pub mod confine;
pub mod manifest;
pub mod publish;
pub mod package;
pub mod workspace;
