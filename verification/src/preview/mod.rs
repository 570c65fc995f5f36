//! The post-save preview: where it sits on screen, which replay it shows,
//! and what it says about that replay.
pub mod placement;
pub mod window;
pub mod payload;
