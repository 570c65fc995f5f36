//! Encore's core rules: frame timelines, the replay lifecycle, bundle naming
//! and validation, the library index, hotkey registration, and the geometry
//! of the post-save preview.

pub mod text;
pub mod paths;
pub mod encoder;
pub mod capture;
pub mod retention;
pub mod packager;
pub mod replay;
pub mod hotkeys;
pub mod preview;
pub mod library;
pub mod json;
pub mod editor;
