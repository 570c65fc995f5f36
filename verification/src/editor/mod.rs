//! The replay editor: its header, its clipboard hand-off and its exports.
pub mod header;
pub mod clipboard;
pub mod export;
