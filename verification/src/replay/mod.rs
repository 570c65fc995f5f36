//! The replay lifecycle: the snapshot the UI renders, and the state machine
//! behind "save the last minutes", its export, retry and reveal.
pub mod model;
pub mod state;

pub mod after_save_choice;
pub mod service;
