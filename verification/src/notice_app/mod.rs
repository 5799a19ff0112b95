//! The notice-box application: its state, the pop-up stack and the text it shows.

pub mod state;
pub mod toast;
pub mod ui;
pub mod app;
