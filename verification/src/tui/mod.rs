//! The interactive terminal interface: its state machine and the text
//! layout of its rows and panes.

pub mod app;
pub mod grouping;
pub mod layout;
pub mod laws;
pub mod wrap_laws;
