//! A todo list with projects, an undo-able terminal interface, and helpers
//! for tmux and Hyprland integration.

pub mod text;
pub mod model;
pub mod error;
pub mod store;
pub mod hypr;
pub mod commands;
pub mod command_laws;
pub mod tmux;
pub mod cli;
pub mod tui;
