//! Decisions of the actors.

pub mod border;
pub mod command_palette;
pub mod command_palette_laws;
pub mod commands;
pub mod debounce;
pub mod menu_bar;
pub mod reactor;
