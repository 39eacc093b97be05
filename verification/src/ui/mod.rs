//! Decisions of the surfaces on the screen.

pub mod border;
pub mod border_laws;
pub mod border_surface;
pub mod command_palette;
