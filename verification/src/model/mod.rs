//! Data that the actors share, and the rules that live on it.

pub mod command_palette;
pub mod fuzzy;
pub mod geometry;
pub mod ids;
pub mod palette_entry;
pub mod palette_laws;
pub mod palette_mru;
pub mod palette_rank;
pub mod projection;
pub mod server;
pub mod text;
