//! Decisions of the actor that owns the desktop state.

pub mod events;
pub mod projection;
pub mod state;
pub mod unmanaged_focus;
