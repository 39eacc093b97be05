//! How events change the desktop state.

pub mod native_tab;
pub mod outcome;
