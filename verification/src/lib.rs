//! The verified core of the Rift window manager's presentation layer: the
//! command palette, the focused-window border, the menu bar and the committed
//! desktop snapshots from which they draw.
//!
//! Everything here is a decision on plain values. The surrounding program asks
//! the window server, the accessibility layer and AppKit, hands the answers in
//! and performs the actions that come out.

pub mod actor;
pub mod model;
pub mod ui;
