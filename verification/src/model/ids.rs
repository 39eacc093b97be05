//! Identifiers of windows, spaces and workspaces.

use vstd::prelude::*;

verus! {

/// A window as the accessibility layer knows it: the owning process and a
/// per-process window number, which is never zero.
#[derive(Debug, Clone, Copy, PartialEq, Eq, Hash, Structural)]
pub struct WindowId {
    pub pid: i32,
    pub idx: u32,
}

impl WindowId {
    pub fn new(pid: i32, idx: u32) -> (id: Self)
        requires
            idx > 0,
        ensures
            id == (WindowId { pid, idx }),
    {
        WindowId { pid, idx }
    }
}

/// A window as the window server numbers it.
#[derive(Debug, Clone, Copy, PartialEq, Eq, Hash, Structural)]
pub struct WindowServerId {
    pub id: u32,
}

impl WindowServerId {
    pub fn new(id: u32) -> (result: Self)
        ensures
            result == (WindowServerId { id }),
    {
        WindowServerId { id }
    }

    pub fn as_u32(self) -> (id: u32)
        ensures
            id == self.id,
    {
        self.id
    }
}

/// A native space of the window server.
#[derive(Debug, Clone, Copy, PartialEq, Eq, Hash, Structural)]
pub struct SpaceId {
    pub id: u64,
}

/// A virtual workspace of the layout engine.
#[derive(Debug, Clone, Copy, PartialEq, Eq, Hash, Structural)]
pub struct VirtualWorkspaceId {
    pub id: u64,
}

/// The number under which maps keep a window.
pub open spec fn window_key(window: WindowId) -> int {
    (window.pid + 0x8000_0000) * 0x1_0000_0000 + window.idx
}

/// Different windows have different numbers.
pub proof fn lemma_window_key(left: WindowId, right: WindowId)
    ensures
        0 <= window_key(left) <= u64::MAX,
        window_key(left) == window_key(right) ==> left == right,
{
}

/// The number under which a window is kept.
pub fn window_number(window: WindowId) -> (key: u64)
    ensures
        key == window_key(window),
{
    ((window.pid as i64 + 0x8000_0000) as u64) * 0x1_0000_0000 + (window.idx as u64)
}

} // verus!
