//! Displays, workspaces and windows, as presentation consumers see them.

use vstd::prelude::*;

#[allow(unused_imports)]
use crate::model::geometry;
use crate::model::geometry::Frame;
use crate::model::ids::{SpaceId, WindowId, WindowServerId};

verus! {

/// A window of a workspace.
#[derive(Debug, Clone)]
pub struct RuntimeWindowData {
    pub id: WindowId,
    pub title: String,
    pub frame: Frame,
    pub is_floating: bool,
    pub is_focused: bool,
    pub bundle_id: Option<String>,
    pub window_server_id: Option<WindowServerId>,
}

/// A virtual workspace of a space.
#[derive(Debug, Clone)]
pub struct RuntimeWorkspaceData {
    pub id: String,
    pub index: u64,
    pub name: String,
    pub layout_mode: String,
    pub is_active: bool,
    pub window_count: u64,
    pub windows: Vec<RuntimeWindowData>,
}

/// A display.
#[derive(Debug, Clone)]
pub struct RuntimeDisplayData {
    pub uuid: String,
    pub name: Option<String>,
    pub screen_id: u32,
    pub frame: Frame,
    pub space: Option<SpaceId>,
    pub is_active_context: bool,
}

/// Whether both are absent, or both are texts with the same characters.
pub open spec fn same_optional_text(left: Option<String>, right: Option<String>) -> bool {
    match (left, right) {
        (None, None) => true,
        (Some(a), Some(b)) => a@ == b@,
        _ => false,
    }
}

fn equal_optional_text(left: &Option<String>, right: &Option<String>) -> (result: bool)
    ensures
        result == same_optional_text(*left, *right),
{
    match (left, right) {
        (None, None) => true,
        (Some(a), Some(b)) => *a == *b,
        _ => false,
    }
}

fn equal_server_ids(left: Option<WindowServerId>, right: Option<WindowServerId>) -> (result: bool)
    ensures
        result == (left == right),
{
    match (left, right) {
        (None, None) => true,
        (Some(a), Some(b)) => a == b,
        _ => false,
    }
}

fn equal_spaces(left: Option<SpaceId>, right: Option<SpaceId>) -> (result: bool)
    ensures
        result == (left == right),
{
    match (left, right) {
        (None, None) => true,
        (Some(a), Some(b)) => a == b,
        _ => false,
    }
}

impl RuntimeWindowData {
    /// Whether both describe the same state of the same window.
    pub open spec fn same_as(self, other: RuntimeWindowData) -> bool {
        &&& self.id == other.id
        &&& self.title@ == other.title@
        &&& self.frame.same_as(other.frame)
        &&& self.is_floating == other.is_floating
        &&& self.is_focused == other.is_focused
        &&& same_optional_text(self.bundle_id, other.bundle_id)
        &&& self.window_server_id == other.window_server_id
    }

    pub fn same(&self, other: &RuntimeWindowData) -> (result: bool)
        ensures
            result == self.same_as(*other),
    {
        self.id == other.id && self.title == other.title && self.frame.same(other.frame)
            && self.is_floating == other.is_floating && self.is_focused == other.is_focused
            && equal_optional_text(&self.bundle_id, &other.bundle_id) && equal_server_ids(
            self.window_server_id,
            other.window_server_id,
        )
    }
}

/// Whether both lists describe the same windows in the same order.
pub open spec fn same_windows(left: Seq<RuntimeWindowData>, right: Seq<RuntimeWindowData>) -> bool {
    &&& left.len() == right.len()
    &&& forall|i: int| 0 <= i < left.len() ==> (#[trigger] left[i]).same_as(right[i])
}

pub fn equal_windows(left: &Vec<RuntimeWindowData>, right: &Vec<RuntimeWindowData>) -> (result:
    bool)
    ensures
        result == same_windows(left@, right@),
{
    if left.len() != right.len() {
        return false;
    }
    let mut i: usize = 0;
    while i < left.len()
        invariant
            i <= left@.len(),
            left@.len() == right@.len(),
            forall|j: int| 0 <= j < i ==> (#[trigger] left@[j]).same_as(right@[j]),
        decreases left@.len() - i,
    {
        if !left[i].same(&right[i]) {
            return false;
        }
        i = i + 1;
    }
    true
}

impl RuntimeWorkspaceData {
    /// Whether both describe the same state of the same workspace.
    pub open spec fn same_as(self, other: RuntimeWorkspaceData) -> bool {
        &&& self.id@ == other.id@
        &&& self.index == other.index
        &&& self.name@ == other.name@
        &&& self.layout_mode@ == other.layout_mode@
        &&& self.is_active == other.is_active
        &&& self.window_count == other.window_count
        &&& same_windows(self.windows@, other.windows@)
    }

    pub fn same(&self, other: &RuntimeWorkspaceData) -> (result: bool)
        ensures
            result == self.same_as(*other),
    {
        self.id == other.id && self.index == other.index && self.name == other.name
            && self.layout_mode == other.layout_mode && self.is_active == other.is_active
            && self.window_count == other.window_count && equal_windows(
            &self.windows,
            &other.windows,
        )
    }
}

/// Whether both lists describe the same workspaces in the same order.
pub open spec fn same_workspaces(
    left: Seq<RuntimeWorkspaceData>,
    right: Seq<RuntimeWorkspaceData>,
) -> bool {
    &&& left.len() == right.len()
    &&& forall|i: int| 0 <= i < left.len() ==> (#[trigger] left[i]).same_as(right[i])
}

pub fn equal_workspaces(left: &Vec<RuntimeWorkspaceData>, right: &Vec<RuntimeWorkspaceData>) -> (
    result: bool)
    ensures
        result == same_workspaces(left@, right@),
{
    if left.len() != right.len() {
        return false;
    }
    let mut i: usize = 0;
    while i < left.len()
        invariant
            i <= left@.len(),
            left@.len() == right@.len(),
            forall|j: int| 0 <= j < i ==> (#[trigger] left@[j]).same_as(right@[j]),
        decreases left@.len() - i,
    {
        if !left[i].same(&right[i]) {
            return false;
        }
        i = i + 1;
    }
    true
}

impl RuntimeDisplayData {
    /// Whether both describe the same state of the same display.
    pub open spec fn same_as(self, other: RuntimeDisplayData) -> bool {
        &&& self.uuid@ == other.uuid@
        &&& same_optional_text(self.name, other.name)
        &&& self.screen_id == other.screen_id
        &&& self.frame.same_as(other.frame)
        &&& self.space == other.space
        &&& self.is_active_context == other.is_active_context
    }

    pub fn same(&self, other: &RuntimeDisplayData) -> (result: bool)
        ensures
            result == self.same_as(*other),
    {
        self.uuid == other.uuid && equal_optional_text(&self.name, &other.name) && self.screen_id
            == other.screen_id && self.frame.same(other.frame) && equal_spaces(
            self.space,
            other.space,
        ) && self.is_active_context == other.is_active_context
    }
}

/// Whether both lists describe the same displays in the same order.
pub open spec fn same_displays(
    left: Seq<RuntimeDisplayData>,
    right: Seq<RuntimeDisplayData>,
) -> bool {
    &&& left.len() == right.len()
    &&& forall|i: int| 0 <= i < left.len() ==> (#[trigger] left[i]).same_as(right[i])
}

pub fn equal_displays(left: &Vec<RuntimeDisplayData>, right: &Vec<RuntimeDisplayData>) -> (result:
    bool)
    ensures
        result == same_displays(left@, right@),
{
    if left.len() != right.len() {
        return false;
    }
    let mut i: usize = 0;
    while i < left.len()
        invariant
            i <= left@.len(),
            left@.len() == right@.len(),
            forall|j: int| 0 <= j < i ==> (#[trigger] left@[j]).same_as(right@[j]),
        decreases left@.len() - i,
    {
        if !left[i].same(&right[i]) {
            return false;
        }
        i = i + 1;
    }
    true
}

/// Whether both tell the same of a window, field by field.
pub open spec fn is_one_window(left: RuntimeWindowData, right: RuntimeWindowData) -> bool {
    &&& left.id == right.id
    &&& left.title@ == right.title@
    &&& geometry::is_one_place(left.frame, right.frame)
    &&& left.is_floating == right.is_floating
    &&& left.is_focused == right.is_focused
    &&& left.bundle_id is Some <==> right.bundle_id is Some
    &&& left.bundle_id is Some ==> left.bundle_id->0@ == right.bundle_id->0@
    &&& left.window_server_id == right.window_server_id
}

pub open spec fn are_one_window(
    left: Seq<RuntimeWindowData>,
    right: Seq<RuntimeWindowData>,
) -> bool {
    &&& left.len() == right.len()
    &&& forall|i: int| 0 <= i < left.len() ==> is_one_window(#[trigger] left[i], right[i])
}

/// Whether both tell the same of a workspace, field by field.
pub open spec fn is_one_workspace(left: RuntimeWorkspaceData, right: RuntimeWorkspaceData) -> bool {
    &&& left.id@ == right.id@
    &&& left.index == right.index
    &&& left.name@ == right.name@
    &&& left.layout_mode@ == right.layout_mode@
    &&& left.is_active == right.is_active
    &&& left.window_count == right.window_count
    &&& are_one_window(left.windows@, right.windows@)
}

/// Whether both tell the same of a display, field by field.
pub open spec fn is_one_display(left: RuntimeDisplayData, right: RuntimeDisplayData) -> bool {
    &&& left.uuid@ == right.uuid@
    &&& left.name is Some <==> right.name is Some
    &&& left.name is Some ==> left.name->0@ == right.name->0@
    &&& left.screen_id == right.screen_id
    &&& geometry::is_one_place(left.frame, right.frame)
    &&& left.space == right.space
    &&& left.is_active_context == right.is_active_context
}

/// Windows are the same exactly if every field is, the coordinates as numbers.
pub proof fn law_windows_by_their_fields(left: RuntimeWindowData, right: RuntimeWindowData)
    ensures
        left.same_as(right) <==> is_one_window(left, right) && left.frame.is_numeric()
            && right.frame.is_numeric(),
{
    geometry::law_frames_by_their_coordinates(left.frame, right.frame);
}

/// Lists of windows are the same exactly if they are window by window.
pub proof fn law_window_lists_by_their_windows(
    left: Seq<RuntimeWindowData>,
    right: Seq<RuntimeWindowData>,
)
    ensures
        same_windows(left, right) <==> are_one_window(left, right) && (forall|i: int|
            0 <= i < left.len() ==> (#[trigger] left[i]).frame.is_numeric()) && (forall|i: int|
            0 <= i < right.len() ==> (#[trigger] right[i]).frame.is_numeric()),
{
    if left.len() == right.len() {
        assert forall|i: int| 0 <= i < left.len() implies ((#[trigger] left[i]).same_as(right[i])
            <==> is_one_window(left[i], right[i]) && left[i].frame.is_numeric()
            && right[i].frame.is_numeric()) by {
            law_windows_by_their_fields(left[i], right[i]);
        }
        if same_windows(left, right) {
            assert forall|i: int| 0 <= i < right.len() implies (
            #[trigger] right[i]).frame.is_numeric() by {
                assert(left[i].same_as(right[i]));
            }
        }
        if are_one_window(left, right) && (forall|i: int|
            0 <= i < left.len() ==> (#[trigger] left[i]).frame.is_numeric()) && (forall|i: int|
            0 <= i < right.len() ==> (#[trigger] right[i]).frame.is_numeric()) {
            assert forall|i: int| 0 <= i < left.len() implies (#[trigger] left[i]).same_as(
                right[i],
            ) by {
                assert(right[i].frame.is_numeric());
            }
        }
    }
}

/// Workspaces are the same exactly if every field is.
pub proof fn law_workspaces_by_their_fields(
    left: RuntimeWorkspaceData,
    right: RuntimeWorkspaceData,
)
    ensures
        left.same_as(right) <==> is_one_workspace(left, right) && (forall|i: int|
            0 <= i < left.windows@.len() ==> (#[trigger] left.windows@[i]).frame.is_numeric()) && (
        forall|i: int|
            0 <= i < right.windows@.len() ==> (#[trigger] right.windows@[i]).frame.is_numeric()),
{
    law_window_lists_by_their_windows(left.windows@, right.windows@);
}

/// Displays are the same exactly if every field is, the coordinates as numbers.
pub proof fn law_displays_by_their_fields(left: RuntimeDisplayData, right: RuntimeDisplayData)
    ensures
        left.same_as(right) <==> is_one_display(left, right) && left.frame.is_numeric()
            && right.frame.is_numeric(),
{
    geometry::law_frames_by_their_coordinates(left.frame, right.frame);
}

} // verus!
