//! The border round the focused window.
//!
//! A border lives in a surface of the WindowServer. What is done with the
//! surface is decided here, one operation at a time: a [`SurfaceRun`] says which
//! operation comes next and is told how it went.

use vstd::prelude::*;

use crate::model::geometry::{Coord, Frame, Point, Size};
use crate::model::ids::{SpaceId, WindowServerId};
use crate::model::projection::BorderTarget;

verus! {

/// How borders are configured.
#[derive(Debug, Clone, Copy)]
pub struct BorderSettings {
    pub enabled: bool,
    pub width: Coord,
    /// Alpha, red, green and blue, eight bits each from the top.
    pub color: u32,
    pub corner_radius: Coord,
    pub hidpi: bool,
}

/// How a border looks.
#[derive(Debug, Clone, Copy)]
pub struct BorderStyle {
    pub width: Coord,
    pub color: u32,
    pub corner_radius: Coord,
    pub hidpi: bool,
}

impl From<BorderSettings> for BorderStyle {
    fn from(settings: BorderSettings) -> (style: Self) {
        BorderStyle {
            width: settings.width,
            color: settings.color,
            corner_radius: settings.corner_radius,
            hidpi: settings.hidpi,
        }
    }
}

impl vstd::std_specs::convert::FromSpecImpl<BorderSettings> for BorderStyle {
    open spec fn obeys_from_spec() -> bool {
        true
    }

    open spec fn from_spec(settings: BorderSettings) -> Self {
        style_of(settings)
    }
}

/// The look that the settings ask for.
pub open spec fn style_of(settings: BorderSettings) -> BorderStyle {
    BorderStyle {
        width: settings.width,
        color: settings.color,
        corner_radius: settings.corner_radius,
        hidpi: settings.hidpi,
    }
}

impl BorderStyle {
    /// Pixels per point.
    pub open spec fn pixels(self) -> u32 {
        if self.hidpi {
            2
        } else {
            1
        }
    }

    pub fn resolution(self) -> (resolution: u32)
        ensures
            resolution == self.pixels(),
    {
        if self.hidpi {
            2
        } else {
            1
        }
    }

    pub open spec fn same_as(self, other: BorderStyle) -> bool {
        &&& self.width.same_as(other.width)
        &&& self.color == other.color
        &&& self.corner_radius.same_as(other.corner_radius)
        &&& self.hidpi == other.hidpi
    }

    pub fn same(self, other: BorderStyle) -> (result: bool)
        ensures
            result == self.same_as(other),
    {
        self.width.same(other.width) && self.color == other.color && self.corner_radius.same(
            other.corner_radius,
        ) && self.hidpi == other.hidpi
    }
}

/// Whether red, green, blue and alpha make the color, in which alpha comes first.
pub open spec fn is_color_of(color: u32, channels: (u8, u8, u8, u8)) -> bool {
    color == channels.3 * 0x100_0000 + channels.0 * 0x1_0000 + channels.1 * 0x100 + channels.2
}

/// The red, green, blue and alpha channels of a color in which alpha comes
/// first.
pub fn argb_components(color: u32) -> (channels: (u8, u8, u8, u8))
    ensures
        is_color_of(color, channels),
{
    let alpha: u32 = color / 0x100_0000;
    let red: u32 = color / 0x1_0000 % 0x100;
    let green: u32 = color / 0x100 % 0x100;
    let blue: u32 = color % 0x100;
    (red as u8, green as u8, blue as u8, alpha as u8)
}

/// What the WindowServer is told of a window's part in events and ordering.
#[derive(Debug, Clone, Copy, PartialEq, Eq, Structural)]
pub struct SLSWindowTags {
    pub floating: bool,
    pub ignore_for_events: bool,
    pub opaque_for_events: bool,
}

impl SLSWindowTags {
    pub open spec fn holds(self, other: SLSWindowTags) -> bool {
        &&& other.floating ==> self.floating
        &&& other.ignore_for_events ==> self.ignore_for_events
        &&& other.opaque_for_events ==> self.opaque_for_events
    }

    /// Whether every tag of `other` is set.
    pub fn contains(self, other: SLSWindowTags) -> (result: bool)
        ensures
            result == self.holds(other),
    {
        (self.floating || !other.floating) && (self.ignore_for_events || !other.ignore_for_events)
            && (self.opaque_for_events || !other.opaque_for_events)
    }

    /// The window stays above ordinary ones.
    pub fn floating() -> (tags: SLSWindowTags)
        ensures
            tags == (SLSWindowTags {
                floating: true,
                ignore_for_events: false,
                opaque_for_events: false,
            }),
    {
        SLSWindowTags { floating: true, ignore_for_events: false, opaque_for_events: false }
    }

    /// Pointer events pass through the window.
    pub fn ignore_for_events() -> (tags: SLSWindowTags)
        ensures
            tags == (SLSWindowTags {
                floating: false,
                ignore_for_events: true,
                opaque_for_events: false,
            }),
    {
        SLSWindowTags { floating: false, ignore_for_events: true, opaque_for_events: false }
    }

    /// The window takes the pointer events of its whole shape.
    pub fn opaque_for_events() -> (tags: SLSWindowTags)
        ensures
            tags == (SLSWindowTags {
                floating: false,
                ignore_for_events: false,
                opaque_for_events: true,
            }),
    {
        SLSWindowTags { floating: false, ignore_for_events: false, opaque_for_events: true }
    }

    /// Whether pointer events reach what is under the window.
    pub open spec fn passes_events(self) -> bool {
        self.ignore_for_events && !self.opaque_for_events
    }
}

/// The tags of a border's surface.
pub open spec fn overlay_tags() -> SLSWindowTags {
    SLSWindowTags { floating: true, ignore_for_events: true, opaque_for_events: false }
}

/// The tags that a border's surface must not have.
pub open spec fn forbidden_tags() -> SLSWindowTags {
    SLSWindowTags { floating: false, ignore_for_events: false, opaque_for_events: true }
}

pub fn border_window_tags() -> (tags: SLSWindowTags)
    ensures
        tags == overlay_tags(),
{
    SLSWindowTags { floating: true, ignore_for_events: true, opaque_for_events: false }
}

/// Why a surface could not be brought into the state that was wanted.
#[derive(Debug, Clone, Copy, PartialEq, Eq, Structural)]
pub enum CgsWindowError {
    /// A call failed, with the WindowServer's code.
    Call(i32),
    /// The level of the window that the border belongs to could not be had.
    Level(i32),
    /// The surface would still take pointer events.
    PointerEvents,
}

/// The code of [`CgsWindowError::Level`] where the WindowServer gave none.
pub const LEVEL_UNKNOWN: i32 = 1000;

/// What the target's level is asked for.
#[derive(Debug, Clone, Copy)]
pub enum Placement {
    /// To move the surface to a place and order it above the target.
    At(Point),
    /// To order the surface above the target.
    Above,
}

/// One operation on a border's surface, or one question to the WindowServer.
#[derive(Debug, Clone, Copy)]
pub enum SurfaceOp {
    ConfigureLayer { size: Size, style: BorderStyle },
    CreateOverlay(Frame),
    SetOpacity(bool),
    DisableShadow,
    /// Makes the surface fully opaque, or fully transparent.
    SetVisible(bool),
    SetResolution(u32),
    /// Gives the surface the shape of the ring that the frame and the style
    /// make.
    SetShape { frame: Frame, style: BorderStyle },
    MoveToSpace(SpaceId),
    CreateContext,
    Redraw(Size),
    QueryLevel { target: WindowServerId, placement: Placement },
    QuerySubLevel { target: WindowServerId, placement: Placement, level: i32 },
    /// Moves the surface, gives it a level and orders it above the target, in
    /// one transaction.
    SyncAbove { target: WindowServerId, origin: Point, level: i32, sub_level: i32 },
    SyncOrderAbove { target: WindowServerId, level: i32, sub_level: i32 },
    SetTags(SLSWindowTags),
    ClearTags(SLSWindowTags),
    QueryTags,
    AddToMovementGroup(WindowServerId),
    AddToOrderingGroup(WindowServerId),
    DisableUpdates,
    Freeze,
    Thaw,
    ReenableUpdates,
    MoveTo(Point),
    /// Whether the surface is within one point of where it should be.
    QueryTracking(Point),
}

/// How an operation went, or what the answer to a question is.
#[derive(Debug, Clone, Copy)]
pub enum Outcome {
    Done,
    Failed(CgsWindowError),
    Level(Option<i64>),
    SubLevel(i32),
    Tags(Option<SLSWindowTags>),
    Tracks(bool),
}

/// A border and the surface in which it is drawn.
#[derive(Debug, Clone, Copy)]
pub struct FocusBorderWindow {
    /// The window that the border belongs to.
    pub target: WindowServerId,
    pub frame: Frame,
    pub style: BorderStyle,
    pub space: SpaceId,
    /// Whether the WindowServer moves the surface with its target.
    pub movement_grouped: bool,
    /// Whether it was seen to do so on the present space.
    pub movement_tracking_verified: bool,
    /// Whether the WindowServer keeps the surface above its target.
    pub ordering_grouped: bool,
}

/// What remains to be done with a surface.
#[derive(Debug)]
pub struct SurfaceRun {
    /// The border as it is once all is done.
    pub window: FocusBorderWindow,
    pub steps: Vec<SurfaceOp>,
    /// Whether the connection's updates are disabled.
    pub locked: bool,
    pub failure: Option<CgsWindowError>,
}

/// A run as mathematics.
#[verifier::ext_equal]
pub struct RunView {
    pub window: FocusBorderWindow,
    pub steps: Seq<SurfaceOp>,
    pub locked: bool,
    pub failure: Option<CgsWindowError>,
}

impl View for SurfaceRun {
    type V = RunView;

    open spec fn view(&self) -> RunView {
        RunView {
            window: self.window,
            steps: self.steps@,
            locked: self.locked,
            failure: self.failure,
        }
    }
}

/// The operations that put the surface above its target and make it let pointer
/// events through.
pub open spec fn placement_steps(target: WindowServerId, placement: Placement) -> Seq<SurfaceOp> {
    seq![
        SurfaceOp::QueryLevel { target, placement },
        SurfaceOp::SetTags(overlay_tags()),
        SurfaceOp::ClearTags(forbidden_tags()),
        SurfaceOp::QueryTags,
    ]
}

/// The operations that make a new surface: it is hidden until it is drawn, in
/// its place and lets pointer events through.
pub open spec fn creation_steps(target: BorderTarget, frame: Frame, style: BorderStyle) -> Seq<
    SurfaceOp,
> {
    seq![
        SurfaceOp::ConfigureLayer { size: frame.size, style },
        SurfaceOp::CreateOverlay(frame),
        SurfaceOp::SetOpacity(false),
        SurfaceOp::DisableShadow,
        SurfaceOp::SetVisible(false),
        SurfaceOp::SetResolution(style.pixels()),
        SurfaceOp::SetShape { frame, style },
        SurfaceOp::MoveToSpace(target.space),
        SurfaceOp::CreateContext,
        SurfaceOp::Redraw(frame.size),
    ] + placement_steps(target.window_server_id, Placement::At(frame.origin)) + seq![
        SurfaceOp::AddToMovementGroup(target.window_server_id),
        SurfaceOp::AddToOrderingGroup(target.window_server_id),
    ] + placement_steps(target.window_server_id, Placement::Above) + seq![
        SurfaceOp::SetVisible(true),
    ]
}

/// What differs between a border and the one that is wanted in its place.
pub struct Difference {
    pub space: bool,
    pub size: bool,
    pub origin: bool,
    pub style: bool,
    pub resolution: bool,
    pub shape: bool,
}

impl FocusBorderWindow {
    /// A border that belongs to no group yet.
    pub open spec fn created(
        target: BorderTarget,
        frame: Frame,
        style: BorderStyle,
    ) -> FocusBorderWindow {
        FocusBorderWindow {
            target: target.window_server_id,
            frame,
            style,
            space: target.space,
            movement_grouped: false,
            movement_tracking_verified: false,
            ordering_grouped: false,
        }
    }

    pub open spec fn difference(
        self,
        target: BorderTarget,
        frame: Frame,
        style: BorderStyle,
    ) -> Difference {
        let size = !self.frame.size.same_as(frame.size);
        let resolution = self.style.hidpi != style.hidpi;
        Difference {
            space: self.space != target.space,
            size,
            origin: !self.frame.origin.same_as(frame.origin),
            style: !self.style.same_as(style),
            resolution,
            shape: size || !self.style.width.same_as(style.width)
                || !self.style.corner_radius.same_as(style.corner_radius) || resolution,
        }
    }

    /// The border after an update: the space and whatever changed are taken
    /// over, and on another space movement has to be seen again.
    pub open spec fn updated(
        self,
        target: BorderTarget,
        frame: Frame,
        style: BorderStyle,
    ) -> FocusBorderWindow {
        let changed = self.difference(target, frame, style);
        FocusBorderWindow {
            target: self.target,
            frame: if changed.size || changed.style {
                frame
            } else if changed.origin {
                Frame { origin: frame.origin, size: self.frame.size }
            } else {
                self.frame
            },
            style: if changed.size || changed.style {
                style
            } else {
                self.style
            },
            space: target.space,
            movement_grouped: self.movement_grouped,
            movement_tracking_verified: self.movement_tracking_verified && !changed.space,
            ordering_grouped: self.ordering_grouped,
        }
    }

    /// The operations that reshape and redraw the surface while it is hidden,
    /// frozen and the connection's updates are disabled.
    pub open spec fn redraw_steps(
        self,
        target: BorderTarget,
        frame: Frame,
        style: BorderStyle,
    ) -> Seq<SurfaceOp> {
        let changed = self.difference(target, frame, style);
        seq![SurfaceOp::SetVisible(false), SurfaceOp::DisableUpdates, SurfaceOp::Freeze] + (
        if changed.shape {
            seq![SurfaceOp::SetShape { frame, style }]
        } else if changed.origin && !self.movement_grouped {
            seq![SurfaceOp::MoveTo(frame.origin)]
        } else {
            Seq::empty()
        }) + (if changed.resolution {
            seq![SurfaceOp::SetResolution(style.pixels()), SurfaceOp::CreateContext]
        } else {
            Seq::empty()
        }) + seq![
            SurfaceOp::ConfigureLayer { size: frame.size, style },
            SurfaceOp::Redraw(frame.size),
            SurfaceOp::Thaw,
            SurfaceOp::ReenableUpdates,
            SurfaceOp::SetVisible(true),
        ] + placement_steps(self.target, Placement::Above)
    }

    /// The operations that move the surface, if the WindowServer does not.
    pub open spec fn move_steps(self, target: BorderTarget, origin: Point) -> Seq<SurfaceOp> {
        if !self.movement_grouped {
            seq![SurfaceOp::MoveTo(origin)]
        } else if !self.movement_tracking_verified || self.space != target.space {
            seq![SurfaceOp::QueryTracking(origin)]
        } else {
            Seq::empty()
        }
    }

    pub open spec fn update_steps(
        self,
        target: BorderTarget,
        frame: Frame,
        style: BorderStyle,
    ) -> Seq<SurfaceOp> {
        let changed = self.difference(target, frame, style);
        (if changed.space {
            seq![SurfaceOp::MoveToSpace(target.space)]
        } else {
            Seq::empty()
        }) + (if changed.size || changed.style {
            self.redraw_steps(target, frame, style)
        } else if changed.origin {
            self.move_steps(target, frame.origin)
        } else {
            Seq::empty()
        })
    }
}

impl FocusBorderWindow {
    /// The run that makes a border.
    pub open spec fn creation_run(target: BorderTarget, frame: Frame, style: BorderStyle) -> RunView {
        RunView {
            window: FocusBorderWindow::created(target, frame, style),
            steps: creation_steps(target, frame, style),
            locked: false,
            failure: None,
        }
    }

    /// The run that updates the border.
    pub open spec fn update_run(
        self,
        target: BorderTarget,
        frame: Frame,
        style: BorderStyle,
    ) -> RunView {
        RunView {
            window: self.updated(target, frame, style),
            steps: self.update_steps(target, frame, style),
            locked: false,
            failure: None,
        }
    }

    /// The run that orders the border above its target again.
    pub open spec fn order_run(self) -> RunView {
        RunView {
            window: self,
            steps: placement_steps(self.target, Placement::Above),
            locked: false,
            failure: None,
        }
    }
}

impl RunView {
    /// What is to be done next.
    pub open spec fn next_op(self) -> Option<SurfaceOp> {
        if self.steps.len() == 0 {
            None
        } else {
            Some(self.steps[0])
        }
    }

    /// The border, or why there is none.
    pub open spec fn result(self) -> Result<FocusBorderWindow, CgsWindowError> {
        match self.failure {
            None => Ok(self.window),
            Some(error) => Err(error),
        }
    }

    /// The run after a failure. If updates are disabled, they are enabled again
    /// in any case.
    pub open spec fn failed(self, error: CgsWindowError) -> RunView {
        RunView {
            failure: Some(error),
            steps: if self.locked {
                seq![SurfaceOp::Thaw, SurfaceOp::ReenableUpdates]
            } else {
                Seq::empty()
            },
            ..self
        }
    }

    /// The run with one more operation to do first.
    pub open spec fn preceded_by(self, op: SurfaceOp) -> RunView {
        RunView { steps: seq![op] + self.steps, ..self }
    }

    /// The run without its first operation, which had the outcome.
    pub open spec fn performed(self, outcome: Outcome) -> RunView {
        RunView {
            steps: self.steps.drop_first(),
            locked: match self.steps[0] {
                SurfaceOp::DisableUpdates => !(outcome is Failed),
                SurfaceOp::ReenableUpdates => false,
                _ => self.locked,
            },
            ..self
        }
    }

    /// The run after its first operation had the outcome. Once something has
    /// failed, outcomes are no longer looked at. The space, the layer and the
    /// two groups cannot fail a run; an unanswered question for the level does,
    /// and so does a surface that would take pointer events.
    pub open spec fn advanced(self, outcome: Outcome) -> RunView {
        let rest = self.performed(outcome);
        if self.steps.len() == 0 {
            self
        } else if self.failure is Some {
            rest
        } else {
            match self.steps[0] {
                SurfaceOp::MoveToSpace(_) => rest,
                SurfaceOp::ConfigureLayer { .. } => rest,
                SurfaceOp::AddToMovementGroup(_) => RunView {
                    window: FocusBorderWindow {
                        movement_grouped: !(outcome is Failed),
                        ..self.window
                    },
                    ..rest
                },
                SurfaceOp::AddToOrderingGroup(_) => RunView {
                    window: FocusBorderWindow {
                        ordering_grouped: !(outcome is Failed),
                        ..self.window
                    },
                    ..rest
                },
                SurfaceOp::QueryTracking(origin) => if outcome == Outcome::Tracks(true) {
                    RunView {
                        window: FocusBorderWindow {
                            movement_tracking_verified: true,
                            ..self.window
                        },
                        ..rest
                    }
                } else {
                    RunView {
                        window: FocusBorderWindow { movement_grouped: false, ..self.window },
                        ..rest.preceded_by(SurfaceOp::MoveTo(origin))
                    }
                },
                SurfaceOp::QueryLevel { target, placement } => match outcome {
                    Outcome::Level(Some(level)) if i32::MIN <= level <= i32::MAX => {
                        rest.preceded_by(
                            SurfaceOp::QuerySubLevel { target, placement, level: level as i32 },
                        )
                    },
                    Outcome::Failed(error) => rest.failed(error),
                    _ => rest.failed(CgsWindowError::Level(LEVEL_UNKNOWN)),
                },
                SurfaceOp::QuerySubLevel { target, placement, level } => match outcome {
                    Outcome::SubLevel(sub_level) => rest.preceded_by(
                        sync_op(target, placement, level, sub_level),
                    ),
                    Outcome::Failed(error) => rest.failed(error),
                    _ => rest.failed(CgsWindowError::Level(LEVEL_UNKNOWN)),
                },
                SurfaceOp::QueryTags => match outcome {
                    Outcome::Tags(Some(tags)) if !tags.passes_events() => rest.failed(
                        CgsWindowError::PointerEvents,
                    ),
                    _ => rest,
                },
                _ => match outcome {
                    Outcome::Failed(error) => rest.failed(error),
                    _ => rest,
                },
            }
        }
    }
}

/// The operation that gives the surface its level and its order.
pub open spec fn sync_op(
    target: WindowServerId,
    placement: Placement,
    level: i32,
    sub_level: i32,
) -> SurfaceOp {
    match placement {
        Placement::At(origin) => SurfaceOp::SyncAbove { target, origin, level, sub_level },
        Placement::Above => SurfaceOp::SyncOrderAbove { target, level, sub_level },
    }
}

fn push_placement_steps(
    steps: &mut Vec<SurfaceOp>,
    target: WindowServerId,
    placement: Placement,
)
    ensures
        final(steps)@ == old(steps)@ + placement_steps(target, placement),
{
    steps.push(SurfaceOp::QueryLevel { target, placement });
    steps.push(SurfaceOp::SetTags(border_window_tags()));
    steps.push(SurfaceOp::ClearTags(SLSWindowTags::opaque_for_events()));
    steps.push(SurfaceOp::QueryTags);
    assert(steps@ =~= old(steps)@ + placement_steps(target, placement));
}

impl FocusBorderWindow {
    /// Makes a border round the target. `frame` is the target's frame, grown by
    /// the border's width on each side.
    pub fn new(target: BorderTarget, frame: Frame, style: BorderStyle) -> (run: SurfaceRun)
        ensures
            run@ == FocusBorderWindow::creation_run(target, frame, style),
    {
        let owner: WindowServerId = target.window_server_id;
        let mut steps: Vec<SurfaceOp> = Vec::new();
        steps.push(SurfaceOp::ConfigureLayer { size: frame.size, style });
        steps.push(SurfaceOp::CreateOverlay(frame));
        steps.push(SurfaceOp::SetOpacity(false));
        steps.push(SurfaceOp::DisableShadow);
        steps.push(SurfaceOp::SetVisible(false));
        steps.push(SurfaceOp::SetResolution(style.resolution()));
        steps.push(SurfaceOp::SetShape { frame, style });
        steps.push(SurfaceOp::MoveToSpace(target.space));
        steps.push(SurfaceOp::CreateContext);
        steps.push(SurfaceOp::Redraw(frame.size));
        push_placement_steps(&mut steps, owner, Placement::At(frame.origin));
        steps.push(SurfaceOp::AddToMovementGroup(owner));
        steps.push(SurfaceOp::AddToOrderingGroup(owner));
        push_placement_steps(&mut steps, owner, Placement::Above);
        steps.push(SurfaceOp::SetVisible(true));
        assert(steps@ =~= creation_steps(target, frame, style));
        SurfaceRun {
            window: FocusBorderWindow {
                target: owner,
                frame,
                style,
                space: target.space,
                movement_grouped: false,
                movement_tracking_verified: false,
                ordering_grouped: false,
            },
            steps,
            locked: false,
            failure: None,
        }
    }

    /// Brings the border to its target's new frame, space or style.
    pub fn update(&self, target: BorderTarget, frame: Frame, style: BorderStyle) -> (run: SurfaceRun)
        requires
            self.target == target.window_server_id,
        ensures
            run@ == self.update_run(target, frame, style),
    {
        let size_changed: bool = !self.frame.size.same(frame.size);
        let origin_changed: bool = !self.frame.origin.same(frame.origin);
        let style_changed: bool = !self.style.same(style);
        let resolution_changed: bool = self.style.hidpi != style.hidpi;
        let shape_changed: bool = size_changed || !self.style.width.same(style.width)
            || !self.style.corner_radius.same(style.corner_radius) || resolution_changed;

        let mut window: FocusBorderWindow = *self;
        let mut steps: Vec<SurfaceOp> = Vec::new();
        if window.space != target.space {
            steps.push(SurfaceOp::MoveToSpace(target.space));
            window.space = target.space;
            window.movement_tracking_verified = false;
        }
        let ghost prefix = steps@;
        if size_changed || style_changed {
            steps.push(SurfaceOp::SetVisible(false));
            steps.push(SurfaceOp::DisableUpdates);
            steps.push(SurfaceOp::Freeze);
            if shape_changed {
                steps.push(SurfaceOp::SetShape { frame, style });
            } else if origin_changed && !window.movement_grouped {
                steps.push(SurfaceOp::MoveTo(frame.origin));
            }
            window.frame = frame;
            if resolution_changed {
                steps.push(SurfaceOp::SetResolution(style.resolution()));
                steps.push(SurfaceOp::CreateContext);
            }
            window.style = style;
            steps.push(SurfaceOp::ConfigureLayer { size: frame.size, style });
            steps.push(SurfaceOp::Redraw(frame.size));
            steps.push(SurfaceOp::Thaw);
            steps.push(SurfaceOp::ReenableUpdates);
            steps.push(SurfaceOp::SetVisible(true));
            push_placement_steps(&mut steps, self.target, Placement::Above);
            assert(steps@ =~= prefix + self.redraw_steps(target, frame, style));
        } else if origin_changed {
            window.frame.origin = frame.origin;
            if !window.movement_grouped {
                steps.push(SurfaceOp::MoveTo(frame.origin));
            } else if !window.movement_tracking_verified {
                steps.push(SurfaceOp::QueryTracking(frame.origin));
            }
            assert(steps@ =~= prefix + self.move_steps(target, frame.origin));
        }
        assert(steps@ =~= self.update_steps(target, frame, style));
        SurfaceRun { window, steps, locked: false, failure: None }
    }

    /// Orders the border above its target again.
    pub fn sync_order(&self) -> (run: SurfaceRun)
        ensures
            run@ == self.order_run(),
    {
        let mut steps: Vec<SurfaceOp> = Vec::new();
        push_placement_steps(&mut steps, self.target, Placement::Above);
        assert(steps@ =~= placement_steps(self.target, Placement::Above));
        SurfaceRun { window: *self, steps, locked: false, failure: None }
    }

    /// Whether this is the border of the target.
    pub fn targets(&self, target: BorderTarget) -> (result: bool)
        ensures
            result == (self.target == target.window_server_id),
    {
        self.target == target.window_server_id
    }

    /// Whether a change in the window's order needs the border to be ordered
    /// again.
    pub fn should_resync_order_for(&self, window: WindowServerId) -> (result: bool)
        ensures
            result == (!self.ordering_grouped && self.target == window),
    {
        !self.ordering_grouped && self.target == window
    }
}

impl SurfaceRun {
    /// What is to be done next.
    pub fn next(&self) -> (op: Option<SurfaceOp>)
        ensures
            op == self@.next_op(),
    {
        if self.steps.len() == 0 {
            None
        } else {
            Some(self.steps[0])
        }
    }

    fn fail(&mut self, error: CgsWindowError)
        ensures
            final(self)@ == old(self)@.failed(error),
    {
        self.failure = Some(error);
        let mut steps: Vec<SurfaceOp> = Vec::new();
        if self.locked {
            steps.push(SurfaceOp::Thaw);
            steps.push(SurfaceOp::ReenableUpdates);
        }
        self.steps = steps;
        assert(self@ =~= old(self)@.failed(error));
    }

    fn do_first(&mut self, op: SurfaceOp)
        ensures
            final(self)@ == old(self)@.preceded_by(op),
    {
        self.steps.insert(0, op);
        assert(self@ =~= old(self)@.preceded_by(op));
    }

    fn check(&mut self, outcome: Outcome)
        ensures
            final(self)@ == match outcome {
                Outcome::Failed(error) => old(self)@.failed(error),
                _ => old(self)@,
            },
    {
        match outcome {
            Outcome::Failed(error) => {
                self.fail(error);
            },
            _ => {},
        }
    }

    /// Takes in how the next operation went.
    pub fn advance(&mut self, outcome: Outcome)
        ensures
            final(self)@ == old(self)@.advanced(outcome),
    {
        if self.steps.len() == 0 {
            return ;
        }
        let op: SurfaceOp = self.steps.remove(0);
        assert(self.steps@ =~= old(self)@.steps.drop_first());
        let succeeded: bool = match outcome {
            Outcome::Failed(_) => false,
            _ => true,
        };
        match op {
            SurfaceOp::DisableUpdates => {
                self.locked = succeeded;
            },
            SurfaceOp::ReenableUpdates => {
                self.locked = false;
            },
            _ => {},
        }
        assert(self@ =~= old(self)@.performed(outcome));
        if self.failure.is_some() {
            return ;
        }
        match op {
            SurfaceOp::MoveToSpace(_) => {},
            SurfaceOp::ConfigureLayer { .. } => {},
            SurfaceOp::AddToMovementGroup(_) => {
                self.window.movement_grouped = succeeded;
            },
            SurfaceOp::AddToOrderingGroup(_) => {
                self.window.ordering_grouped = succeeded;
            },
            SurfaceOp::QueryTracking(origin) => {
                match outcome {
                    Outcome::Tracks(true) => {
                        self.window.movement_tracking_verified = true;
                    },
                    _ => {
                        self.window.movement_grouped = false;
                        self.do_first(SurfaceOp::MoveTo(origin));
                    },
                }
            },
            SurfaceOp::QueryLevel { target, placement } => {
                match outcome {
                    Outcome::Level(Some(level)) => {
                        if (i32::MIN as i64) <= level && level <= (i32::MAX as i64) {
                            self.do_first(
                                SurfaceOp::QuerySubLevel { target, placement, level: level as i32 },
                            );
                        } else {
                            self.fail(CgsWindowError::Level(LEVEL_UNKNOWN));
                        }
                    },
                    Outcome::Failed(error) => {
                        self.fail(error);
                    },
                    _ => {
                        self.fail(CgsWindowError::Level(LEVEL_UNKNOWN));
                    },
                }
            },
            SurfaceOp::QuerySubLevel { target, placement, level } => {
                match outcome {
                    Outcome::SubLevel(sub_level) => {
                        match placement {
                            Placement::At(origin) => {
                                self.do_first(
                                    SurfaceOp::SyncAbove { target, origin, level, sub_level },
                                );
                            },
                            Placement::Above => {
                                self.do_first(
                                    SurfaceOp::SyncOrderAbove { target, level, sub_level },
                                );
                            },
                        }
                    },
                    Outcome::Failed(error) => {
                        self.fail(error);
                    },
                    _ => {
                        self.fail(CgsWindowError::Level(LEVEL_UNKNOWN));
                    },
                }
            },
            SurfaceOp::QueryTags => {
                match outcome {
                    Outcome::Tags(Some(tags)) => {
                        let passes: bool = tags.contains(SLSWindowTags::ignore_for_events())
                            && !tags.contains(SLSWindowTags::opaque_for_events());
                        if !passes {
                            self.fail(CgsWindowError::PointerEvents);
                        }
                    },
                    _ => {},
                }
            },
            _ => {
                self.check(outcome);
            },
        }
        assert(self@ =~= old(self)@.advanced(outcome));
    }

    /// The border, once nothing remains to be done, or why there is none.
    pub fn finish(self) -> (result: Result<FocusBorderWindow, CgsWindowError>)
        requires
            self@.steps.len() == 0,
        ensures
            result == self@.result(),
    {
        match self.failure {
            None => Ok(self.window),
            Some(error) => Err(error),
        }
    }
}

} // verus!
