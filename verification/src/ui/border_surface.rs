//! What the operations on a border's surface amount to on the screen.

use vstd::prelude::*;

#[allow(unused_imports)]
use crate::model::geometry;
#[allow(unused_imports)]
use crate::model::geometry::{Frame, Point, Size};
#[allow(unused_imports)]
use crate::model::ids::{SpaceId, WindowServerId};
#[allow(unused_imports)]
use crate::model::projection::BorderTarget;
#[allow(unused_imports)]
use crate::ui::border;
#[allow(unused_imports)]
use crate::ui::border::{
    BorderSettings, BorderStyle, CgsWindowError, FocusBorderWindow, Outcome, Placement, RunView,
    SLSWindowTags, SurfaceOp,
};

verus! {

/// A ring of some extent.
pub struct Ring {
    pub size: Size,
    pub style: BorderStyle,
}

/// What was drawn, from a layer of which extent, and in how many pixels per point.
pub struct Picture {
    pub size: Size,
    pub layer: Size,
    pub style: BorderStyle,
    pub pixels: u32,
}

/// A surface as the WindowServer has it.
pub struct Surface {
    pub made: bool,
    pub space: Option<SpaceId>,
    pub origin: Option<Point>,
    /// The ring to which the surface is cut.
    pub ring: Option<Ring>,
    /// What the next redraw draws.
    pub layer: Option<Ring>,
    /// What was drawn last.
    pub drawn: Option<Picture>,
    pub resolution: u32,
    /// The pixels per point of the context in which the surface is drawn.
    pub context: u32,
    pub visible: bool,
    pub shadow: bool,
    pub opaque: bool,
    pub frozen: bool,
    pub locked: bool,
    /// The window above which the surface was ordered last.
    pub above: Option<WindowServerId>,
    pub tags: SLSWindowTags,
    pub moves_with: Option<WindowServerId>,
    pub ordered_with: Option<WindowServerId>,
}

impl Surface {
    /// The surface after an operation that succeeded. A question for the level
    /// of a window leads to the surface being ordered above it.
    pub open spec fn did(self, op: SurfaceOp) -> Surface {
        match op {
            SurfaceOp::ConfigureLayer { size, style } => Surface {
                layer: Some(Ring { size, style }),
                ..self
            },
            SurfaceOp::CreateOverlay(frame) => Surface {
                made: true,
                origin: Some(frame.origin),
                ..self
            },
            SurfaceOp::SetOpacity(opaque) => Surface { opaque, ..self },
            SurfaceOp::DisableShadow => Surface { shadow: false, ..self },
            SurfaceOp::SetVisible(visible) => Surface { visible, ..self },
            SurfaceOp::SetResolution(resolution) => Surface { resolution, ..self },
            SurfaceOp::SetShape { frame, style } => Surface {
                origin: Some(frame.origin),
                ring: Some(Ring { size: frame.size, style }),
                ..self
            },
            SurfaceOp::MoveToSpace(space) => Surface { space: Some(space), ..self },
            SurfaceOp::CreateContext => Surface { context: self.resolution, ..self },
            SurfaceOp::Redraw(size) => Surface {
                drawn: match self.layer {
                    Some(layer) => Some(
                        Picture {
                            size,
                            layer: layer.size,
                            style: layer.style,
                            pixels: self.context,
                        },
                    ),
                    None => None,
                },
                ..self
            },
            SurfaceOp::QueryLevel { target, placement } => match placement {
                Placement::At(origin) => Surface {
                    origin: Some(origin),
                    above: Some(target),
                    ..self
                },
                Placement::Above => Surface { above: Some(target), ..self },
            },
            SurfaceOp::SetTags(tags) => Surface {
                tags: SLSWindowTags {
                    floating: self.tags.floating || tags.floating,
                    ignore_for_events: self.tags.ignore_for_events || tags.ignore_for_events,
                    opaque_for_events: self.tags.opaque_for_events || tags.opaque_for_events,
                },
                ..self
            },
            SurfaceOp::ClearTags(tags) => Surface {
                tags: SLSWindowTags {
                    floating: self.tags.floating && !tags.floating,
                    ignore_for_events: self.tags.ignore_for_events && !tags.ignore_for_events,
                    opaque_for_events: self.tags.opaque_for_events && !tags.opaque_for_events,
                },
                ..self
            },
            SurfaceOp::AddToMovementGroup(target) => Surface { moves_with: Some(target), ..self },
            SurfaceOp::AddToOrderingGroup(target) => Surface {
                ordered_with: Some(target),
                ..self
            },
            SurfaceOp::DisableUpdates => Surface { locked: true, ..self },
            SurfaceOp::Freeze => Surface { frozen: true, ..self },
            SurfaceOp::Thaw => Surface { frozen: false, ..self },
            SurfaceOp::ReenableUpdates => Surface { locked: false, ..self },
            SurfaceOp::MoveTo(origin) => Surface { origin: Some(origin), ..self },
            _ => self,
        }
    }

    /// The surface after operations that succeeded.
    pub open spec fn after(self, steps: Seq<SurfaceOp>) -> Surface
        decreases steps.len(),
    {
        if steps.len() == 0 {
            self
        } else {
            self.after(steps.drop_last()).did(steps.last())
        }
    }

    /// Whether the surface is on the screen as the border says: visible, on its
    /// space, above its window and open to pointer events, cut to the ring and
    /// drawn in the size and the style that the border has. Its place is the
    /// border's, unless the WindowServer moves it.
    pub open spec fn presents(self, window: FocusBorderWindow) -> bool {
        &&& self.made
        &&& self.visible
        &&& !self.frozen
        &&& !self.locked
        &&& !self.shadow
        &&& !self.opaque
        &&& self.space == Some(window.space)
        &&& self.above == Some(window.target)
        &&& self.tags.floating
        &&& self.tags.ignore_for_events
        &&& !self.tags.opaque_for_events
        &&& self.moves_with == Some(window.target)
        &&& self.ordered_with == Some(window.target)
        &&& self.origin is Some
        &&& !window.movement_grouped ==> is_one_point(self.origin->0, window.frame.origin)
        &&& self.ring is Some
        &&& is_one_size(self.ring->0.size, window.frame.size)
        &&& is_one_ring(self.ring->0.style, window.style)
        &&& self.drawn is Some
        &&& is_one_size(self.drawn->0.size, window.frame.size)
        &&& is_one_size(self.drawn->0.layer, window.frame.size)
        &&& is_one_style(self.drawn->0.style, window.style)
        &&& self.resolution == self.drawn->0.pixels
        &&& self.context == self.resolution
        &&& self.resolution == (if window.style.hidpi {
            2u32
        } else {
            1u32
        })
    }
}

pub open spec fn is_one_point(left: Point, right: Point) -> bool {
    geometry::is_one_number(left.x, right.x) && geometry::is_one_number(left.y, right.y)
}

pub open spec fn is_one_size(left: Size, right: Size) -> bool {
    &&& geometry::is_one_number(left.width, right.width)
    &&& geometry::is_one_number(left.height, right.height)
}

/// Whether both styles make the same ring.
pub open spec fn is_one_ring(left: BorderStyle, right: BorderStyle) -> bool {
    &&& geometry::is_one_number(left.width, right.width)
    &&& geometry::is_one_number(left.corner_radius, right.corner_radius)
    &&& left.hidpi == right.hidpi
}

/// Whether both styles look the same.
pub open spec fn is_one_style(left: BorderStyle, right: BorderStyle) -> bool {
    is_one_ring(left, right) && left.color == right.color
}

/// Operations in a row are done in a row.
proof fn lemma_in_a_row(surface: Surface, first: Seq<SurfaceOp>, second: Seq<SurfaceOp>)
    ensures
        surface.after(first + second) == surface.after(first).after(second),
    decreases second.len(),
{
    if second.len() == 0 {
        assert(first + second =~= first);
    } else {
        lemma_in_a_row(surface, first, second.drop_last());
        assert((first + second).drop_last() =~= first + second.drop_last());
    }
}

/// What one, two or more operations amount to.
proof fn lemma_few(surface: Surface, steps: Seq<SurfaceOp>)
    ensures
        steps.len() == 0 ==> surface.after(steps) == surface,
        steps.len() == 1 ==> surface.after(steps) == surface.did(steps[0]),
        steps.len() == 2 ==> surface.after(steps) == surface.did(steps[0]).did(steps[1]),
        steps.len() == 3 ==> surface.after(steps) == surface.did(steps[0]).did(steps[1]).did(
            steps[2],
        ),
        steps.len() == 4 ==> surface.after(steps) == surface.did(steps[0]).did(steps[1]).did(
            steps[2],
        ).did(steps[3]),
        steps.len() == 5 ==> surface.after(steps) == surface.did(steps[0]).did(steps[1]).did(
            steps[2],
        ).did(steps[3]).did(steps[4]),
    decreases steps.len(),
{
    if steps.len() > 0 {
        lemma_few(surface, steps.drop_last());
    }
}

/// Equal doubles are one number.
proof fn lemma_equal_is_one(
    window: FocusBorderWindow,
    target: BorderTarget,
    frame: Frame,
    style: BorderStyle,
)
    ensures
        ({
            let changed = window.difference(target, frame, style);
            &&& !changed.size ==> is_one_size(window.frame.size, frame.size)
            &&& !changed.origin ==> is_one_point(window.frame.origin, frame.origin)
            &&& !changed.style ==> is_one_style(window.style, style)
            &&& !changed.shape ==> is_one_size(window.frame.size, frame.size) && is_one_ring(
                window.style,
                style,
            )
            &&& !changed.resolution ==> window.style.hidpi == style.hidpi
        }),
{
    geometry::law_doubles_by_their_bits(window.frame.origin.x, frame.origin.x);
    geometry::law_doubles_by_their_bits(window.frame.origin.y, frame.origin.y);
    geometry::law_doubles_by_their_bits(window.frame.size.width, frame.size.width);
    geometry::law_doubles_by_their_bits(window.frame.size.height, frame.size.height);
    geometry::law_doubles_by_their_bits(window.style.width, style.width);
    geometry::law_doubles_by_their_bits(window.style.corner_radius, style.corner_radius);
}

/// Ordering a surface puts it above its window and lets pointer events through.
pub proof fn law_ordering_puts_it_above(
    surface: Surface,
    target: WindowServerId,
    placement: Placement,
)
    ensures
        ({
            let after = surface.after(border::placement_steps(target, placement));
            &&& after.above == Some(target)
            &&& after.tags.floating
            &&& after.tags.ignore_for_events
            &&& !after.tags.opaque_for_events
            &&& after.origin == (match placement {
                Placement::At(origin) => Some(origin),
                Placement::Above => surface.origin,
            })
            &&& after == (Surface {
                above: after.above,
                tags: after.tags,
                origin: after.origin,
                ..surface
            })
        }),
        border::placement_steps(target, placement).last() is QueryTags,
{
    lemma_few(surface, border::placement_steps(target, placement));
}

/// A new border is on the screen as it was asked for once all its operations are
/// done: round its window, on that one's space and in the given style.
pub proof fn law_new_border_is_presented(
    surface: Surface,
    target: BorderTarget,
    frame: Frame,
    style: BorderStyle,
)
    requires
        !surface.frozen,
        !surface.locked,
    ensures
        surface.after(FocusBorderWindow::creation_run(target, frame, style).steps).presents(
            FocusBorderWindow::creation_run(target, frame, style).window,
        ),
        FocusBorderWindow::creation_run(target, frame, style).failure is None,
        !FocusBorderWindow::creation_run(target, frame, style).locked,
        ({
            let window = FocusBorderWindow::creation_run(target, frame, style).window;
            &&& window.target == target.window_server_id
            &&& window.space == target.space
            &&& window.frame == frame
            &&& window.style == style
            &&& !window.movement_grouped
            &&& !window.movement_tracking_verified
            &&& !window.ordering_grouped
        }),
{
    let owner = target.window_server_id;
    let steps = border::creation_steps(target, frame, style);
    let (one, two) = (steps.subrange(0, 5), steps.subrange(5, 10));
    let (three, four) = (steps.subrange(10, 14), steps.subrange(14, 16));
    let (five, six) = (steps.subrange(16, 20), steps.subrange(20, 21));
    assert(three =~= border::placement_steps(owner, Placement::At(frame.origin)));
    assert(five =~= border::placement_steps(owner, Placement::Above));
    assert(steps =~= one + two + three + four + five + six);
    lemma_in_a_row(surface, one + two + three + four + five, six);
    lemma_in_a_row(surface, one + two + three + four, five);
    lemma_in_a_row(surface, one + two + three, four);
    lemma_in_a_row(surface, one + two, three);
    lemma_in_a_row(surface, one, two);
    let s1 = surface.after(one);
    let s2 = s1.after(two);
    let s3 = s2.after(three);
    let s4 = s3.after(four);
    let s5 = s4.after(five);
    lemma_few(surface, one);
    lemma_few(s1, two);
    law_ordering_puts_it_above(s2, owner, Placement::At(frame.origin));
    lemma_few(s3, four);
    law_ordering_puts_it_above(s4, owner, Placement::Above);
    lemma_few(s5, six);
}

/// After an update the border has the space, the place, the extent and the style
/// that were asked for, and belongs to the same window and the same groups. What
/// was seen of its movement counts on its space alone.
pub proof fn law_updated_border_is_as_asked(
    window: FocusBorderWindow,
    target: BorderTarget,
    frame: Frame,
    style: BorderStyle,
)
    ensures
        ({
            let after = window.update_run(target, frame, style).window;
            &&& after.target == window.target
            &&& after.space == target.space
            &&& geometry::is_one_place(after.frame, frame)
            &&& is_one_style(after.style, style)
            &&& after.movement_grouped == window.movement_grouped
            &&& after.ordering_grouped == window.ordering_grouped
            &&& after.movement_tracking_verified == (window.movement_tracking_verified
                && window.space == target.space)
        }),
{
    lemma_equal_is_one(window, target, frame, style);
}

/// A border that is on the screen as it says is so again after an update: what is
/// drawn has the size and the style of the updated border, and it is on that
/// one's space and, unless the WindowServer moves it, at its place.
pub proof fn law_updated_border_is_presented(
    surface: Surface,
    window: FocusBorderWindow,
    target: BorderTarget,
    frame: Frame,
    style: BorderStyle,
)
    requires
        surface.presents(window),
    ensures
        surface.after(window.update_run(target, frame, style).steps).presents(
            window.update_run(target, frame, style).window,
        ),
        window.update_run(target, frame, style).failure is None,
        !window.update_run(target, frame, style).locked,
{
    let changed = window.difference(target, frame, style);
    let lead = if changed.space {
        seq![SurfaceOp::MoveToSpace(target.space)]
    } else {
        Seq::empty()
    };
    let rest = if changed.size || changed.style {
        window.redraw_steps(target, frame, style)
    } else if changed.origin {
        window.move_steps(target, frame.origin)
    } else {
        Seq::empty()
    };
    assert(window.update_steps(target, frame, style) =~= lead + rest);
    lemma_equal_is_one(window, target, frame, style);
    lemma_in_a_row(surface, lead, rest);
    lemma_few(surface, lead);
    let there = surface.after(lead);
    assert(there.space == Some(target.space));
    if changed.size || changed.style {
        lemma_redrawn(there, window, target, frame, style);
    } else {
        lemma_few(there, rest);
    }
}

/// What redrawing amounts to.
proof fn lemma_redrawn(
    surface: Surface,
    window: FocusBorderWindow,
    target: BorderTarget,
    frame: Frame,
    style: BorderStyle,
)
    requires
        surface.presents((FocusBorderWindow { space: target.space, ..window })),
        window.difference(target, frame, style).size || window.difference(
            target,
            frame,
            style,
        ).style,
    ensures
        surface.after(window.redraw_steps(target, frame, style)).presents(
            window.updated(target, frame, style),
        ),
{
    let changed = window.difference(target, frame, style);
    let one = seq![SurfaceOp::SetVisible(false), SurfaceOp::DisableUpdates, SurfaceOp::Freeze];
    let two = if changed.shape {
        seq![SurfaceOp::SetShape { frame, style }]
    } else if changed.origin && !window.movement_grouped {
        seq![SurfaceOp::MoveTo(frame.origin)]
    } else {
        Seq::empty()
    };
    let three = if changed.resolution {
        seq![SurfaceOp::SetResolution(style.pixels()), SurfaceOp::CreateContext]
    } else {
        Seq::empty()
    };
    let four = seq![
        SurfaceOp::ConfigureLayer { size: frame.size, style },
        SurfaceOp::Redraw(frame.size),
        SurfaceOp::Thaw,
        SurfaceOp::ReenableUpdates,
        SurfaceOp::SetVisible(true),
    ];
    let five = border::placement_steps(window.target, Placement::Above);
    assert(window.redraw_steps(target, frame, style) == one + two + three + four + five);
    let s1 = surface.after(one);
    let s2 = s1.after(two);
    let s3 = s2.after(three);
    let s4 = s3.after(four);
    assert(surface.after(one + two + three + four + five) == s4.after(five)) by {
        lemma_in_a_row(surface, one + two + three + four, five);
        lemma_in_a_row(surface, one + two + three, four);
        lemma_in_a_row(surface, one + two, three);
        lemma_in_a_row(surface, one, two);
    }
    assert(s1 == (Surface { visible: false, locked: true, frozen: true, ..surface })) by {
        lemma_few(surface, one);
    }
    assert(s2 == (Surface { origin: s2.origin, ring: s2.ring, ..s1 }) && s2.origin is Some
        && s2.ring is Some && is_one_size(s2.ring->0.size, frame.size) && is_one_ring(
        s2.ring->0.style,
        style,
    ) && (!window.movement_grouped ==> is_one_point(s2.origin->0, frame.origin))) by {
        lemma_few(s1, two);
        lemma_equal_is_one(window, target, frame, style);
    }
    assert(s3 == (Surface { resolution: style.pixels(), context: style.pixels(), ..s2 })) by {
        lemma_few(s2, three);
        lemma_equal_is_one(window, target, frame, style);
    }
    assert(s4 == (Surface {
        layer: Some(Ring { size: frame.size, style }),
        drawn: Some(
            Picture { size: frame.size, layer: frame.size, style, pixels: style.pixels() },
        ),
        visible: true,
        locked: false,
        frozen: false,
        ..s3
    })) by {
        lemma_few(s3, four);
    }
    law_ordering_puts_it_above(s4, window.target, Placement::Above);
}

/// Nothing is done for a border that is already as asked for.
pub proof fn law_unchanged_border_is_left_alone(
    window: FocusBorderWindow,
    target: BorderTarget,
    frame: Frame,
    style: BorderStyle,
)
    requires
        window.space == target.space,
        frame.is_numeric(),
        style.width.is_number(),
        style.corner_radius.is_number(),
        geometry::is_one_place(window.frame, frame),
        is_one_style(window.style, style),
    ensures
        window.update_run(target, frame, style).steps == Seq::<SurfaceOp>::empty(),
        window.update_run(target, frame, style).window == window,
{
    geometry::law_doubles_by_their_bits(window.frame.origin.x, frame.origin.x);
    geometry::law_doubles_by_their_bits(window.frame.origin.y, frame.origin.y);
    geometry::law_doubles_by_their_bits(window.frame.size.width, frame.size.width);
    geometry::law_doubles_by_their_bits(window.frame.size.height, frame.size.height);
    geometry::law_doubles_by_their_bits(window.style.width, style.width);
    geometry::law_doubles_by_their_bits(window.style.corner_radius, style.corner_radius);
    assert(window.update_steps(target, frame, style) =~= Seq::<SurfaceOp>::empty());
}

/// A border that merely moved is not redrawn: it is moved, or found to have moved
/// by itself.
pub proof fn law_moved_border_is_not_redrawn(
    window: FocusBorderWindow,
    target: BorderTarget,
    frame: Frame,
    style: BorderStyle,
)
    requires
        window.frame.size.same_as(frame.size),
        window.style.same_as(style),
        window.space == target.space,
        !window.frame.origin.same_as(frame.origin),
    ensures
        window.update_run(target, frame, style).steps == (if !window.movement_grouped {
            seq![SurfaceOp::MoveTo(frame.origin)]
        } else if !window.movement_tracking_verified {
            seq![SurfaceOp::QueryTracking(frame.origin)]
        } else {
            Seq::empty()
        }),
        window.update_run(target, frame, style).window.frame.origin == frame.origin,
{
    assert(window.update_steps(target, frame, style) =~= window.move_steps(target, frame.origin));
}

/// Whether the run goes on with the rest of its operations, and is otherwise as
/// before.
pub open spec fn goes_on(before: RunView, after: RunView) -> bool {
    &&& after.steps == before.steps.drop_first()
    &&& after.failure is None
}

/// A surface that does not follow its window is moved by hand from then on; one
/// that does need not be looked at again.
pub proof fn law_tracking_decides_who_moves(run: RunView, origin: Point, outcome: Outcome)
    requires
        run.failure is None,
        run.steps.len() > 0,
        run.steps[0] == SurfaceOp::QueryTracking(origin),
    ensures
        ({
            let after = run.advanced(outcome);
            if outcome == Outcome::Tracks(true) {
                &&& goes_on(run, after)
                &&& after.window == (FocusBorderWindow {
                    movement_tracking_verified: true,
                    ..run.window
                })
            } else {
                &&& after.failure is None
                &&& after.steps == seq![SurfaceOp::MoveTo(origin)] + run.steps.drop_first()
                &&& after.window == (FocusBorderWindow { movement_grouped: false, ..run.window })
            }
        }),
{
}

/// A border counts as grouped exactly if the WindowServer took it in, and goes on
/// without if not.
pub proof fn law_groups_are_optional(run: RunView, target: WindowServerId, outcome: Outcome)
    requires
        run.failure is None,
        run.steps.len() > 0,
    ensures
        run.steps[0] == SurfaceOp::AddToMovementGroup(target) ==> {
            &&& goes_on(run, run.advanced(outcome))
            &&& run.advanced(outcome).window == (FocusBorderWindow {
                movement_grouped: !(outcome is Failed),
                ..run.window
            })
        },
        run.steps[0] == SurfaceOp::AddToOrderingGroup(target) ==> {
            &&& goes_on(run, run.advanced(outcome))
            &&& run.advanced(outcome).window == (FocusBorderWindow {
                ordering_grouped: !(outcome is Failed),
                ..run.window
            })
        },
{
}

/// A window's level and sub-level, once both are known, are given to the surface
/// in one transaction that orders it above that window. A level that is not to be
/// had, or is none, fails the run.
pub proof fn law_surface_takes_the_level(
    run: RunView,
    target: WindowServerId,
    placement: Placement,
    level: i64,
    sub_level: i32,
)
    requires
        run.failure is None,
        run.steps.len() > 0,
        run.steps[0] == (SurfaceOp::QueryLevel { target, placement }),
    ensures
        i32::MIN <= level <= i32::MAX ==> {
            let asked = run.advanced(Outcome::Level(Some(level)));
            let after = asked.advanced(Outcome::SubLevel(sub_level));
            &&& asked.failure is None
            &&& asked.steps.drop_first() == run.steps.drop_first()
            &&& after.failure is None
            &&& after.window == run.window
            &&& after.steps == seq![
                match placement {
                    Placement::At(origin) => SurfaceOp::SyncAbove {
                        target,
                        origin,
                        level: level as i32,
                        sub_level,
                    },
                    Placement::Above => SurfaceOp::SyncOrderAbove {
                        target,
                        level: level as i32,
                        sub_level,
                    },
                },
            ] + run.steps.drop_first()
        },
        !(i32::MIN <= level <= i32::MAX) ==> run.advanced(Outcome::Level(Some(level))).failure
            == Some(CgsWindowError::Level(1000)),
        run.advanced(Outcome::Level(None)).failure == Some(CgsWindowError::Level(1000)),
{
    let rest = run.steps.drop_first();
    let asked = run.advanced(Outcome::Level(Some(level)));
    assert(asked.steps.drop_first() =~= rest || asked.failure is Some);
}

/// Any other operation that fails ends the run with its error, except for a move
/// to a space or a change of the layer; one that succeeds lets the run go on with
/// the same border. A surface that lets pointer events through, or whose tags are
/// not known, passes.
pub proof fn law_failures_end_the_run(run: RunView, error: CgsWindowError)
    requires
        run.failure is None,
        run.steps.len() > 0,
        !(run.steps[0] is QueryLevel),
        !(run.steps[0] is QuerySubLevel),
        !(run.steps[0] is QueryTracking),
        !(run.steps[0] is AddToMovementGroup),
        !(run.steps[0] is AddToOrderingGroup),
    ensures
        goes_on(run, run.advanced(Outcome::Done)),
        run.advanced(Outcome::Done).window == run.window,
        run.advanced(Outcome::Failed(error)).window == run.window,
        if run.steps[0] is MoveToSpace || run.steps[0] is ConfigureLayer || run.steps[0]
            is QueryTags {
            goes_on(run, run.advanced(Outcome::Failed(error)))
        } else {
            run.advanced(Outcome::Failed(error)).failure == Some(error)
        },
        run.steps[0] is QueryTags ==> {
            &&& goes_on(run, run.advanced(Outcome::Tags(None)))
            &&& goes_on(
                run,
                run.advanced(
                    Outcome::Tags(
                        Some(
                            SLSWindowTags {
                                floating: true,
                                ignore_for_events: true,
                                opaque_for_events: false,
                            },
                        ),
                    ),
                ),
            )
        },
{
}

/// Pointer events pass a surface exactly if it ignores them and is not opaque to
/// them, and a set of tags holds another exactly if it has each of its tags.
pub proof fn law_tags_by_their_flags(tags: SLSWindowTags, other: SLSWindowTags)
    ensures
        tags.passes_events() <==> tags.ignore_for_events && !tags.opaque_for_events,
        tags.holds(other) <==> !(other.floating && !tags.floating) && !(other.ignore_for_events
            && !tags.ignore_for_events) && !(other.opaque_for_events && !tags.opaque_for_events),
{
}

/// A border looks as the settings say: their width, color and corners, and two
/// pixels a point on a dense display. Two styles are the same exactly if all of
/// that is.
pub proof fn law_style_is_that_of_the_settings(settings: BorderSettings, other: BorderStyle)
    ensures
        ({
            let style = border::style_of(settings);
            &&& style.width == settings.width
            &&& style.color == settings.color
            &&& style.corner_radius == settings.corner_radius
            &&& style.hidpi == settings.hidpi
            &&& style.pixels() == (if settings.hidpi {
                2u32
            } else {
                1u32
            })
            &&& style.same_as(other) <==> is_one_style(style, other) && style.width.is_number()
                && other.width.is_number() && style.corner_radius.is_number()
                && other.corner_radius.is_number()
        }),
{
    geometry::law_doubles_by_their_bits(settings.width, other.width);
    geometry::law_doubles_by_their_bits(settings.corner_radius, other.corner_radius);
    geometry::law_doubles_by_their_bits(other.width, settings.width);
    geometry::law_doubles_by_their_bits(other.corner_radius, settings.corner_radius);
}

/// Ordering a border again leaves it as it is: the surface is put above its window
/// and shows what it showed.
pub proof fn law_reordered_border_is_presented(surface: Surface, window: FocusBorderWindow)
    requires
        surface.presents(window),
    ensures
        surface.after(window.order_run().steps).presents(window),
        window.order_run().window == window,
        window.order_run().failure is None,
        !window.order_run().locked,
        window.order_run().steps.len() > 0,
        window.order_run().steps[0] == (SurfaceOp::QueryLevel {
            target: window.target,
            placement: Placement::Above,
        }),
{
    law_ordering_puts_it_above(surface, window.target, Placement::Above);
}

/// A run's operations come one after the other, and a run ends with its border if
/// nothing failed, and else with the error.
pub proof fn law_runs_go_step_by_step(run: RunView)
    ensures
        run.next_op() is None <==> run.steps.len() == 0,
        run.next_op() matches Some(op) ==> op == run.steps.first(),
        run.result() is Ok <==> run.failure is None,
        run.result() matches Ok(window) ==> window == run.window,
        run.result() matches Err(error) ==> Some(error) == run.failure,
{
}

/// The channels of a color are its bytes: alpha from the top, then red, green and
/// blue.
pub proof fn law_color_by_its_bytes(color: u32, channels: (u8, u8, u8, u8))
    requires
        border::is_color_of(color, channels),
    ensures
        channels.3 == color / 0x100_0000,
        channels.0 == color / 0x1_0000 % 0x100,
        channels.1 == color / 0x100 % 0x100,
        channels.2 == color % 0x100,
{
    let (red, green, blue, alpha) = (
        channels.0 as int,
        channels.1 as int,
        channels.2 as int,
        channels.3 as int,
    );
    let upper = alpha * 0x100 + red;
    let middle = upper * 0x100 + green;
    vstd::arithmetic::div_mod::lemma_fundamental_div_mod_converse(
        color as int,
        0x100_0000,
        alpha,
        red * 0x1_0000 + green * 0x100 + blue,
    );
    vstd::arithmetic::div_mod::lemma_fundamental_div_mod_converse(
        color as int,
        0x1_0000,
        upper,
        green * 0x100 + blue,
    );
    vstd::arithmetic::div_mod::lemma_fundamental_div_mod_converse(
        color as int,
        0x100,
        middle,
        blue,
    );
    vstd::arithmetic::div_mod::lemma_fundamental_div_mod_converse(upper, 0x100, alpha, red);
    vstd::arithmetic::div_mod::lemma_fundamental_div_mod_converse(middle, 0x100, upper, green);
}

/// Whether the operation changes how the surface looks.
pub open spec fn changes_looks(op: SurfaceOp) -> bool {
    op is SetShape || op is SetResolution || op is CreateContext || op is ConfigureLayer || op
        is Redraw
}

/// Where the operations of a redraw stand, whatever changes the shape.
proof fn lemma_places_around(
    middle: Seq<SurfaceOp>,
    target: WindowServerId,
    size: Size,
    style: BorderStyle,
)
    ensures
        ({
            let steps = seq![
                SurfaceOp::SetVisible(false),
                SurfaceOp::DisableUpdates,
                SurfaceOp::Freeze,
            ] + middle + seq![
                SurfaceOp::ConfigureLayer { size, style },
                SurfaceOp::Redraw(size),
                SurfaceOp::Thaw,
                SurfaceOp::ReenableUpdates,
                SurfaceOp::SetVisible(true),
            ] + border::placement_steps(target, Placement::Above);
            has_redraw_places(steps)
        }),
{
}

/// Whether looks change only between hiding and showing.
pub open spec fn has_redraw_places(steps: Seq<SurfaceOp>) -> bool {
    let n = steps.len() as int;
    &&& n >= 12
    &&& steps[0] == SurfaceOp::SetVisible(false)
    &&& steps[1] is DisableUpdates
    &&& steps[2] is Freeze
    &&& steps[n - 7] is Thaw
    &&& steps[n - 6] is ReenableUpdates
    &&& steps[n - 5] == SurfaceOp::SetVisible(true)
    &&& forall|i: int| 0 <= i < n && changes_looks(#[trigger] steps[i]) ==> 2 < i < n - 7
}

proof fn lemma_redraw_places(
    window: FocusBorderWindow,
    target: BorderTarget,
    frame: Frame,
    style: BorderStyle,
)
    ensures
        has_redraw_places(window.redraw_steps(target, frame, style)),
{
    let changed = window.difference(target, frame, style);
    let first = seq![SurfaceOp::SetVisible(false), SurfaceOp::DisableUpdates, SurfaceOp::Freeze];
    let moved = if changed.shape {
        seq![SurfaceOp::SetShape { frame, style }]
    } else if changed.origin && !window.movement_grouped {
        seq![SurfaceOp::MoveTo(frame.origin)]
    } else {
        Seq::empty()
    };
    let scaled = if changed.resolution {
        seq![SurfaceOp::SetResolution(style.pixels()), SurfaceOp::CreateContext]
    } else {
        Seq::empty()
    };
    lemma_places_around(moved + scaled, window.target, frame.size, style);
    assert(first + moved + scaled =~= first + (moved + scaled));
}

/// A surface changes its looks only while it is hidden, the connection's updates
/// are disabled and it is frozen, once it is on its space. It is thawed and
/// updates are enabled again before it is shown.
pub proof fn law_looks_change_out_of_sight(
    window: FocusBorderWindow,
    target: BorderTarget,
    frame: Frame,
    style: BorderStyle,
    i: int,
)
    requires
        0 <= i < window.update_run(target, frame, style).steps.len(),
        changes_looks(window.update_run(target, frame, style).steps[i]),
    ensures
        ({
            let steps = window.update_run(target, frame, style).steps;
            let hidden: int = if steps[0] is MoveToSpace {
                1
            } else {
                0
            };
            let shown = steps.len() - 5;
            &&& hidden + 2 < i < shown - 2
            &&& steps[hidden] == SurfaceOp::SetVisible(false)
            &&& steps[hidden + 1] is DisableUpdates
            &&& steps[hidden + 2] is Freeze
            &&& steps[shown - 2] is Thaw
            &&& steps[shown - 1] is ReenableUpdates
            &&& steps[shown] == SurfaceOp::SetVisible(true)
        }),
{
    let steps = window.update_run(target, frame, style).steps;
    let changed = window.difference(target, frame, style);
    let rest = window.redraw_steps(target, frame, style);
    lemma_redraw_places(window, target, frame, style);
    assert(changed.size || changed.style);
    if changed.space {
        assert(steps =~= seq![SurfaceOp::MoveToSpace(target.space)] + rest);
        assert forall|k: int| 1 <= k < steps.len() implies #[trigger] steps[k] == rest[k - 1] by {}
        assert(changes_looks(rest[i - 1]));
    } else {
        assert(steps =~= rest);
    }
}

} // verus!
