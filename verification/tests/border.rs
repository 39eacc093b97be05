//! The border round the focused window.

use std::sync::Arc;

use rift::actor::border::{Batch, Border, Event, SurfacePlan, MAX_EVENTS_PER_BATCH};
use rift::model::geometry::{Coord, Frame, Point, Size};
use rift::model::ids::{SpaceId, WindowId, WindowServerId};
use rift::model::projection::{BorderTarget, DesktopSnapshot, DesktopState, StateRevision};
use rift::ui::border::{
    argb_components, border_window_tags, BorderSettings, BorderStyle, CgsWindowError,
    FocusBorderWindow, Outcome, Placement, SLSWindowTags, SurfaceOp, SurfaceRun,
};

fn coord(value: f64) -> Coord {
    Coord {
        bits: value.to_bits(),
    }
}

fn frame(x: f64, y: f64, width: f64, height: f64) -> Frame {
    Frame {
        origin: Point {
            x: coord(x),
            y: coord(y),
        },
        size: Size {
            width: coord(width),
            height: coord(height),
        },
    }
}

fn settings() -> BorderSettings {
    BorderSettings {
        enabled: true,
        width: coord(4.0),
        color: 0xfff3_7021,
        corner_radius: coord(10.0),
        hidpi: false,
    }
}

fn style() -> BorderStyle {
    BorderStyle::from(settings())
}

fn target(server_id: u32, space: u64) -> BorderTarget {
    BorderTarget {
        window: WindowId::new(1, 1),
        window_server_id: WindowServerId::new(server_id),
        space: SpaceId { id: space },
        frame: frame(100.0, 200.0, 800.0, 600.0),
    }
}

fn place() -> Frame {
    frame(96.0, 196.0, 808.0, 608.0)
}

/// A short name for each operation.
fn name(op: &SurfaceOp) -> &'static str {
    match op {
        SurfaceOp::ConfigureLayer { .. } => "layer",
        SurfaceOp::CreateOverlay(_) => "create",
        SurfaceOp::SetOpacity(_) => "opacity",
        SurfaceOp::DisableShadow => "shadow",
        SurfaceOp::SetVisible(true) => "show",
        SurfaceOp::SetVisible(false) => "hide",
        SurfaceOp::SetResolution(_) => "resolution",
        SurfaceOp::SetShape { .. } => "shape",
        SurfaceOp::MoveToSpace(_) => "space",
        SurfaceOp::CreateContext => "context",
        SurfaceOp::Redraw(_) => "redraw",
        SurfaceOp::QueryLevel { .. } => "level?",
        SurfaceOp::QuerySubLevel { .. } => "sublevel?",
        SurfaceOp::SyncAbove { .. } => "sync",
        SurfaceOp::SyncOrderAbove { .. } => "order",
        SurfaceOp::SetTags(_) => "tags",
        SurfaceOp::ClearTags(_) => "untag",
        SurfaceOp::QueryTags => "tags?",
        SurfaceOp::AddToMovementGroup(_) => "move-group",
        SurfaceOp::AddToOrderingGroup(_) => "order-group",
        SurfaceOp::DisableUpdates => "disable",
        SurfaceOp::Freeze => "freeze",
        SurfaceOp::Thaw => "thaw",
        SurfaceOp::ReenableUpdates => "enable",
        SurfaceOp::MoveTo(_) => "move",
        SurfaceOp::QueryTracking(_) => "tracks?",
    }
}

fn good_answer(op: &SurfaceOp) -> Outcome {
    match op {
        SurfaceOp::QueryLevel { .. } => Outcome::Level(Some(3)),
        SurfaceOp::QuerySubLevel { .. } => Outcome::SubLevel(-2),
        SurfaceOp::QueryTags => Outcome::Tags(Some(border_window_tags())),
        SurfaceOp::QueryTracking(_) => Outcome::Tracks(true),
        _ => Outcome::Done,
    }
}

/// Runs to the end. The operation with the given name, at its first occurrence,
/// has the given outcome, all others go well.
fn perform(
    mut run: SurfaceRun,
    odd: &str,
    outcome: Outcome,
) -> (Vec<&'static str>, Result<FocusBorderWindow, CgsWindowError>) {
    let mut names = vec![];
    let mut spent = false;
    while let Some(op) = run.next() {
        let called = name(&op);
        names.push(called);
        if called == odd && !spent {
            spent = true;
            run.advance(outcome);
        } else {
            run.advance(good_answer(&op));
        }
    }
    (names, run.finish())
}

fn made() -> FocusBorderWindow {
    let run = FocusBorderWindow::new(target(8, 2), place(), style());
    perform(run, "", Outcome::Done).1.expect("a border")
}

#[test]
fn argb_components_should_decode_janky_borders_color_format() {
    let (red, green, blue, alpha) = argb_components(0xfff3_7021);

    assert_eq!(
        (
            f64::from(red),
            f64::from(green),
            f64::from(blue),
            f64::from(alpha) / 255.0
        ),
        (243.0, 112.0, 33.0, 1.0)
    );
}

#[test]
fn overlay_tags_should_pass_pointer_events_through() {
    let tags = border_window_tags();
    assert!(tags.contains(SLSWindowTags::floating()));
    assert!(tags.contains(SLSWindowTags::ignore_for_events()));
    assert!(!tags.contains(SLSWindowTags::opaque_for_events()));
}

#[test]
fn every_channel_is_decoded() {
    assert_eq!(argb_components(0x0102_0304), (2, 3, 4, 1));
    assert_eq!(argb_components(0), (0, 0, 0, 0));
}

#[test]
fn styles_follow_the_settings() {
    assert!(style().same(BorderStyle {
        width: coord(4.0),
        color: 0xfff3_7021,
        corner_radius: coord(10.0),
        hidpi: false,
    }));
    assert_eq!(style().resolution(), 1);
    let sharp = BorderStyle {
        hidpi: true,
        ..style()
    };
    assert_eq!(sharp.resolution(), 2);
    assert!(!sharp.same(style()));
}

#[test]
fn a_new_border_is_shown_last() {
    let run = FocusBorderWindow::new(target(8, 2), place(), style());
    let (names, result) = perform(run, "", Outcome::Done);
    assert_eq!(
        names,
        [
            "layer", "create", "opacity", "shadow", "hide", "resolution", "shape", "space",
            "context", "redraw", "level?", "sublevel?", "sync", "tags", "untag", "tags?",
            "move-group", "order-group", "level?", "sublevel?", "order", "tags", "untag", "tags?",
            "show",
        ]
    );
    let window = result.expect("a border");
    assert_eq!(window.target, WindowServerId::new(8));
    assert_eq!(window.space, SpaceId { id: 2 });
    assert!(window.movement_grouped);
    assert!(window.ordering_grouped);
    assert!(!window.movement_tracking_verified);
}

#[test]
fn a_failed_call_fails_the_border() {
    let run = FocusBorderWindow::new(target(8, 2), place(), style());
    let error = CgsWindowError::Call(7);
    let (names, result) = perform(run, "shadow", Outcome::Failed(error));
    assert_eq!(names.last(), Some(&"shadow"));
    assert_eq!(result.err(), Some(error));
}

#[test]
fn groups_are_optional() {
    let run = FocusBorderWindow::new(target(8, 2), place(), style());
    let (_, result) = perform(run, "move-group", Outcome::Failed(CgsWindowError::Call(1)));
    let window = result.expect("a border all the same");
    assert!(!window.movement_grouped && window.ordering_grouped);

    let run = FocusBorderWindow::new(target(8, 2), place(), style());
    let (_, result) = perform(run, "order-group", Outcome::Failed(CgsWindowError::Call(1)));
    let window = result.expect("a border all the same");
    assert!(window.movement_grouped && !window.ordering_grouped);
}

#[test]
fn the_level_must_be_known_and_small() {
    for answer in [
        Outcome::Level(None),
        Outcome::Level(Some(1 << 31)),
        Outcome::Level(Some(-(1 << 31) - 1)),
    ] {
        let run = FocusBorderWindow::new(target(8, 2), place(), style());
        let (names, result) = perform(run, "level?", answer);
        assert_eq!(names.last(), Some(&"level?"));
        assert_eq!(result.err(), Some(CgsWindowError::Level(1000)));
    }
    let mut run = made().sync_order();
    run.advance(Outcome::Level(Some(-(1 << 31))));
    run.advance(Outcome::SubLevel(5));
    assert!(matches!(
        run.next(),
        Some(SurfaceOp::SyncOrderAbove {
            level: i32::MIN,
            sub_level: 5,
            ..
        })
    ));
}

#[test]
fn a_surface_that_takes_pointer_events_fails_closed() {
    let eligible = [
        SLSWindowTags {
            floating: true,
            ignore_for_events: false,
            opaque_for_events: false,
        },
        SLSWindowTags {
            floating: true,
            ignore_for_events: true,
            opaque_for_events: true,
        },
    ];
    for tags in eligible {
        let run = FocusBorderWindow::new(target(8, 2), place(), style());
        let (names, result) = perform(run, "tags?", Outcome::Tags(Some(tags)));
        assert!(!names.contains(&"show"));
        assert_eq!(result.err(), Some(CgsWindowError::PointerEvents));
    }
    let run = FocusBorderWindow::new(target(8, 2), place(), style());
    let (names, result) = perform(run, "tags?", Outcome::Tags(None));
    assert_eq!(names.last(), Some(&"show"));
    assert!(result.is_ok());
}

#[test]
fn nothing_is_done_for_an_unchanged_border() {
    let run = made().update(target(8, 2), place(), style());
    assert!(run.next().is_none());
}

#[test]
fn a_new_size_is_drawn_behind_disabled_updates() {
    let run = made().update(target(8, 2), frame(96.0, 196.0, 900.0, 608.0), style());
    let (names, result) = perform(run, "", Outcome::Done);
    assert_eq!(
        names,
        [
            "hide", "disable", "freeze", "shape", "layer", "redraw", "thaw", "enable", "show",
            "level?", "sublevel?", "order", "tags", "untag", "tags?",
        ]
    );
    assert!(result
        .expect("a border")
        .frame
        .same(frame(96.0, 196.0, 900.0, 608.0)));
}

#[test]
fn a_new_color_keeps_the_shape() {
    let red = BorderStyle {
        color: 0xffff_0000,
        ..style()
    };
    let run = made().update(target(8, 2), place(), red);
    let (names, result) = perform(run, "", Outcome::Done);
    assert_eq!(names[..5], ["hide", "disable", "freeze", "layer", "redraw"]);
    assert_eq!(result.expect("a border").style.color, 0xffff_0000);
}

#[test]
fn a_new_resolution_needs_a_new_context() {
    let sharp = BorderStyle {
        hidpi: true,
        ..style()
    };
    let run = made().update(target(8, 2), place(), sharp);
    let (names, _) = perform(run, "", Outcome::Done);
    assert_eq!(
        names[..8],
        ["hide", "disable", "freeze", "shape", "resolution", "context", "layer", "redraw"]
    );
}

#[test]
fn updates_are_enabled_again_after_any_failure() {
    let error = CgsWindowError::Call(3);
    for odd in ["freeze", "shape", "redraw", "thaw"] {
        let run = made().update(target(8, 2), frame(0.0, 0.0, 9.0, 9.0), style());
        let (names, result) = perform(run, odd, Outcome::Failed(error));
        assert_eq!(names[names.len() - 3..], [odd, "thaw", "enable"]);
        assert!(!names.contains(&"show"));
        assert_eq!(result.err(), Some(error));
    }
    for odd in ["hide", "disable", "enable"] {
        let run = made().update(target(8, 2), frame(0.0, 0.0, 9.0, 9.0), style());
        let (names, result) = perform(run, odd, Outcome::Failed(error));
        assert_eq!(names.last(), Some(&odd));
        assert!(!names.contains(&"show"));
        assert_eq!(result.err(), Some(error));
    }
}

#[test]
fn movement_is_watched_once_and_then_trusted() {
    let moved = frame(97.0, 196.0, 808.0, 608.0);
    let run = made().update(target(8, 2), moved, style());
    let (names, result) = perform(run, "", Outcome::Done);
    assert_eq!(names, ["tracks?"]);
    let trusted = result.expect("a border");
    assert!(trusted.movement_tracking_verified);

    let again = trusted.update(target(8, 2), place(), style());
    assert!(again.next().is_none());
    assert!(again.finish().expect("a border").frame.same(place()));

    let elsewhere = trusted.update(target(8, 3), place(), style());
    let (names, result) = perform(elsewhere, "", Outcome::Done);
    assert_eq!(names, ["space", "tracks?"]);
    assert_eq!(result.expect("a border").space, SpaceId { id: 3 });
}

#[test]
fn a_border_that_is_not_carried_is_moved() {
    let moved = frame(97.0, 196.0, 808.0, 608.0);
    let run = made().update(target(8, 2), moved, style());
    let (names, result) = perform(run, "tracks?", Outcome::Tracks(false));
    assert_eq!(names, ["tracks?", "move"]);
    let left_behind = result.expect("a border");
    assert!(!left_behind.movement_grouped);

    let (names, _) = perform(
        left_behind.update(target(8, 2), place(), style()),
        "",
        Outcome::Done,
    );
    assert_eq!(names, ["move"]);
}

#[test]
fn ordering_follows_the_target() {
    let window = made();
    assert!(window.targets(target(8, 5)));
    assert!(!window.targets(target(9, 2)));
    assert!(!window.should_resync_order_for(WindowServerId::new(8)));
    let loose = FocusBorderWindow {
        ordering_grouped: false,
        ..window
    };
    assert!(loose.should_resync_order_for(WindowServerId::new(8)));
    assert!(!loose.should_resync_order_for(WindowServerId::new(9)));
    let run = loose.sync_order();
    assert!(matches!(
        run.next(),
        Some(SurfaceOp::QueryLevel {
            placement: Placement::Above,
            ..
        })
    ));
    let (names, result) = perform(run, "", Outcome::Done);
    assert_eq!(
        names,
        ["level?", "sublevel?", "order", "tags", "untag", "tags?"]
    );
    assert!(result.is_ok());
}

fn revision(number: u64) -> StateRevision {
    let mut revision = StateRevision::default();
    for _ in 0..number {
        revision = revision.next();
    }
    revision
}

fn snapshot(number: u64, border_target: Option<BorderTarget>) -> Arc<DesktopSnapshot> {
    Arc::new(DesktopSnapshot {
        revision: revision(number),
        state: DesktopState {
            border_target,
            ..DesktopState::default()
        },
    })
}

#[test]
fn the_actor_follows_the_committed_target() {
    let mut actor = Border::new(settings());
    assert!(matches!(
        actor.handle_snapshot(snapshot(1, None)),
        SurfacePlan::Clear
    ));
    assert!(matches!(
        actor.handle_snapshot(snapshot(2, Some(target(8, 2)))),
        SurfacePlan::Create { .. }
    ));
    actor.finish(Ok(made()));
    assert!(matches!(
        actor.handle_snapshot(snapshot(3, Some(target(8, 2)))),
        SurfacePlan::Update { .. }
    ));
    actor.finish(Ok(made()));
    assert!(matches!(
        actor.handle_snapshot(snapshot(4, Some(target(9, 2)))),
        SurfacePlan::Create { .. }
    ));
    actor.finish(Err(CgsWindowError::Call(1)));
    assert!(actor.surface.is_none());
}

#[test]
fn the_actor_ignores_stale_states() {
    let mut actor = Border::new(settings());
    actor.handle_snapshot(snapshot(2, Some(target(8, 2))));
    assert!(matches!(
        actor.handle_snapshot(snapshot(2, None)),
        SurfacePlan::Nothing
    ));
    assert!(matches!(
        actor.handle_snapshot(snapshot(1, None)),
        SurfacePlan::Nothing
    ));
    assert_eq!(actor.last_applied_revision, Some(revision(2)));
}

#[test]
fn mission_control_and_settings_suppress_the_border() {
    let mut actor = Border::new(settings());
    actor.handle_snapshot(snapshot(1, Some(target(8, 2))));
    actor.finish(Ok(made()));
    let mut busy = DesktopState {
        border_target: Some(target(8, 2)),
        ..DesktopState::default()
    };
    busy.mission_control_active = true;
    let plan = actor.handle_snapshot(Arc::new(DesktopSnapshot {
        revision: revision(2),
        state: busy,
    }));
    assert!(matches!(plan, SurfacePlan::Clear));
    assert!(actor.surface.is_none());

    actor.handle_snapshot(snapshot(3, Some(target(8, 2))));
    actor.finish(Ok(made()));
    let off = BorderSettings {
        enabled: false,
        ..settings()
    };
    assert!(matches!(
        actor.handle_config_updated(off),
        SurfacePlan::Clear
    ));
    assert!(matches!(
        actor.handle_config_updated(settings()),
        SurfacePlan::Create { .. }
    ));
}

#[test]
fn a_lost_order_makes_the_border_anew() {
    let mut actor = Border::new(settings());
    actor.handle_snapshot(snapshot(1, Some(target(8, 2))));
    actor.finish(Ok(FocusBorderWindow {
        ordering_grouped: false,
        ..made()
    }));
    assert!(matches!(
        actor.handle_order_invalidated(WindowServerId::new(9)),
        SurfacePlan::Nothing
    ));
    let plan = actor.handle_order_invalidated(WindowServerId::new(8));
    assert!(matches!(plan, SurfacePlan::SyncOrder(_)));
    assert!(matches!(
        actor.finish_order(Ok(made())),
        SurfacePlan::Nothing
    ));
    assert!(actor.surface.is_some());
    assert!(matches!(
        actor.finish_order(Err(CgsWindowError::Level(1000))),
        SurfacePlan::Create { .. }
    ));
    assert!(actor.surface.is_none());
    assert!(matches!(
        actor.handle_order_invalidated(WindowServerId::new(8)),
        SurfacePlan::Nothing
    ));
}

/// What a batch hands on: revisions of states, and other letters for the rest.
fn batched(events: Vec<Event>) -> Vec<String> {
    let mut batch = Batch::new();
    let mut out = vec![];
    for event in events {
        out.extend(batch.handle_batched_event(event));
    }
    out.extend(batch.flush_pending_snapshot());
    out.iter()
        .map(|event| match event {
            Event::Snapshot(snapshot) => format!("{}", snapshot.revision.get()),
            Event::ConfigUpdated(_) => "config".to_string(),
            Event::OrderInvalidated(window) => format!("order {}", window.as_u32()),
        })
        .collect()
}

#[test]
fn batches_keep_the_last_of_states_in_a_row() {
    let state = |number: u64| Event::Snapshot(snapshot(number, None));
    assert_eq!(
        batched(vec![
            state(1),
            state(2),
            Event::ConfigUpdated(settings()),
            Event::OrderInvalidated(WindowServerId::new(8)),
            state(3),
            state(4),
        ]),
        ["2", "config", "order 8", "4"]
    );
    assert!(batched(vec![]).is_empty());
}

#[test]
fn batches_are_bounded() {
    let mut batch = Batch::new();
    for _ in 0..MAX_EVENTS_PER_BATCH {
        assert!(!batch.is_full());
        batch.handle_batched_event(Event::Snapshot(snapshot(1, None)));
    }
    assert!(batch.is_full());
    assert_eq!(MAX_EVENTS_PER_BATCH, 4096);
}

#[test]
fn coalescing_leads_to_the_same_state() {
    let events = || {
        vec![
            Event::Snapshot(snapshot(1, Some(target(8, 2)))),
            Event::Snapshot(snapshot(2, Some(target(9, 2)))),
            Event::ConfigUpdated(settings()),
            Event::Snapshot(snapshot(3, None)),
            Event::Snapshot(snapshot(4, Some(target(7, 2)))),
        ]
    };
    let apply = |actor: &mut Border, event: Event| match event {
        Event::Snapshot(snapshot) => actor.handle_snapshot(snapshot),
        Event::ConfigUpdated(settings) => actor.handle_config_updated(settings),
        Event::OrderInvalidated(window) => actor.handle_order_invalidated(window),
    };
    let mut one_by_one = Border::new(settings());
    for event in events() {
        apply(&mut one_by_one, event);
    }
    let mut coalesced = Border::new(settings());
    let mut batch = Batch::new();
    for event in events() {
        for ready in batch.handle_batched_event(event) {
            apply(&mut coalesced, ready);
        }
    }
    if let Some(ready) = batch.flush_pending_snapshot() {
        apply(&mut coalesced, ready);
    }
    assert_eq!(
        one_by_one.last_applied_revision,
        coalesced.last_applied_revision
    );
    let window = |actor: &Border| {
        actor
            .last_snapshot
            .as_ref()
            .and_then(|last| last.state.border_target)
            .map(|target| target.window_server_id)
    };
    assert_eq!(window(&one_by_one), Some(WindowServerId::new(7)));
    assert_eq!(window(&coalesced), Some(WindowServerId::new(7)));
}
