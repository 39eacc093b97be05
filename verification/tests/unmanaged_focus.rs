//! Focus among the windows that are not managed.

use rift::actor::reactor::unmanaged_focus::{Action, History};
use rift::model::ids::WindowId;

fn window(index: u32) -> WindowId {
    WindowId::new(index as i32, index)
}

#[test]
fn toggle_switches_between_mru_unmanaged_and_last_managed() {
    let mut history = History::default();
    let managed = window(1);
    let unmanaged = window(2);
    history.record("display", unmanaged);

    let from_managed = history.target(
        "display",
        &[unmanaged],
        Some(managed),
        Some(managed),
        Action::Toggle,
    );
    let from_unmanaged = history.target(
        "display",
        &[unmanaged],
        Some(unmanaged),
        Some(managed),
        Action::Toggle,
    );

    assert_eq!(
        (from_managed, from_unmanaged),
        (Some(unmanaged), Some(managed))
    );
}

#[test]
fn cycle_visits_each_unmanaged_window_before_wrapping() {
    let mut history = History::default();
    let first = window(1);
    let second = window(2);
    let third = window(3);
    let candidates = [first, second, third];

    let next = history.target("display", &candidates, Some(first), None, Action::Cycle);
    let after_next = history.target("display", &candidates, next, None, Action::Cycle);
    let wrapped = history.target("display", &candidates, after_next, None, Action::Cycle);

    assert_eq!(
        (next, after_next, wrapped),
        (Some(second), Some(third), Some(first))
    );
}

#[test]
fn closed_windows_are_removed_when_candidates_are_reconciled() {
    let mut history = History::default();
    let closed = window(1);
    let remaining = window(2);
    history.record("display", closed);
    history.record("display", remaining);

    let target = history.target("display", &[remaining], None, None, Action::Toggle);

    assert_eq!(target, Some(remaining));
}

#[test]
fn a_window_is_on_one_display_at_a_time() {
    let mut history = History::default();
    history.record("left", window(1));
    history.record("left", window(2));
    history.record("right", window(2));

    let candidates = [window(1), window(2)];
    let left = history.target("left", &candidates, None, None, Action::Toggle);
    assert_eq!(left, Some(window(1)));
    let right = history.target("right", &candidates, None, None, Action::Toggle);
    assert_eq!(right, Some(window(2)));
}

#[test]
fn closed_windows_and_applications_are_forgotten() {
    let mut history = History::default();
    history.record("display", WindowId::new(1, 1));
    history.record("display", WindowId::new(1, 2));
    history.record("display", WindowId::new(2, 1));
    history.remove_window(WindowId::new(2, 1));
    let all = [
        WindowId::new(2, 1),
        WindowId::new(1, 1),
        WindowId::new(1, 2),
    ];
    assert_eq!(
        history.target("display", &all, None, None, Action::Toggle),
        Some(WindowId::new(1, 2))
    );
    history.remove_app(1);
    assert_eq!(
        history.target("display", &all, None, None, Action::Toggle),
        Some(WindowId::new(2, 1))
    );
}

#[test]
fn without_candidates_there_is_no_target() {
    let mut history = History::default();
    history.record("display", window(1));
    assert_eq!(
        history.target("display", &[], Some(window(1)), None, Action::Cycle),
        None
    );
    assert_eq!(
        history.target("display", &[], None, Some(window(3)), Action::Toggle),
        None
    );
}

#[test]
fn cycling_from_elsewhere_starts_with_the_latest() {
    let mut history = History::default();
    history.record("display", window(2));
    let candidates = [window(1), window(2)];
    assert_eq!(
        history.target("display", &candidates, Some(window(9)), None, Action::Cycle),
        Some(window(2))
    );
}

#[test]
fn removing_an_application_removes_its_windows_in_any_order() {
    let recorded = || {
        let mut history = History::default();
        history.record("left", WindowId::new(2, 1));
        history.record("left", WindowId::new(1, 1));
        history.record("right", WindowId::new(3, 1));
        history.record("right", WindowId::new(2, 2));
        history.record("right", WindowId::new(1, 2));
        history.record("right", WindowId::new(1, 3));
        history
    };
    let mut at_once = recorded();
    at_once.remove_app(1);
    let mut forwards = recorded();
    let mut backwards = recorded();
    for index in 1..=3 {
        forwards.remove_window(WindowId::new(1, index));
        backwards.remove_window(WindowId::new(1, 4 - index));
    }
    let left = [WindowId::new(1, 1), WindowId::new(2, 1)];
    let right = [
        WindowId::new(3, 1),
        WindowId::new(1, 2),
        WindowId::new(1, 3),
        WindowId::new(2, 2),
    ];
    for mut history in [at_once, forwards, backwards] {
        assert_eq!(
            history.target("left", &left, None, None, Action::Toggle),
            Some(WindowId::new(2, 1))
        );
        let mut focused = None;
        let mut visited = Vec::new();
        for _ in 0..4 {
            focused = history.target("right", &right, focused, None, Action::Cycle);
            visited.push(focused);
        }
        assert_eq!(
            visited,
            [
                Some(WindowId::new(2, 2)),
                Some(WindowId::new(3, 1)),
                Some(WindowId::new(1, 2)),
                Some(WindowId::new(1, 3)),
            ]
        );
    }
}
