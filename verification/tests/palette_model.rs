//! Ranking, selection and navigation of the command palette.

use std::time::{Duration, Instant};

use rift::model::command_palette::{
    PaletteAction, PaletteEntry, PaletteEntryId, PaletteEntryKind, PaletteFocusOrigin, PaletteMode,
    PaletteModel, PaletteMru, PaletteScope, PaletteSnapshot,
};
use rift::model::fuzzy::fuzzy_score;
use rift::model::ids::WindowId;
use rift::model::text;

fn window_id(pid: i32, index: u32) -> WindowId {
    WindowId::new(pid, index)
}

fn window_entry(pid: i32, index: u32, title: &str) -> PaletteEntry {
    let window = window_id(pid, index);
    PaletteEntry::new(
        PaletteEntryId::Window(window),
        PaletteEntryKind::Window,
        title.to_string(),
        "Ghostty · Terminal · HP Z27k".to_string(),
        vec!["com.mitchellh.ghostty".to_string()],
        Some(pid),
        PaletteAction::FocusWindow {
            window_id: window,
            window_server_id: None,
        },
    )
}

fn app_entry(pid: i32, name: &str, has_windows: bool) -> PaletteEntry {
    let entry = PaletteEntry::new(
        PaletteEntryId::Application(pid),
        PaletteEntryKind::Application,
        name.to_string(),
        "Running application".to_string(),
        vec![name.to_string()],
        Some(pid),
        PaletteAction::ActivateApplication(pid),
    );
    if has_windows {
        entry.hidden_when_empty()
    } else {
        entry
    }
}

fn command_entry(id: &str, label: &str) -> PaletteEntry {
    PaletteEntry::new(
        PaletteEntryId::Command(id.to_string()),
        PaletteEntryKind::Command,
        label.to_string(),
        "Rift Command".to_string(),
        vec!["command".to_string()],
        None,
        PaletteAction::ReloadConfig,
    )
    .hidden_when_empty()
}

fn snapshot(entries: Vec<PaletteEntry>) -> PaletteSnapshot {
    PaletteSnapshot {
        entries,
        ..PaletteSnapshot::default()
    }
}

fn result_ids(model: &PaletteModel) -> Vec<PaletteEntryId> {
    model.results().iter().map(|entry| entry.id.clone()).collect()
}

#[test]
fn command_mode_should_show_only_commands_for_an_empty_query() {
    let command = command_entry("reload", "Reload Config");
    let mut model = PaletteModel::standard();
    model.begin_session(
        snapshot(vec![
            window_entry(1, 1, "rift"),
            app_entry(2, "Notes", false),
            command,
        ]),
        &PaletteMru::default(),
        PaletteMode::Commands,
    );

    assert_eq!(
        result_ids(&model),
        [PaletteEntryId::Command("reload".to_string())]
    );
}

#[test]
fn command_mode_should_ignore_leave_application_navigation() {
    let mut model = PaletteModel::standard();
    model.begin_session(
        snapshot(vec![command_entry("reload", "Reload Config")]),
        &PaletteMru::default(),
        PaletteMode::Commands,
    );

    let ignored = !model.leave_application(&PaletteMru::default());
    assert!(ignored && matches!(model.scope(), PaletteScope::Commands));
}

#[test]
fn command_mode_should_preserve_snapshot_order_for_equal_scores() {
    let mut model = PaletteModel::standard();
    model.begin_session(
        snapshot(vec![
            command_entry("workspace.0", "Switch Workspace → Zulu"),
            command_entry("workspace.1", "Switch Workspace → Alpha"),
        ]),
        &PaletteMru::default(),
        PaletteMode::Commands,
    );

    assert_eq!(
        result_ids(&model),
        [
            PaletteEntryId::Command("workspace.0".to_string()),
            PaletteEntryId::Command("workspace.1".to_string()),
        ]
    );
}

#[test]
fn empty_query_should_hide_apps_that_already_have_windows() {
    let offered = snapshot(vec![
        window_entry(1, 1, "rift"),
        app_entry(1, "Ghostty", true),
    ]);
    let mut model = PaletteModel::standard();
    model.set_snapshot(offered, &PaletteMru::default());

    assert_eq!(
        result_ids(&model),
        [PaletteEntryId::Window(window_id(1, 1))]
    );
}

#[test]
fn empty_query_should_rank_mru_window_first() {
    let first = window_id(1, 1);
    let second = window_id(2, 1);
    let offered = snapshot(vec![
        window_entry(1, 1, "alpha"),
        window_entry(2, 1, "beta"),
    ]);
    let mut mru = PaletteMru::default();
    mru.record_window(first);
    mru.record_window(second);
    let mut model = PaletteModel::standard();
    model.set_snapshot(offered, &mru);

    assert_eq!(
        model.selected_entry().map(|entry| &entry.id),
        Some(&PaletteEntryId::Window(second))
    );
}

#[test]
fn fuzzy_search_should_match_acronym() {
    assert!(fuzzy_score("gw", "ghostty window").is_some());
}

#[test]
fn fuzzy_search_should_match_chinese_directly() {
    assert!(fuzzy_score("飞书", "飞书消息").is_some());
}

#[test]
fn search_should_rank_exact_application_over_fuzzy_window() {
    let offered = snapshot(vec![
        window_entry(1, 1, "ghostty notes"),
        app_entry(1, "ghostty", true),
    ]);
    let mut model = PaletteModel::standard();
    let mru = PaletteMru::default();
    model.set_snapshot(offered, &mru);
    model.set_query("ghostty".to_string(), &mru);

    assert_eq!(
        model.selected_entry().map(|entry| entry.kind),
        Some(PaletteEntryKind::Application)
    );
}

#[test]
fn application_scope_should_only_show_that_apps_windows() {
    let offered = snapshot(vec![
        app_entry(1, "Ghostty", true),
        window_entry(1, 1, "one"),
        window_entry(2, 1, "two"),
    ]);
    let mut model = PaletteModel::standard();
    let mru = PaletteMru::default();
    model.set_snapshot(offered, &mru);
    model.set_query("ghostty".to_string(), &mru);
    assert!(model.expand_selected_application(&mru));

    assert_eq!(
        result_ids(&model),
        [PaletteEntryId::Window(window_id(1, 1))]
    );
}

#[test]
fn leaving_application_scope_should_restore_query() {
    let offered = snapshot(vec![
        app_entry(1, "Ghostty", true),
        window_entry(1, 1, "one"),
    ]);
    let mut model = PaletteModel::standard();
    let mru = PaletteMru::default();
    model.set_snapshot(offered, &mru);
    model.set_query("ghostty".to_string(), &mru);
    assert!(model.expand_selected_application(&mru));
    assert!(model.leave_application(&mru));

    assert_eq!(model.query(), "ghostty");
}

#[test]
fn snapshot_update_should_preserve_selected_entry_identity() {
    let mru = PaletteMru::default();
    let mut model = PaletteModel::standard();
    model.set_snapshot(
        snapshot(vec![
            window_entry(1, 1, "alpha"),
            window_entry(2, 1, "beta"),
        ]),
        &mru,
    );
    model.move_selection(1);
    model.set_snapshot(
        snapshot(vec![
            window_entry(2, 1, "beta changed"),
            window_entry(1, 1, "alpha"),
        ]),
        &mru,
    );

    assert_eq!(
        model.selected_entry().map(|entry| &entry.id),
        Some(&PaletteEntryId::Window(window_id(2, 1)))
    );
}

#[test]
fn application_action_should_prefer_its_mru_window() {
    let first = window_id(1, 1);
    let second = window_id(1, 2);
    let mut mru = PaletteMru::default();
    mru.record_window(first);
    mru.record_window(second);
    let mut model = PaletteModel::standard();
    model.set_snapshot(
        snapshot(vec![
            window_entry(1, 1, "first"),
            window_entry(1, 2, "second"),
        ]),
        &mru,
    );

    assert_eq!(
        model.preferred_window_for_application(1, &mru),
        Some(PaletteAction::FocusWindow {
            window_id: second,
            window_server_id: None,
        })
    );
}

#[test]
fn unmatched_query_should_clear_selection() {
    let mru = PaletteMru::default();
    let mut model = PaletteModel::standard();
    model.set_snapshot(snapshot(vec![window_entry(1, 1, "alpha")]), &mru);
    model.set_query("missing".to_string(), &mru);

    assert!(model.selected_entry().is_none());
}

#[test]
fn filtering_should_stay_interactive_with_five_hundred_entries() {
    let entries = (1..=500)
        .map(|index| window_entry(index, 1, &format!("project window {index}")))
        .collect();
    let mru = PaletteMru::default();
    let mut model = PaletteModel::standard();
    model.set_snapshot(snapshot(entries), &mru);
    let started = Instant::now();
    for query in ["p", "pr", "pro", "proj", "project", "project 42"].repeat(20) {
        model.set_query(query.to_string(), &mru);
    }
    let elapsed = started.elapsed();
    println!("120 palette filters over 500 entries: {elapsed:?}");

    assert!(elapsed < Duration::from_millis(800));
}

#[test]
fn ranking_should_preserve_the_complete_result_set_for_scrolling() {
    let entries = (1..=25)
        .map(|index| window_entry(index, 1, &format!("window {index}")))
        .collect();
    let mut model = PaletteModel::standard();
    model.set_snapshot(snapshot(entries), &PaletteMru::default());

    assert_eq!(model.results().len(), 25);
    model.move_selection(24);
    assert_eq!(model.selected_index(), Some(24));
}

#[test]
fn each_kind_of_match_has_its_score() {
    assert_eq!(fuzzy_score("", "anything"), Some(0));
    assert_eq!(fuzzy_score("ghostty", "ghostty"), Some(10_000));
    assert_eq!(fuzzy_score("gh", "ghostty"), Some(9_000 - 7));
    assert_eq!(fuzzy_score("gw", "ghostty window"), Some(8_000 - 14));
    assert_eq!(fuzzy_score("win", "ghostty window"), Some(7_000 - 8 - 14));
    assert_eq!(fuzzy_score("gty", "ghostty"), Some(5_000 - 4 - 7));
    assert_eq!(fuzzy_score("yg", "ghostty"), None);
    assert_eq!(fuzzy_score("x", ""), None);
}

#[test]
fn scores_count_bytes_not_characters() {
    assert_eq!(fuzzy_score("飞书", "飞书消息"), Some(9_000 - 12));
    assert_eq!(fuzzy_score("消息", "飞书消息"), Some(7_000 - 6 - 12));
    assert_eq!(fuzzy_score("飞消", "飞书消息"), Some(5_000 - 5 - 12));
}

#[test]
fn acronyms_take_the_first_character_of_each_word() {
    let letters = |value: &str| -> String {
        text::acronym(&value.chars().collect()).into_iter().collect()
    };
    assert_eq!(letters("visual studio code"), "vsc");
    assert_eq!(letters("  a--b  c3 "), "abc");
    assert_eq!(letters("über.café_ñandú"), "ücñ");
    assert_eq!(letters("--"), "");
}

#[test]
fn queries_match_without_regard_to_case() {
    let mru = PaletteMru::default();
    let mut model = PaletteModel::standard();
    model.set_snapshot(
        snapshot(vec![
            window_entry(1, 1, "ÜBERSICHT"),
            window_entry(2, 1, "notes"),
        ]),
        &mru,
    );
    model.set_query("übersicht".to_string(), &mru);
    assert_eq!(
        result_ids(&model),
        [PaletteEntryId::Window(window_id(1, 1))]
    );
    model.set_query("NOTES".to_string(), &mru);
    assert_eq!(model.query(), "NOTES");
    assert_eq!(
        result_ids(&model),
        [PaletteEntryId::Window(window_id(2, 1))]
    );
}

#[test]
fn every_word_of_the_query_must_match() {
    let mru = PaletteMru::default();
    let mut model = PaletteModel::standard();
    model.set_snapshot(
        snapshot(vec![
            window_entry(1, 1, "project alpha"),
            window_entry(2, 1, "project beta"),
        ]),
        &mru,
    );
    model.set_query("project\u{2003}beta".to_string(), &mru);
    assert_eq!(
        result_ids(&model),
        [PaletteEntryId::Window(window_id(2, 1))]
    );
    model.set_query("project zzz".to_string(), &mru);
    assert!(model.results().is_empty());
    model.set_query("  \t ".to_string(), &mru);
    assert_eq!(model.results().len(), 2);
}

#[test]
fn ties_are_broken_by_the_label() {
    let mru = PaletteMru::default();
    let mut model = PaletteModel::standard();
    model.set_snapshot(
        snapshot(vec![
            window_entry(1, 1, "delta"),
            window_entry(2, 1, "alpha"),
            window_entry(3, 1, "cedar"),
        ]),
        &mru,
    );
    let labels: Vec<String> = model
        .results()
        .iter()
        .map(|entry| entry.primary.clone())
        .collect();
    assert_eq!(labels, ["alpha", "cedar", "delta"]);
}

#[test]
fn penalties_and_places_move_entries() {
    let mru = PaletteMru::default();
    let mut model = PaletteModel::standard();
    model.set_snapshot(
        snapshot(vec![
            window_entry(1, 1, "same").with_search_penalty(3_000),
            window_entry(2, 1, "same").with_search_penalty(-5),
            window_entry(3, 1, "same").with_location_boosts(false, true),
            window_entry(4, 1, "same").with_location_boosts(true, true),
        ]),
        &mru,
    );
    model.set_query("same".to_string(), &mru);
    let pids: Vec<Option<i32>> = model.results().iter().map(|entry| entry.app_pid).collect();
    assert_eq!(pids, [Some(4), Some(3), Some(2), Some(1)]);
}

#[test]
fn selection_moves_round_both_ends() {
    let mut model = PaletteModel::standard();
    let entries = (1..=3)
        .map(|index| window_entry(index, 1, &format!("window {index}")))
        .collect();
    model.set_snapshot(snapshot(entries), &PaletteMru::default());

    model.move_selection(-1);
    assert_eq!(model.selected_index(), Some(2));
    model.move_selection(1);
    assert_eq!(model.selected_index(), Some(0));
    model.move_selection(-7);
    assert_eq!(model.selected_index(), Some(2));
    model.move_selection(isize::MIN);
    model.move_selection(isize::MAX);
    model.move_selection(1);
    assert_eq!(model.selected_index(), Some(2));
    assert!(!model.select_index(3));
    assert!(model.select_index(1));
    assert_eq!(model.selected_index(), Some(1));
    assert_eq!(model.result_count(), 3);
}

#[test]
fn empty_palette_has_no_selection_to_move() {
    let mut model = PaletteModel::new();
    model.move_selection(1);
    assert_eq!(model.selected_index(), None);
    assert!(!model.expand_selected_application(&PaletteMru::default()));
    assert!(!model.select_index(0));
}

#[test]
fn expanding_needs_a_selected_application() {
    let mru = PaletteMru::default();
    let mut model = PaletteModel::standard();
    model.set_snapshot(
        snapshot(vec![
            window_entry(1, 1, "one"),
            app_entry(2, "zed", false),
        ]),
        &mru,
    );
    assert!(!model.expand_selected_application(&mru));
    model.move_selection(1);
    assert!(model.expand_selected_application(&mru));
    assert!(matches!(
        model.scope(),
        PaletteScope::Application { pid: 2, .. }
    ));
    assert_eq!(model.query(), "");
    assert!(model.results().is_empty());
    assert!(model.leave_application(&mru));
    assert_eq!(model.results().len(), 2);
}

#[test]
fn preferred_window_breaks_ties_by_place_and_then_takes_the_last() {
    let mru = PaletteMru::default();
    let mut model = PaletteModel::standard();
    model.set_snapshot(
        snapshot(vec![
            window_entry(1, 1, "one"),
            window_entry(1, 2, "two").with_location_boosts(false, true),
            window_entry(1, 3, "three").with_location_boosts(true, false),
            window_entry(1, 4, "four").with_location_boosts(true, false),
            window_entry(1, 5, "five"),
        ]),
        &mru,
    );
    assert_eq!(
        model.preferred_window_for_application(1, &mru),
        Some(PaletteAction::FocusWindow {
            window_id: window_id(1, 4),
            window_server_id: None,
        })
    );
    assert_eq!(model.preferred_window_for_application(2, &mru), None);
}

#[test]
fn history_scores_follow_the_focus() {
    let mut mru = PaletteMru::default();
    let first = window_id(1, 1);
    let second = window_id(2, 1);
    assert_eq!(mru.score(&PaletteEntryId::Window(first)), 0);
    mru.record_window(first);
    mru.record_window(second);
    let of_first = mru.score(&PaletteEntryId::Window(first));
    let of_second = mru.score(&PaletteEntryId::Window(second));
    assert_eq!(of_second, of_first + 1);
    assert_eq!(mru.score(&PaletteEntryId::Application(2)), of_second);
    assert_eq!(mru.score(&PaletteEntryId::Command("x".to_string())), 0);
    assert_eq!(mru.window_sequence(first), 1);
    assert_eq!(mru.window_sequence(window_id(9, 9)), 0);
}

#[test]
fn sessions_start_over() {
    let mru = PaletteMru::default();
    let mut model = PaletteModel::standard();
    model.set_query("zzz".to_string(), &mru);
    let origin = PaletteFocusOrigin {
        app_pid: 4,
        window_id: None,
        window_server_id: None,
    };
    model.begin_session(
        PaletteSnapshot {
            entries: vec![window_entry(1, 1, "one")],
            focus_origin: Some(origin),
            target_display_id: Some(7),
        },
        &mru,
        PaletteMode::Windows,
    );
    assert_eq!(model.query(), "");
    assert_eq!(model.focus_origin(), Some(origin));
    assert_eq!(model.target_display_id(), Some(7));
    assert!(matches!(model.scope(), PaletteScope::Root));
    assert_eq!(model.selected_index(), Some(0));
}

#[test]
fn leaving_shows_the_same_results_again() {
    let mru = PaletteMru::default();
    let mut model = PaletteModel::standard();
    model.set_snapshot(
        snapshot(vec![
            window_entry(1, 1, "ghost story"),
            app_entry(2, "Ghostty", true),
            window_entry(2, 1, "shell"),
        ]),
        &mru,
    );
    model.set_query("ghostty".to_string(), &mru);
    let before = result_ids(&model);
    assert!(model.expand_selected_application(&mru));
    assert_ne!(result_ids(&model), before);
    assert!(model.leave_application(&mru));
    assert_eq!(result_ids(&model), before);
    assert_eq!(model.selected_index(), Some(0));
}

#[test]
fn results_descend_by_score() {
    let mru = PaletteMru::default();
    let mut model = PaletteModel::standard();
    model.set_snapshot(
        snapshot(vec![
            window_entry(1, 1, "n o t e"),
            window_entry(2, 1, "my note"),
            window_entry(3, 1, "note taking"),
            window_entry(4, 1, "note"),
            window_entry(5, 1, "nothing of these ends"),
        ]),
        &mru,
    );
    model.set_query("note".to_string(), &mru);
    let pids: Vec<Option<i32>> = model.results().iter().map(|entry| entry.app_pid).collect();
    assert_eq!(pids, [Some(4), Some(3), Some(1), Some(5), Some(2)]);
}

#[test]
fn copies_of_entries_match_alike() {
    let entry = window_entry(1, 1, "Übersicht").with_location_boosts(true, false);
    let copy = entry.clone();
    assert_eq!(copy, entry);
    let mru = PaletteMru::default();
    let mut model = PaletteModel::standard();
    model.set_snapshot(snapshot(vec![copy]), &mru);
    model.set_query("über".to_string(), &mru);
    assert_eq!(model.results().len(), 1);
}

#[test]
fn joined_queries_show_what_both_show() {
    let mru = PaletteMru::default();
    let mut model = PaletteModel::standard();
    model.set_snapshot(
        snapshot(vec![
            window_entry(1, 1, "project alpha notes"),
            window_entry(2, 1, "project beta"),
            window_entry(3, 1, "alpha release"),
            window_entry(4, 1, "alpha project"),
        ]),
        &mru,
    );
    let mut shown = |query: &str, mru: &PaletteMru| {
        model.set_query(query.to_string(), mru);
        result_ids(&model)
    };
    let project = shown("project", &mru);
    let alpha = shown("alpha", &mru);
    let both = shown("project alpha", &mru);
    assert_eq!(both.len(), 2);
    for index in 1..=4 {
        let id = PaletteEntryId::Window(window_id(index, 1));
        assert_eq!(
            both.contains(&id),
            project.contains(&id) && alpha.contains(&id)
        );
    }
    assert_eq!(shown("alpha project", &mru), both);
    assert_eq!(shown("PROJECT  Alpha", &mru), both);
    let mut recent = PaletteMru::default();
    recent.record_window(window_id(1, 1));
    assert_eq!(shown("project alpha", &recent), both);
}

#[test]
fn sessions_do_not_remember_each_other() {
    let mru = PaletteMru::default();
    let entries = || {
        vec![
            window_entry(1, 1, "one"),
            command_entry("a", "Zulu"),
            command_entry("b", "Alpha"),
        ]
    };
    let mut fresh = PaletteModel::new();
    fresh.begin_session(snapshot(entries()), &mru, PaletteMode::Commands);
    let mut used = PaletteModel::new();
    used.set_snapshot(snapshot(vec![app_entry(4, "other", false)]), &mru);
    used.set_query("oth".to_string(), &mru);
    used.expand_selected_application(&mru);
    used.begin_session(snapshot(entries()), &mru, PaletteMode::Commands);
    assert_eq!(result_ids(&used), result_ids(&fresh));
    assert_eq!(used.results().len(), 2);
    assert_eq!(used.selected_index(), Some(0));
    assert_eq!(used.query(), "");
}

#[test]
fn leaving_forgets_what_was_done_inside() {
    let mru = PaletteMru::default();
    let mut model = PaletteModel::standard();
    model.set_snapshot(
        snapshot(vec![
            window_entry(2, 1, "shell"),
            app_entry(2, "Ghostty", true),
            window_entry(2, 2, "editor"),
            app_entry(3, "Ghost", true),
        ]),
        &mru,
    );
    model.set_query("ghost".to_string(), &mru);
    model.move_selection(1);
    let before = result_ids(&model);
    assert!(model.expand_selected_application(&mru));
    model.set_query("edit".to_string(), &mru);
    model.move_selection(3);
    model.select_index(0);
    assert!(model.leave_application(&mru));
    assert_eq!(model.query(), "ghost");
    assert_eq!(result_ids(&model), before);
    assert_eq!(model.selected_index(), Some(0));
    assert!(!model.leave_application(&mru));
    assert_eq!(result_ids(&model), before);
}

#[test]
fn lowercase_forms_are_made_word_by_word() {
    assert_eq!(text::normalize(""), "");
    assert_eq!(text::normalize("Open-In TAB 9 [Z@]"), "open-in tab 9 [z@]");
    assert_eq!(text::normalize("ΟΔΟΣ ΣΟΦΟΣ"), "οδος σοφος");
    for space in [" ", "\t", "\u{a0}", "\u{2003}", "\u{3000}"] {
        for (left, right) in [("ΟΔΟΣ", "Α"), ("AΣ'", "Σ"), ("İ", "K"), ("Notes", "ΑΣ")] {
            assert_eq!(
                text::normalize(&format!("{left}{space}{right}")),
                format!("{}{space}{}", text::normalize(left), text::normalize(right))
            );
        }
    }
    for value in ["ΑΣ", "aΣB", "AΣ b", "Straße", "İI", "ÀA"] {
        assert_eq!(
            text::normalize(&value.to_ascii_lowercase()),
            text::normalize(value)
        );
        assert_eq!(
            text::normalize(&value.to_ascii_uppercase()),
            text::normalize(value)
        );
    }
}

#[test]
fn typed_queries_join_beyond_ascii() {
    let mru = PaletteMru::default();
    let mut model = PaletteModel::standard();
    model.set_snapshot(
        snapshot(vec![
            window_entry(1, 1, "ΟΔΟΣ Notes"),
            window_entry(2, 1, "ΟΔΟΣ"),
            window_entry(3, 1, "Notes"),
            window_entry(4, 1, "notes for the οδος"),
        ]),
        &mru,
    );
    let mut recent = PaletteMru::default();
    recent.record_window(window_id(4, 1));
    let mut shown = |query: &str, mru: &PaletteMru| {
        model.set_query(query.to_string(), mru);
        assert_eq!(model.query(), query);
        result_ids(&model)
    };
    let street = shown("ΟΔΟΣ", &mru);
    let notes = shown("Notes", &mru);
    let both = shown("ΟΔΟΣ Notes", &mru);
    assert_eq!((street.len(), notes.len(), both.len()), (3, 3, 2));
    for index in 1..=4 {
        let id = PaletteEntryId::Window(window_id(index, 1));
        assert_eq!(both.contains(&id), street.contains(&id) && notes.contains(&id));
    }
    assert_eq!(shown("Notes ΟΔΟΣ", &mru), both);
    assert_eq!(shown("ΟΔΟΣ nOTES", &recent), both);
}
