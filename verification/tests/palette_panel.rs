//! The command palette's panel.

use rift::model::command_palette::PaletteEntryKind;
use rift::ui::command_palette::{
    choose_screen, command_input, count_label, fallback_glyph, key_input, panel_height,
    result_document_height, results_viewport_height, search_field_y, visible_row_range,
    CommandPalettePanel, Drawing, EditingCommand, PaletteInput, PalettePanelMode,
    PaletteRenderRow, RowDrawing, ScreenChoice, ROW_HEIGHT,
};

fn rows(count: usize) -> Vec<PaletteRenderRow> {
    (0..count)
        .map(|index| PaletteRenderRow {
            primary: format!("row {index}"),
            secondary: String::new(),
            kind: PaletteEntryKind::Window,
            app_pid: None,
        })
        .collect()
}

#[test]
fn document_height_grows_beyond_the_viewport_without_truncating_rows() {
    assert_eq!(
        result_document_height(25, ROW_HEIGHT * 10),
        ROW_HEIGHT * 25
    );
    assert_eq!(result_document_height(2, ROW_HEIGHT * 10), ROW_HEIGHT * 10);
}

#[test]
fn drawing_only_visits_rows_intersecting_the_dirty_viewport() {
    let row_height = ROW_HEIGHT as f64;
    let top = row_height * 10.0 + 1.0;
    let bottom = top + row_height * 3.0;
    let first = (top / row_height).floor() as usize;
    let past = (bottom / row_height).ceil() as usize;

    assert_eq!(visible_row_range(first, past, 25), (10, 14));
}

#[test]
fn compact_panel_height_tracks_visible_rows() {
    assert_eq!(panel_height(8), 410);
    assert_eq!(panel_height(3), 190);
    assert_eq!(results_viewport_height(8), 352);
}

#[test]
fn a_panel_always_has_room_for_one_row() {
    assert_eq!(panel_height(0), panel_height(1));
    assert_eq!(results_viewport_height(0), 44);
    assert_eq!(search_field_y(0), 60);
    assert_eq!(search_field_y(8), 368);
    assert_eq!(CommandPalettePanel::new(0).max_visible_rows, 1);
}

#[test]
fn rows_past_the_end_are_not_visited() {
    assert_eq!(visible_row_range(3, 9, 5), (3, 5));
    assert_eq!(visible_row_range(7, 9, 5), (5, 5));
}

#[test]
fn the_panel_grows_with_its_results() {
    let mut panel = CommandPalettePanel::new(8);
    let plan = panel.render(rows(3), Some(2));
    let layout = plan.layout.expect("a lower panel");
    assert_eq!(layout.height, 190);
    assert_eq!(layout.search_y, 148);
    assert_eq!(layout.viewport_height, 132);
    assert_eq!(plan.count_label, "03");
    assert_eq!(plan.document_height, 132);
    assert_eq!(plan.scroll_to, Some(88));

    let same = panel.render(rows(3), None);
    assert!(same.layout.is_none());
    assert_eq!(same.scroll_to, None);

    let many = panel.render(rows(25), Some(0));
    assert_eq!(many.layout.map(|layout| layout.height), Some(410));
    assert_eq!(many.document_height, 1100);
    assert_eq!(panel.rows.len(), 25);

    let none = panel.render(rows(0), None);
    assert_eq!(none.layout.map(|layout| layout.height), Some(102));
    assert_eq!(none.count_label, "00");
    assert_eq!(none.document_height, 44);
}

#[test]
fn counts_have_two_digits_at_least() {
    assert_eq!(count_label(0), "00");
    assert_eq!(count_label(7), "07");
    assert_eq!(count_label(10), "10");
    assert_eq!(count_label(2048), "2048");
}

#[test]
fn drawing_marks_the_selected_row() {
    let mut panel = CommandPalettePanel::new(8);
    assert!(matches!(panel.draw_results(0, 5), Drawing::Empty));
    panel.render(rows(4), Some(2));
    match panel.draw_results(1, 9) {
        Drawing::Rows(drawn) => assert_eq!(
            drawn,
            [
                RowDrawing {
                    index: 1,
                    y: 44,
                    highlighted: false,
                },
                RowDrawing {
                    index: 2,
                    y: 88,
                    highlighted: true,
                },
                RowDrawing {
                    index: 3,
                    y: 132,
                    highlighted: false,
                },
            ]
        ),
        Drawing::Empty => panic!("there are rows"),
    }
    match panel.draw_results(6, 2) {
        Drawing::Rows(drawn) => assert!(drawn.is_empty()),
        Drawing::Empty => panic!("there are rows"),
    }
}

#[test]
fn clicks_hit_rows_only() {
    let mut panel = CommandPalettePanel::new(8);
    assert_eq!(panel.click(0), None);
    panel.render(rows(2), None);
    assert_eq!(panel.click(1), Some(PaletteInput::ClickResult(1)));
    assert_eq!(panel.click(2), None);
}

#[test]
fn keys_navigate() {
    assert_eq!(key_input(53), Some(PaletteInput::Cancel));
    assert_eq!(key_input(126), Some(PaletteInput::MoveSelection(-1)));
    assert_eq!(key_input(125), Some(PaletteInput::MoveSelection(1)));
    assert_eq!(key_input(36), Some(PaletteInput::Execute));
    assert_eq!(key_input(76), Some(PaletteInput::Execute));
    assert_eq!(key_input(124), Some(PaletteInput::ExpandApplication));
    assert_eq!(key_input(123), Some(PaletteInput::LeaveApplication));
    assert_eq!(key_input(0), None);
}

#[test]
fn editing_commands_navigate() {
    let meaning = [
        (EditingCommand::MoveUp, Some(PaletteInput::MoveSelection(-1))),
        (EditingCommand::MoveDown, Some(PaletteInput::MoveSelection(1))),
        (EditingCommand::InsertNewline, Some(PaletteInput::Execute)),
        (
            EditingCommand::InsertNewlineIgnoringFieldEditor,
            Some(PaletteInput::Execute),
        ),
        (EditingCommand::CancelOperation, Some(PaletteInput::Cancel)),
        (
            EditingCommand::MoveRight,
            Some(PaletteInput::ExpandApplication),
        ),
        (
            EditingCommand::MoveLeft,
            Some(PaletteInput::LeaveApplication),
        ),
        (EditingCommand::Other, None),
    ];
    for (command, input) in meaning {
        assert_eq!(command_input(command), input);
    }
}

#[test]
fn the_wanted_screen_comes_first() {
    let screens = vec![Some(4), None, Some(9), Some(9)];
    assert_eq!(
        choose_screen(Some(9), &screens, true),
        ScreenChoice::Listed(2)
    );
    assert_eq!(choose_screen(Some(5), &screens, true), ScreenChoice::Main);
    assert_eq!(choose_screen(None, &screens, true), ScreenChoice::Main);
    assert_eq!(
        choose_screen(None, &screens, false),
        ScreenChoice::Nowhere
    );
}

#[test]
fn showing_and_hiding() {
    let mut panel = CommandPalettePanel::new(8);
    let choice = panel.show(
        Some(4),
        "query",
        PalettePanelMode::Commands,
        &vec![Some(4)],
        true,
    );
    assert_eq!(choice, ScreenChoice::Listed(0));
    assert_eq!(panel.query, "query");
    assert_eq!(panel.header, PalettePanelMode::Commands);
    assert!(panel.visible);
    panel.set_query("other");
    assert_eq!(panel.query, "other");
    panel.order_out();
    assert!(!panel.visible);
    assert_eq!(panel.layout().height, 410);
}

#[test]
fn kinds_have_their_glyphs() {
    assert_eq!(fallback_glyph(PaletteEntryKind::Window), "□");
    assert_eq!(fallback_glyph(PaletteEntryKind::Application), "◉");
    assert_eq!(fallback_glyph(PaletteEntryKind::Command), "›_");
}
