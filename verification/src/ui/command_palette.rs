//! The command palette's panel: its input, its rows and its measures in points.

use vstd::prelude::*;
use vstd::string::StringExecFns;

use crate::model::palette_entry::PaletteEntryKind;

verus! {

pub const SEARCH_FIELD_HEIGHT: u128 = 28;

pub const SEARCH_RESULTS_GAP: u128 = 9;

/// How far the search text is moved down.
pub const SEARCH_TEXT_DROP: u128 = 3;

pub const ROW_HEIGHT: u128 = 44;

pub const RESULTS_BOTTOM_PADDING: u128 = 10;

pub const TOP_PADDING: u128 = 11;

/// What the panel tells the palette.
#[derive(Debug, PartialEq, Eq)]
pub enum PaletteInput {
    QueryChanged(String),
    MoveSelection(isize),
    Execute,
    ExpandApplication,
    LeaveApplication,
    Cancel,
    ClickResult(usize),
}

impl Clone for PaletteInput {
    fn clone(&self) -> (result: Self)
        ensures
            result == *self,
    {
        match self {
            PaletteInput::QueryChanged(query) => PaletteInput::QueryChanged(query.clone()),
            PaletteInput::MoveSelection(delta) => PaletteInput::MoveSelection(*delta),
            PaletteInput::Execute => PaletteInput::Execute,
            PaletteInput::ExpandApplication => PaletteInput::ExpandApplication,
            PaletteInput::LeaveApplication => PaletteInput::LeaveApplication,
            PaletteInput::Cancel => PaletteInput::Cancel,
            PaletteInput::ClickResult(index) => PaletteInput::ClickResult(*index),
        }
    }
}

/// One result as the panel shows it.
#[derive(Debug, PartialEq, Eq)]
pub struct PaletteRenderRow {
    pub primary: String,
    pub secondary: String,
    pub kind: PaletteEntryKind,
    pub app_pid: Option<i32>,
}

impl Clone for PaletteRenderRow {
    fn clone(&self) -> (result: Self)
        ensures
            result == *self,
    {
        PaletteRenderRow {
            primary: self.primary.clone(),
            secondary: self.secondary.clone(),
            kind: self.kind,
            app_pid: self.app_pid,
        }
    }
}

/// What the panel's header says is searched for.
#[derive(Debug, Clone, Copy, PartialEq, Eq, Structural)]
pub enum PalettePanelMode {
    Windows,
    Commands,
}

/// What a key means while the search field has the focus: escape, the arrows,
/// and either return key. Any other key is text.
pub open spec fn key_meaning(key_code: u16) -> Option<PaletteInput> {
    if key_code == 53 {
        Some(PaletteInput::Cancel)
    } else if key_code == 126 {
        Some(PaletteInput::MoveSelection((-1) as isize))
    } else if key_code == 125 {
        Some(PaletteInput::MoveSelection(1))
    } else if key_code == 36 || key_code == 76 {
        Some(PaletteInput::Execute)
    } else if key_code == 124 {
        Some(PaletteInput::ExpandApplication)
    } else if key_code == 123 {
        Some(PaletteInput::LeaveApplication)
    } else {
        None
    }
}

pub fn key_input(key_code: u16) -> (input: Option<PaletteInput>)
    ensures
        input == key_meaning(key_code),
{
    match key_code {
        53 => Some(PaletteInput::Cancel),
        126 => Some(PaletteInput::MoveSelection(-1)),
        125 => Some(PaletteInput::MoveSelection(1)),
        36 | 76 => Some(PaletteInput::Execute),
        124 => Some(PaletteInput::ExpandApplication),
        123 => Some(PaletteInput::LeaveApplication),
        _ => None,
    }
}

/// A command of the text system, as far as the palette knows it.
#[derive(Debug, Clone, Copy, PartialEq, Eq, Structural)]
pub enum EditingCommand {
    MoveUp,
    MoveDown,
    InsertNewline,
    InsertNewlineIgnoringFieldEditor,
    CancelOperation,
    MoveRight,
    MoveLeft,
    Other,
}

/// What a command of the text system means, which is what its key means.
pub open spec fn command_meaning(command: EditingCommand) -> Option<PaletteInput> {
    match command {
        EditingCommand::MoveUp => key_meaning(126),
        EditingCommand::MoveDown => key_meaning(125),
        EditingCommand::InsertNewline => key_meaning(36),
        EditingCommand::InsertNewlineIgnoringFieldEditor => key_meaning(36),
        EditingCommand::CancelOperation => key_meaning(53),
        EditingCommand::MoveRight => key_meaning(124),
        EditingCommand::MoveLeft => key_meaning(123),
        EditingCommand::Other => None,
    }
}

/// What a command of the text system means. `None` leaves it to the field.
pub fn command_input(command: EditingCommand) -> (input: Option<PaletteInput>)
    ensures
        input == command_meaning(command),
{
    match command {
        EditingCommand::MoveUp => Some(PaletteInput::MoveSelection(-1)),
        EditingCommand::MoveDown => Some(PaletteInput::MoveSelection(1)),
        EditingCommand::InsertNewline => Some(PaletteInput::Execute),
        EditingCommand::InsertNewlineIgnoringFieldEditor => Some(PaletteInput::Execute),
        EditingCommand::CancelOperation => Some(PaletteInput::Cancel),
        EditingCommand::MoveRight => Some(PaletteInput::ExpandApplication),
        EditingCommand::MoveLeft => Some(PaletteInput::LeaveApplication),
        EditingCommand::Other => None,
    }
}

/// At least one row is always shown.
pub open spec fn shown_rows(visible_rows: usize) -> int {
    if visible_rows == 0 {
        1
    } else {
        visible_rows as int
    }
}

/// The height of the list that shows so many rows.
pub fn results_viewport_height(visible_rows: usize) -> (height: u128)
    ensures
        height == shown_rows(visible_rows) * ROW_HEIGHT,
{
    if visible_rows == 0 {
        ROW_HEIGHT
    } else {
        visible_rows as u128 * ROW_HEIGHT
    }
}

/// The height of the panel that shows so many rows.
pub fn panel_height(visible_rows: usize) -> (height: u128)
    ensures
        height == RESULTS_BOTTOM_PADDING + shown_rows(visible_rows) * ROW_HEIGHT
            + SEARCH_RESULTS_GAP + SEARCH_FIELD_HEIGHT + TOP_PADDING,
{
    RESULTS_BOTTOM_PADDING + results_viewport_height(visible_rows) + SEARCH_RESULTS_GAP
        + SEARCH_FIELD_HEIGHT + TOP_PADDING
}

/// How far above the panel's bottom the search field begins.
pub fn search_field_y(visible_rows: usize) -> (y: u128)
    ensures
        y == RESULTS_BOTTOM_PADDING + shown_rows(visible_rows) * ROW_HEIGHT + SEARCH_RESULTS_GAP
            - SEARCH_TEXT_DROP,
{
    RESULTS_BOTTOM_PADDING + results_viewport_height(visible_rows) + SEARCH_RESULTS_GAP
        - SEARCH_TEXT_DROP
}

/// The height of all rows together. It fills the viewport at least.
pub fn result_document_height(row_count: usize, viewport_height: u128) -> (height: u128)
    ensures
        height == (if row_count * ROW_HEIGHT > viewport_height {
            row_count * ROW_HEIGHT
        } else {
            viewport_height as int
        }),
{
    let rows_height: u128 = row_count as u128 * ROW_HEIGHT;
    if rows_height > viewport_height {
        rows_height
    } else {
        viewport_height
    }
}

/// The rows from `first` up to before `past`, as far as there are any.
pub fn visible_row_range(first: usize, past: usize, row_count: usize) -> (range: (usize, usize))
    ensures
        range.0 == (if first < row_count {
            first
        } else {
            row_count
        }),
        range.1 == (if past < row_count {
            past
        } else {
            row_count
        }),
{
    (
        if first < row_count {
            first
        } else {
            row_count
        },
        if past < row_count {
            past
        } else {
            row_count
        },
    )
}

/// What stands for an entry whose application has no icon.
pub fn fallback_glyph(kind: PaletteEntryKind) -> (glyph: &'static str)
    ensures
        match kind {
            PaletteEntryKind::Window => glyph@ == "□"@,
            PaletteEntryKind::Application => glyph@ == "◉"@,
            PaletteEntryKind::Command => glyph@ == "›_"@,
        },
{
    match kind {
        PaletteEntryKind::Window => "□",
        PaletteEntryKind::Application => "◉",
        PaletteEntryKind::Command => "›_",
    }
}

/// The digit's character.
pub open spec fn digit_char(digit: int) -> char {
    (48 + digit) as char
}

/// The number in decimal digits.
pub open spec fn decimal(number: nat) -> Seq<char>
    decreases number,
{
    if number < 10 {
        seq![digit_char(number as int)]
    } else {
        decimal(number / 10).push(digit_char(number as int % 10))
    }
}

/// The number in decimal digits, at least two of them.
pub open spec fn two_digits(number: nat) -> Seq<char> {
    if number < 10 {
        seq!['0'] + decimal(number)
    } else {
        decimal(number)
    }
}

fn digit_text(digit: usize) -> (text: &'static str)
    requires
        digit < 10,
    ensures
        text@ == seq![digit_char(digit as int)],
{
    proof {
        reveal_strlit("0");
        reveal_strlit("1");
        reveal_strlit("2");
        reveal_strlit("3");
        reveal_strlit("4");
        reveal_strlit("5");
        reveal_strlit("6");
        reveal_strlit("7");
        reveal_strlit("8");
        reveal_strlit("9");
    }
    let text: &'static str = match digit {
        0 => "0",
        1 => "1",
        2 => "2",
        3 => "3",
        4 => "4",
        5 => "5",
        6 => "6",
        7 => "7",
        8 => "8",
        _ => "9",
    };
    assert(text@ =~= seq![digit_char(digit as int)]);
    text
}

fn append_decimal(label: &mut String, number: usize)
    ensures
        final(label)@ == old(label)@ + decimal(number as nat),
    decreases number,
{
    if number >= 10 {
        append_decimal(label, number / 10);
    }
    label.append(digit_text(number % 10));
    assert(label@ =~= old(label)@ + decimal(number as nat));
}

/// The label that counts the results.
pub fn count_label(count: usize) -> (label: String)
    ensures
        label@ == two_digits(count as nat),
{
    let mut label: String = String::new();
    if count < 10 {
        label.append(digit_text(0));
    }
    append_decimal(&mut label, count);
    assert(label@ =~= two_digits(count as nat));
    label
}

/// The screen on which the panel opens.
#[derive(Debug, Clone, Copy, PartialEq, Eq, Structural)]
pub enum ScreenChoice {
    /// By its place in the list of screens.
    Listed(usize),
    Main,
    /// There is none; the panel stays where it is.
    Nowhere,
}

/// Whether the screen at `at` is the first that has the number.
pub open spec fn is_first_screen(screens: Seq<Option<u32>>, number: u32, at: int) -> bool {
    &&& 0 <= at < screens.len()
    &&& screens[at] == Some(number)
    &&& forall|earlier: int| 0 <= earlier < at ==> #[trigger] screens[earlier] != Some(number)
}

/// Whether the choice is the first screen with the number of the wanted display,
/// or, where there is none, the main one.
pub open spec fn is_screen_choice(
    choice: ScreenChoice,
    display_id: Option<u32>,
    screens: Seq<Option<u32>>,
    has_main: bool,
) -> bool {
    match choice {
        ScreenChoice::Listed(at) => display_id is Some && is_first_screen(
            screens,
            display_id->0,
            at as int,
        ),
        _ => {
            &&& display_id matches Some(number) ==> !screens.contains(Some(number))
            &&& choice == (if has_main {
                ScreenChoice::Main
            } else {
                ScreenChoice::Nowhere
            })
        },
    }
}

/// The first screen with the number of the wanted display, or else the main one.
/// A screen whose number cannot be read is `None`.
pub fn choose_screen(display_id: Option<u32>, screens: &Vec<Option<u32>>, has_main: bool) -> (choice:
    ScreenChoice)
    ensures
        is_screen_choice(choice, display_id, screens@, has_main),
{
    match display_id {
        Some(number) => {
            let mut at: usize = 0;
            while at < screens.len()
                invariant
                    display_id == Some(number),
                    at <= screens@.len(),
                    forall|earlier: int|
                        0 <= earlier < at ==> #[trigger] screens@[earlier] != Some(number),
                decreases screens@.len() - at,
            {
                match screens[at] {
                    Some(screen) => {
                        if screen == number {
                            return ScreenChoice::Listed(at);
                        }
                    },
                    None => {},
                }
                at = at + 1;
            }
        },
        None => {},
    }
    if has_main {
        ScreenChoice::Main
    } else {
        ScreenChoice::Nowhere
    }
}

/// Where the panel's parts are, in points from its bottom.
#[derive(Debug, Clone, Copy, PartialEq, Eq, Structural)]
pub struct PanelLayout {
    pub height: u128,
    pub search_y: u128,
    pub viewport_height: u128,
}

/// Where the parts of a panel that shows so many rows are.
pub open spec fn layout_of(visible_rows: usize) -> PanelLayout {
    PanelLayout {
        height: (RESULTS_BOTTOM_PADDING + shown_rows(visible_rows) * ROW_HEIGHT
            + SEARCH_RESULTS_GAP + SEARCH_FIELD_HEIGHT + TOP_PADDING) as u128,
        search_y: (RESULTS_BOTTOM_PADDING + shown_rows(visible_rows) * ROW_HEIGHT
            + SEARCH_RESULTS_GAP - SEARCH_TEXT_DROP) as u128,
        viewport_height: (shown_rows(visible_rows) * ROW_HEIGHT) as u128,
    }
}

/// What changes on the screen when rows are set.
#[derive(Debug)]
pub struct RenderPlan {
    /// The new places of the panel's parts, if its height changes.
    pub layout: Option<PanelLayout>,
    pub count_label: String,
    pub document_height: u128,
    /// Where the row begins that is to be scrolled into view.
    pub scroll_to: Option<u128>,
}

/// One row to draw.
#[derive(Debug, Clone, Copy, PartialEq, Eq, Structural)]
pub struct RowDrawing {
    pub index: usize,
    pub y: u128,
    pub highlighted: bool,
}

/// What a part of the list shows.
#[derive(Debug)]
pub enum Drawing {
    /// That nothing matches.
    Empty,
    Rows(Vec<RowDrawing>),
}

/// The panel's state.
#[derive(Debug)]
pub struct CommandPalettePanel {
    pub max_visible_rows: usize,
    pub visible_rows: usize,
    pub rows: Vec<PaletteRenderRow>,
    pub selected: Option<usize>,
    pub query: String,
    pub header: PalettePanelMode,
    pub visible: bool,
}

/// The drawing of a row.
pub open spec fn row_drawing(index: int, selected: Option<usize>) -> RowDrawing {
    RowDrawing {
        index: index as usize,
        y: (index * ROW_HEIGHT) as u128,
        highlighted: selected == Some(index as usize),
    }
}

/// How many rows the panel shows of so many results.
pub open spec fn rows_to_show(result_count: int, max_visible_rows: usize) -> usize {
    if result_count < 1 {
        1
    } else if result_count > max_visible_rows {
        max_visible_rows
    } else {
        result_count as usize
    }
}

/// What a click on a row means, if there is such a row.
pub open spec fn click_meaning(row: usize, row_count: nat) -> Option<PaletteInput> {
    if row < row_count {
        Some(PaletteInput::ClickResult(row))
    } else {
        None
    }
}

/// Whether the drawing shows the rows from `first` up to before `past`, as far as
/// there are any.
pub open spec fn is_drawing(
    drawing: Drawing,
    row_count: nat,
    selected: Option<usize>,
    first: usize,
    past: usize,
) -> bool {
    match drawing {
        Drawing::Empty => row_count == 0,
        Drawing::Rows(rows) => {
            let end = if past < row_count {
                past as int
            } else {
                row_count as int
            };
            &&& row_count > 0
            &&& rows@ == Seq::new(
                (if first < end {
                    end - first
                } else {
                    0
                }) as nat,
                |i: int| row_drawing(first + i, selected),
            )
        },
    }
}

/// Whether the plan is what setting so many rows changes on the screen.
pub open spec fn is_plan(
    plan: RenderPlan,
    row_count: nat,
    selected: Option<usize>,
    rows_before: usize,
    rows_after: usize,
) -> bool {
    &&& plan.layout == (if rows_after == rows_before {
        None
    } else {
        Some(layout_of(rows_after))
    })
    &&& plan.count_label@ == two_digits(row_count)
    &&& plan.document_height == (if row_count > rows_after {
        row_count * ROW_HEIGHT
    } else {
        rows_after * ROW_HEIGHT
    })
    &&& plan.scroll_to == (match selected {
        Some(index) => Some((index * ROW_HEIGHT) as u128),
        None => None,
    })
}

impl CommandPalettePanel {
    /// Whether the panel has room for a row and shows no more than it has room
    /// for.
    pub open spec fn wf(self) -> bool {
        1 <= self.visible_rows <= self.max_visible_rows
    }

    /// A hidden panel with room for so many rows, or for one.
    pub fn new(visible_rows: usize) -> (panel: Self)
        ensures
            panel.wf(),
            panel.max_visible_rows == shown_rows(visible_rows),
            panel.visible_rows == panel.max_visible_rows,
            panel.rows@ == Seq::<PaletteRenderRow>::empty(),
            panel.selected is None,
            panel.query@ == Seq::<char>::empty(),
            panel.header == PalettePanelMode::Windows,
            !panel.visible,
    {
        let max_visible_rows: usize = if visible_rows == 0 {
            1
        } else {
            visible_rows
        };
        CommandPalettePanel {
            max_visible_rows,
            visible_rows: max_visible_rows,
            rows: Vec::new(),
            selected: None,
            query: String::new(),
            header: PalettePanelMode::Windows,
            visible: false,
        }
    }

    /// Where the panel's parts are.
    pub fn layout(&self) -> (layout: PanelLayout)
        ensures
            layout == layout_of(self.visible_rows),
    {
        PanelLayout {
            height: panel_height(self.visible_rows),
            search_y: search_field_y(self.visible_rows),
            viewport_height: results_viewport_height(self.visible_rows),
        }
    }

    /// Opens the panel on the wanted display, with a query and a header.
    pub fn show(
        &mut self,
        display_id: Option<u32>,
        query: &str,
        mode: PalettePanelMode,
        screens: &Vec<Option<u32>>,
        has_main: bool,
    ) -> (choice: ScreenChoice)
        ensures
            final(self).query@ == query@,
            final(self).header == mode,
            final(self).visible,
            final(self).max_visible_rows == old(self).max_visible_rows,
            final(self).visible_rows == old(self).visible_rows,
            final(self).rows == old(self).rows,
            final(self).selected == old(self).selected,
            is_screen_choice(choice, display_id, screens@, has_main),
    {
        self.set_query(query);
        self.header = mode;
        self.visible = true;
        choose_screen(display_id, screens, has_main)
    }

    /// Takes the panel off the screen.
    pub fn order_out(&mut self)
        ensures
            *final(self) == (CommandPalettePanel { visible: false, ..*old(self) }),
    {
        self.visible = false;
    }

    pub fn set_query(&mut self, query: &str)
        ensures
            final(self).query@ == query@,
            *final(self) == (CommandPalettePanel { query: final(self).query, ..*old(self) }),
    {
        self.query = query.to_owned();
    }

    /// Shows rows. The panel is as high as they need, as far as it has room.
    pub fn render(&mut self, rows: Vec<PaletteRenderRow>, selected: Option<usize>) -> (plan:
        RenderPlan)
        requires
            old(self).wf(),
        ensures
            final(self).wf(),
            *final(self) == (CommandPalettePanel {
                visible_rows: rows_to_show(rows@.len() as int, old(self).max_visible_rows),
                rows,
                selected,
                ..*old(self)
            }),
            is_plan(
                plan,
                rows@.len(),
                selected,
                old(self).visible_rows,
                final(self).visible_rows,
            ),
    {
        let layout: Option<PanelLayout> = self.layout_for_result_count(rows.len());
        let viewport_height: u128 = results_viewport_height(self.visible_rows);
        let plan = RenderPlan {
            layout,
            count_label: count_label(rows.len()),
            document_height: result_document_height(rows.len(), viewport_height),
            scroll_to: match selected {
                Some(index) => Some(index as u128 * ROW_HEIGHT),
                None => None,
            },
        };
        self.rows = rows;
        self.selected = selected;
        plan
    }

    /// Makes the panel as high as so many results need, as far as it has room.
    fn layout_for_result_count(&mut self, result_count: usize) -> (layout: Option<PanelLayout>)
        requires
            old(self).wf(),
        ensures
            final(self).wf(),
            *final(self) == (CommandPalettePanel {
                visible_rows: rows_to_show(result_count as int, old(self).max_visible_rows),
                ..*old(self)
            }),
            layout == (if final(self).visible_rows == old(self).visible_rows {
                None
            } else {
                Some(layout_of(final(self).visible_rows))
            }),
    {
        let visible_rows: usize = if result_count < 1 {
            1
        } else if result_count > self.max_visible_rows {
            self.max_visible_rows
        } else {
            result_count
        };
        if visible_rows == self.visible_rows {
            return None;
        }
        self.visible_rows = visible_rows;
        Some(self.layout())
    }

    /// What a click on the row at that place means.
    pub fn click(&self, row: usize) -> (input: Option<PaletteInput>)
        ensures
            input == click_meaning(row, self.rows@.len()),
    {
        if row < self.rows.len() {
            Some(PaletteInput::ClickResult(row))
        } else {
            None
        }
    }

    /// What the rows from `first` up to before `past` show. Others are not
    /// visited.
    pub fn draw_results(&self, first: usize, past: usize) -> (drawing: Drawing)
        ensures
            is_drawing(drawing, self.rows@.len(), self.selected, first, past),
    {
        if self.rows.len() == 0 {
            return Drawing::Empty;
        }
        let (start, end) = visible_row_range(first, past, self.rows.len());
        let mut rows: Vec<RowDrawing> = Vec::new();
        let mut index: usize = start;
        while index < end
            invariant
                end <= self.rows@.len(),
                start <= self.rows@.len(),
                start < end ==> start == first && index <= end,
                start <= index,
                start >= end ==> index == start,
                rows@.len() == index - start,
                forall|i: int|
                    0 <= i < rows@.len() ==> #[trigger] rows@[i] == row_drawing(
                        start + i,
                        self.selected,
                    ),
            decreases end - index,
        {
            let highlighted: bool = match self.selected {
                Some(selected) => selected == index,
                None => false,
            };
            rows.push(RowDrawing { index, y: index as u128 * ROW_HEIGHT, highlighted });
            index = index + 1;
        }
        proof {
            let end_of_rows = if past < self.rows@.len() {
                past as int
            } else {
                self.rows@.len() as int
            };
            let count = (if first < end_of_rows {
                end_of_rows - first
            } else {
                0
            }) as nat;
            assert(rows@ =~= Seq::new(count, |i: int| row_drawing(first + i, self.selected)));
        }
        Drawing::Rows(rows)
    }
}

/// The panel shows at least one row and no more than it has room for, and within
/// that exactly as many as there are results.
pub proof fn law_viewport_tracks_results(row_count: nat, max_visible_rows: usize)
    requires
        max_visible_rows >= 1,
    ensures
        1 <= rows_to_show(row_count as int, max_visible_rows) <= max_visible_rows,
        row_count > max_visible_rows ==> rows_to_show(row_count as int, max_visible_rows)
            == max_visible_rows,
        1 <= row_count <= max_visible_rows ==> rows_to_show(row_count as int, max_visible_rows)
            == row_count,
{
}

/// Higher panels show more rows: the height tells how many.
pub proof fn law_height_tracks_rows(fewer: usize, more: usize)
    requires
        1 <= fewer < more,
    ensures
        layout_of(more).height == layout_of(fewer).height + (more - fewer) * ROW_HEIGHT,
        layout_of(more).height - layout_of(more).viewport_height == layout_of(fewer).height
            - layout_of(fewer).viewport_height,
{
}

/// Which keys do what: escape cancels, the arrows move the selection up and down
/// by one, go into an application and out of it, and both return keys execute.
pub proof fn law_keys_by_their_meaning(key_code: u16)
    ensures
        key_meaning(key_code) == Some(PaletteInput::Cancel) <==> key_code == 53,
        key_meaning(key_code) == Some(PaletteInput::MoveSelection((-1) as isize)) <==> key_code
            == 126,
        key_meaning(key_code) == Some(PaletteInput::MoveSelection(1)) <==> key_code == 125,
        key_meaning(key_code) == Some(PaletteInput::Execute) <==> key_code == 36 || key_code == 76,
        key_meaning(key_code) == Some(PaletteInput::ExpandApplication) <==> key_code == 124,
        key_meaning(key_code) == Some(PaletteInput::LeaveApplication) <==> key_code == 123,
        key_meaning(key_code) is Some ==> key_code == 36 || key_code == 53 || key_code == 76 || 123
            <= key_code <= 126,
{
}

/// The parts of a panel lie above one another without overlapping: the padding,
/// the rows, the gap less the drop of the search text, the search field, and the
/// rest up to the top. At least one row has room.
pub proof fn law_panel_parts_are_stacked(visible_rows: usize)
    ensures
        ({
            let layout = layout_of(visible_rows);
            let rows = if visible_rows == 0 {
                1int
            } else {
                visible_rows as int
            };
            &&& layout.viewport_height == rows * 44
            &&& layout.search_y == 10 + layout.viewport_height + 9 - 3
            &&& layout.height == layout.search_y + 28 + 3 + 11
        }),
{
}

/// The number that the digits spell.
pub open spec fn spelled(digits: Seq<char>) -> int
    decreases digits.len(),
{
    if digits.len() == 0 {
        0
    } else {
        10 * spelled(digits.drop_last()) + (digits.last() as int - 48)
    }
}

proof fn lemma_decimal_spells(number: nat)
    ensures
        spelled(decimal(number)) == number,
        decimal(number).len() >= 1,
        number >= 10 ==> decimal(number).len() >= 2,
        forall|i: int|
            0 <= i < decimal(number).len() ==> '0' <= #[trigger] decimal(number)[i] <= '9',
        number >= 10 ==> decimal(number)[0] != '0',
        0 < number < 10 ==> decimal(number)[0] != '0',
    decreases number,
{
    reveal_with_fuel(spelled, 2);
    if number < 10 {
        assert(seq![digit_char(number as int)].drop_last() =~= Seq::empty());
    } else {
        let rest = decimal(number / 10);
        lemma_decimal_spells(number / 10);
        assert(decimal(number).drop_last() =~= rest);
        assert(decimal(number)[0] == rest[0]);
        assert forall|i: int| 0 <= i < decimal(number).len() implies '0' <= #[trigger] decimal(
            number,
        )[i] <= '9' by {
            if i < rest.len() {
                assert(decimal(number)[i] == rest[i]);
            }
        }
    }
}

/// The label of a count spells it in digits, with two of them at least and a
/// leading zero only where there would be one.
pub proof fn law_count_is_spelled_out(count: nat)
    ensures
        spelled(two_digits(count)) == count,
        two_digits(count).len() >= 2,
        forall|i: int|
            0 <= i < two_digits(count).len() ==> '0' <= #[trigger] two_digits(count)[i] <= '9',
        count >= 10 ==> two_digits(count)[0] != '0',
        count < 10 ==> two_digits(count).len() == 2,
{
    lemma_decimal_spells(count);
    reveal_with_fuel(spelled, 3);
    if count < 10 {
        let label = two_digits(count);
        assert(label =~= seq!['0', digit_char(count as int)]);
        assert(label.drop_last() =~= seq!['0']);
        assert(label.drop_last().drop_last() =~= Seq::empty());
    }
}

/// The panel opens on the wanted display if one of the screens is that, on the
/// first such screen, and else on the main one if there is any.
pub proof fn law_panel_opens_on_the_wanted_display(
    choice: ScreenChoice,
    display_id: Option<u32>,
    screens: Seq<Option<u32>>,
    has_main: bool,
)
    requires
        is_screen_choice(choice, display_id, screens, has_main),
    ensures
        choice is Listed <==> display_id is Some && screens.contains(display_id),
        choice matches ScreenChoice::Listed(at) ==> {
            &&& at < screens.len()
            &&& screens[at as int] == display_id
            &&& forall|earlier: int|
                0 <= earlier < at ==> #[trigger] screens[earlier] != display_id
        },
        !(choice is Listed) ==> (choice is Main <==> has_main),
{
    if let ScreenChoice::Listed(at) = choice {
        assert(screens[at as int] == display_id);
        assert forall|earlier: int| 0 <= earlier < at implies #[trigger] screens[earlier]
            != display_id by {
            assert(screens[earlier] != Some(display_id->0));
        }
    }
}

/// A row is drawn at its place in the list and highlighted exactly if it is the
/// selected one.
pub proof fn law_row_is_drawn_at_its_place(index: usize, selected: Option<usize>)
    ensures
        ({
            let row = row_drawing(index as int, selected);
            &&& row.index == index
            &&& row.y == index * 44
            &&& row.highlighted <==> selected is Some && selected->0 == index
        }),
{
}

/// The commands of the text system mean what their keys do: up and down move the
/// selection, right and left go into an application and out of it, a new line
/// executes, and cancelling cancels. A click means the row that was clicked.
pub proof fn law_commands_by_their_meaning(command: EditingCommand, row: usize, row_count: nat)
    ensures
        command is MoveUp ==> command_meaning(command) == Some(
            PaletteInput::MoveSelection((-1) as isize),
        ),
        command is MoveDown ==> command_meaning(command) == Some(PaletteInput::MoveSelection(1)),
        command is InsertNewline || command is InsertNewlineIgnoringFieldEditor
            ==> command_meaning(command) == Some(PaletteInput::Execute),
        command is CancelOperation ==> command_meaning(command) == Some(PaletteInput::Cancel),
        command is MoveRight ==> command_meaning(command) == Some(PaletteInput::ExpandApplication),
        command is MoveLeft ==> command_meaning(command) == Some(PaletteInput::LeaveApplication),
        command is Other <==> command_meaning(command) is None,
        click_meaning(row, row_count) is Some <==> row < row_count,
        click_meaning(row, row_count) matches Some(input) ==> input == PaletteInput::ClickResult(
            row,
        ),
{
}

/// A drawing has exactly the rows that were asked for and are there, from the top
/// down, each at its place, and the selected one highlighted. A list without rows
/// says so.
pub proof fn law_drawing_has_the_rows(
    drawing: Drawing,
    row_count: nat,
    selected: Option<usize>,
    first: usize,
    past: usize,
    index: usize,
)
    requires
        row_count <= usize::MAX,
        is_drawing(drawing, row_count, selected, first, past),
    ensures
        drawing is Empty <==> row_count == 0,
        drawing matches Drawing::Rows(rows) ==> {
            &&& (exists|i: int| 0 <= i < rows@.len() && (#[trigger] rows@[i]).index == index)
                <==> first <= index < past && index < row_count
            &&& forall|i: int|
                0 <= i < rows@.len() ==> {
                    &&& (#[trigger] rows@[i]).y == rows@[i].index * 44
                    &&& rows@[i].highlighted <==> selected == Some(rows@[i].index)
                    &&& rows@[i].index == first + i
                }
        },
{
    if let Drawing::Rows(rows) = drawing {
        assert forall|i: int| 0 <= i < rows@.len() implies {
            &&& (#[trigger] rows@[i]).y == rows@[i].index * 44
            &&& rows@[i].highlighted <==> selected == Some(rows@[i].index)
            &&& rows@[i].index == first + i
        } by {
            assert(rows@[i] == row_drawing(first + i, selected));
        }
        if first <= index < past && index < row_count {
            assert(rows@[index - first].index == index);
        }
    }
}

/// Setting rows counts them, makes the list as high as all of them, or as the
/// panel if that is higher, scrolls to the selected one, and moves the panel's
/// parts exactly if the number of rows that show changes.
pub proof fn law_plan_fits_the_rows(
    plan: RenderPlan,
    row_count: nat,
    selected: Option<usize>,
    rows_before: usize,
    rows_after: usize,
)
    requires
        is_plan(plan, row_count, selected, rows_before, rows_after),
        rows_after >= 1,
    ensures
        spelled(plan.count_label@) == row_count,
        plan.document_height >= row_count * 44,
        plan.document_height >= rows_after * 44,
        plan.document_height == row_count * 44 || plan.document_height == rows_after * 44,
        plan.layout is Some <==> rows_after != rows_before,
        plan.layout matches Some(layout) ==> layout.viewport_height == rows_after * 44,
        plan.scroll_to is Some <==> selected is Some,
        plan.scroll_to is Some ==> plan.scroll_to->0 == selected->0 * 44,
{
    law_count_is_spelled_out(row_count);
}

} // verus!
