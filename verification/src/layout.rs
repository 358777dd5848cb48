//! Screen geometry: rectangles, where each memo sits in the scrolled
//! list, and the scrollbar's thumb.
use vstd::prelude::*;
use crate::constants::{
    MIN_RENDERED_NOTE_WIDTH, MODAL_MARGIN, NOTE_BORDER_HEIGHT, NOTE_BORDER_THICKNESS,
    NOTE_BORDER_WIDTH, NOTE_GAP, NOTE_PADDING, SCROLLBAR_WIDTH,
};

verus! {

/// `a + b`, or `u16::MAX` where that is larger.
pub open spec fn sat_add16(a: int, b: int) -> u16 {
    if a + b > u16::MAX {
        u16::MAX
    } else {
        (a + b) as u16
    }
}

/// `a - b`, or 0 where that is negative.
pub open spec fn sat_sub16(a: int, b: int) -> u16 {
    if a - b < 0 {
        0
    } else {
        (a - b) as u16
    }
}

/// `a + b`, or `u32::MAX` where that is larger.
pub open spec fn sat_add32(a: int, b: int) -> u32 {
    if a + b > u32::MAX {
        u32::MAX
    } else {
        (a + b) as u32
    }
}

/// `a - b`, or 0 where that is negative.
pub open spec fn sat_sub32(a: int, b: int) -> u32 {
    if a - b < 0 {
        0
    } else {
        (a - b) as u32
    }
}

/// The smaller of two numbers.
pub open spec fn min_int(a: int, b: int) -> int {
    if a < b {
        a
    } else {
        b
    }
}

/// The larger of two numbers.
pub open spec fn max_int(a: int, b: int) -> int {
    if a > b {
        a
    } else {
        b
    }
}

/// A rectangle of terminal cells: its left column, top row, width and
/// height.
#[derive(Clone, Copy, Debug, PartialEq, Eq, Structural)]
pub struct Area {
    pub x: u16,
    pub y: u16,
    pub width: u16,
    pub height: u16,
}

impl Area {
    /// A rectangle; its width and height are cut down so that it ends
    /// within the coordinate range.
    pub fn new(x: u16, y: u16, width: u16, height: u16) -> (area: Self)
        ensures
            area.x == x,
            area.y == y,
            area.width == min_int(width as int, u16::MAX - x),
            area.height == min_int(height as int, u16::MAX - y),
    {
        let max_width = u16::MAX - x;
        let max_height = u16::MAX - y;
        let width = if width > max_width {
            max_width
        } else {
            width
        };
        let height = if height > max_height {
            max_height
        } else {
            height
        };
        Self { x, y, width, height }
    }

    pub open spec fn right_spec(self) -> u16 {
        sat_add16(self.x as int, self.width as int)
    }

    pub open spec fn bottom_spec(self) -> u16 {
        sat_add16(self.y as int, self.height as int)
    }

    pub open spec fn contains_spec(self, column: u16, row: u16) -> bool {
        self.x <= column && column < self.right_spec() && self.y <= row && row
            < self.bottom_spec()
    }

    /// The first column right of the rectangle.
    pub fn right(&self) -> (r: u16)
        ensures
            r == self.right_spec(),
    {
        self.x.saturating_add(self.width)
    }

    /// The first row below the rectangle.
    pub fn bottom(&self) -> (b: u16)
        ensures
            b == self.bottom_spec(),
    {
        self.y.saturating_add(self.height)
    }

    /// Whether the cell at `column`, `row` lies within the rectangle.
    pub fn contains(&self, column: u16, row: u16) -> (inside: bool)
        ensures
            inside == self.contains_spec(column, row),
    {
        self.x <= column && column < self.right() && self.y <= row && row < self.bottom()
    }
}

/// The width (or height) of a dialog of preferred extent `preferred` in
/// an area `room` wide (or high): cut down to leave a margin, but never
/// below the smallest dialog.
pub open spec fn dialog_extent(room: u16, preferred: u16) -> u16 {
    max_int(
        min_int(preferred as int, sat_sub16(room as int, MODAL_MARGIN as int) as int),
        MIN_RENDERED_NOTE_WIDTH as int,
    ) as u16
}

/// A dialog of the preferred size, cut down to leave a margin within
/// `area` but never smaller than the smallest dialog, and centred in
/// `area`.
pub fn centered(area: Area, preferred_width: u16, preferred_height: u16) -> (modal: Area)
    requires
        area.x + area.width <= u16::MAX,
        area.y + area.height <= u16::MAX,
    ensures
        modal.x == area.x + sat_sub16(area.width as int, dialog_extent(area.width, preferred_width) as int) / 2,
        modal.y == area.y + sat_sub16(area.height as int, dialog_extent(area.height, preferred_height) as int) / 2,
        modal.width == min_int(dialog_extent(area.width, preferred_width) as int, u16::MAX - modal.x),
        modal.height == min_int(dialog_extent(area.height, preferred_height) as int, u16::MAX - modal.y),
{
    let mut width = preferred_width;
    let room_width = area.width.saturating_sub(MODAL_MARGIN);
    if room_width < width {
        width = room_width;
    }
    if width < MIN_RENDERED_NOTE_WIDTH {
        width = MIN_RENDERED_NOTE_WIDTH;
    }
    let mut height = preferred_height;
    let room_height = area.height.saturating_sub(MODAL_MARGIN);
    if room_height < height {
        height = room_height;
    }
    if height < MIN_RENDERED_NOTE_WIDTH {
        height = MIN_RENDERED_NOTE_WIDTH;
    }
    let x = area.x + area.width.saturating_sub(width) / 2;
    let y = area.y + area.height.saturating_sub(height) / 2;
    Area::new(x, y, width, height)
}

/// Where one memo sits: its top row in the scrolled list, its left
/// column and outer width, and the size of its text area.
#[derive(Clone, Copy, Debug, PartialEq, Eq, Structural)]
pub struct NoteLayout {
    pub top: u32,
    pub x: u16,
    pub width: u16,
    pub text_width: u16,
    pub text_height: u16,
}

/// The rows a memo takes with `text_height` rows of text: its text,
/// padding above and below, and its top and bottom borders.
pub open spec fn note_height(text_height: u16) -> u32 {
    sat_add16(
        sat_add16(text_height as int, NOTE_BORDER_HEIGHT as int) as int,
        2 * NOTE_PADDING,
    ) as u32
}

impl NoteLayout {
    pub open spec fn text_top_spec(self) -> u32 {
        sat_add32(self.top as int, (NOTE_BORDER_THICKNESS + NOTE_PADDING) as int)
    }

    pub open spec fn text_bottom_spec(self) -> u32 {
        sat_add32(self.text_top_spec() as int, self.text_height as int)
    }

    /// The first column of the memo's text.
    pub fn text_x(self) -> (x: u16)
        ensures
            x == sat_add16(self.x as int, (NOTE_BORDER_THICKNESS + NOTE_PADDING) as int),
    {
        self.x.saturating_add(NOTE_BORDER_THICKNESS + NOTE_PADDING)
    }

    /// The row of the memo's first text line.
    pub fn text_top(self) -> (top: u32)
        ensures
            top == self.text_top_spec(),
    {
        self.top.saturating_add((NOTE_BORDER_THICKNESS + NOTE_PADDING) as u32)
    }

    /// The first row after the memo's text area.
    pub fn text_bottom(self) -> (bottom: u32)
        ensures
            bottom == self.text_bottom_spec(),
    {
        self.text_top().saturating_add(self.text_height as u32)
    }

    /// The row of the memo's bottom border.
    pub fn bottom_border(self) -> (row: u32)
        ensures
            row == sat_add32(self.text_bottom_spec() as int, NOTE_PADDING as int),
    {
        self.text_bottom().saturating_add(NOTE_PADDING as u32)
    }

    /// The screen column of the cursor when it is `column` columns into its
    /// visual line: kept within the memo's text width.
    pub fn cursor_x(self, column: u16) -> (x: u16)
        ensures
            x == sat_add16(
                sat_add16(self.x as int, (NOTE_BORDER_THICKNESS + NOTE_PADDING) as int) as int,
                min_int(column as int, sat_sub16(self.text_width as int, 1) as int),
            ),
    {
        let last = self.text_width.saturating_sub(1);
        let shown = if column < last {
            column
        } else {
            last
        };
        self.text_x().saturating_add(shown)
    }

    /// The rows that the whole memo takes.
    pub fn height(self) -> (rows: u32)
        ensures
            rows == note_height(self.text_height),
    {
        self.text_height.saturating_add(NOTE_BORDER_HEIGHT).saturating_add(NOTE_PADDING * 2) as u32
    }
}

/// The text height of a memo whose text wraps to `rows` rows: at least
/// the configured height, and more as the text needs.
pub open spec fn text_height_for(rows: usize, default_height: u16) -> u16 {
    max_int(default_height as int, min_int(rows as int, u16::MAX as int)) as u16
}

/// The top row of memo `k` when the memos' texts wrap to `rows` rows each:
/// the memos before it and one gap after each.
pub open spec fn note_top(rows: Seq<usize>, default_height: u16, k: int) -> u32
    decreases k,
{
    if k <= 0 {
        0
    } else {
        sat_add32(
            sat_add32(
                note_top(rows, default_height, k - 1) as int,
                note_height(text_height_for(rows[k - 1], default_height)) as int,
            ) as int,
            NOTE_GAP as int,
        )
    }
}

/// The width of a memo's text area when the memo is `outer_width` wide.
pub open spec fn text_width_for(outer_width: u16) -> u16 {
    max_int(sat_sub16(outer_width as int, (NOTE_BORDER_WIDTH + 2 * NOTE_PADDING) as int) as int, 1)
        as u16
}

/// Lays the memos out one under another, each `outer_width` wide at
/// column `x`, given how many rows each memo's text wraps to; also gives
/// the row after the last memo's gap, where the add button goes.
pub fn layout_notes(x: u16, outer_width: u16, rows: &Vec<usize>, default_height: u16) -> (result: (
    Vec<NoteLayout>,
    u32,
))
    ensures
        result.0.len() == rows.len(),
        forall|k: int|
            0 <= k < rows.len() ==> #[trigger] result.0[k] == (NoteLayout {
                top: note_top(rows@, default_height, k),
                x,
                width: outer_width,
                text_width: text_width_for(outer_width),
                text_height: text_height_for(rows[k], default_height),
            }),
        result.1 == note_top(rows@, default_height, rows.len() as int),
{
    let mut text_width = outer_width.saturating_sub(NOTE_BORDER_WIDTH + NOTE_PADDING * 2);
    if text_width < 1 {
        text_width = 1;
    }
    let mut layouts: Vec<NoteLayout> = Vec::new();
    let mut top: u32 = 0;
    let mut k: usize = 0;
    while k < rows.len()
        invariant
            k <= rows.len(),
            text_width == text_width_for(outer_width),
            layouts.len() == k,
            top == note_top(rows@, default_height, k as int),
            forall|j: int|
                0 <= j < k ==> #[trigger] layouts[j] == (NoteLayout {
                    top: note_top(rows@, default_height, j),
                    x,
                    width: outer_width,
                    text_width: text_width_for(outer_width),
                    text_height: text_height_for(rows[j], default_height),
                }),
        decreases rows.len() - k,
    {
        let count: u16 = if rows[k] > u16::MAX as usize {
            u16::MAX
        } else {
            rows[k] as u16
        };
        let text_height = if default_height > count {
            default_height
        } else {
            count
        };
        let layout = NoteLayout { top, x, width: outer_width, text_width, text_height };
        layouts.push(layout);
        top = top.saturating_add(layout.height()).saturating_add(NOTE_GAP as u32);
        k += 1;
    }
    (layouts, top)
}

/// The outer width of every memo in a viewport `width` columns wide: all
/// of it but the scrollbar, and at least one column.
pub open spec fn memo_width(width: u16) -> u16 {
    max_int(sat_sub16(width as int, SCROLLBAR_WIDTH as int) as int, 1) as u16
}

/// Lays the memos out in `viewport`: at its left edge, each as wide as the
/// viewport without the scrollbar (at least one column), one under another,
/// given how many rows each memo's text wraps to; also gives the row after
/// the last memo's gap.
pub fn notes_layout_for(viewport: Area, rows: &Vec<usize>, default_height: u16) -> (result: (
    Vec<NoteLayout>,
    u32,
))
    ensures
        result.0.len() == rows.len(),
        forall|k: int|
            0 <= k < rows.len() ==> #[trigger] result.0[k] == (NoteLayout {
                top: note_top(rows@, default_height, k),
                x: viewport.x,
                width: memo_width(viewport.width),
                text_width: text_width_for(memo_width(viewport.width)),
                text_height: text_height_for(rows[k], default_height),
            }),
        result.1 == note_top(rows@, default_height, rows.len() as int),
{
    let mut width = viewport.width.saturating_sub(SCROLLBAR_WIDTH);
    if width < 1 {
        width = 1;
    }
    layout_notes(viewport.x, width, rows, default_height)
}

/// The text width inside every memo of a viewport `width` columns wide:
/// the width that memo texts wrap to.
pub fn memo_text_width(width: u16) -> (text_width: u16)
    ensures
        text_width == text_width_for(memo_width(width)),
{
    let mut outer = width.saturating_sub(SCROLLBAR_WIDTH);
    if outer < 1 {
        outer = 1;
    }
    let inner = outer.saturating_sub(NOTE_BORDER_WIDTH + 2 * NOTE_PADDING);
    if inner < 1 {
        1
    } else {
        inner
    }
}

/// Where the scrollbar's thumb starts and how tall it is, relative to
/// the top of a viewport `height` rows tall showing a list `total` rows
/// tall scrolled by `scroll` rows; `None` when the list fits and there is
/// no thumb.
pub fn scrollbar_thumb(scroll: u32, total: u32, height: u16) -> (thumb: Option<(u32, u32)>)
    ensures
        thumb == if height == 0 || total <= height {
            None::<(u32, u32)>
        } else {
            let h = height as int;
            let thumb_height = min_int(max_int((h * h) / total as int, 1), h);
            let travel = h - thumb_height;
            let max_scroll = total - h;
            let moved = min_int(scroll * travel, u32::MAX as int);
            Some(((moved / max_scroll) as u32, thumb_height as u32))
        },
{
    if height == 0 || total <= height as u32 {
        return None;
    }
    let h = height as u32;
    assert(h * h <= 65535 * 65535) by (nonlinear_arith)
        requires
            h <= 65535,
    ;
    let mut thumb_height = (h * h) / total;
    if thumb_height < 1 {
        thumb_height = 1;
    }
    if thumb_height > h {
        thumb_height = h;
    }
    let travel = h - thumb_height;
    let max_scroll = total - h;
    let moved = match scroll.checked_mul(travel) {
        Some(v) => v,
        None => u32::MAX,
    };
    Some((moved / max_scroll, thumb_height))
}

/// Law: memos grow with their content. Every memo's text area is at
/// least the configured height and at least as tall as its wrapped text
/// (up to the largest height a row count can have), and memos are stacked
/// top to bottom in order.
pub proof fn lemma_notes_fit_their_text(rows: Seq<usize>, default_height: u16, k: int)
    requires
        0 <= k < rows.len(),
    ensures
        text_height_for(rows[k], default_height) >= default_height,
        text_height_for(rows[k], default_height) >= min_int(rows[k] as int, u16::MAX as int),
        note_top(rows, default_height, k) <= note_top(rows, default_height, k + 1),
{
}

} // verus!
