//! Names and limits shared by the memo pad.
use vstd::prelude::*;

verus! {

/// The memo file kept in each directory.
pub const MEMO_FILE_NAME: &'static str = ".babomemo";

/// The settings file inside the per-user configuration directory.
pub const CONFIG_FILE_NAME: &'static str = "config";

pub const PROJECT_QUALIFIER: &'static str = "io.github";

pub const PROJECT_ORGANIZATION: &'static str = "smturtle2";

pub const PROJECT_APPLICATION: &'static str = "babomemo";

/// The minimum number of text rows of a memo, unless configured.
pub const DEFAULT_HEIGHT: u16 = 5;

/// The smallest minimum memo height that can be configured.
pub const MIN_HEIGHT: u16 = 2;

/// The largest minimum memo height that can be configured.
pub const MAX_HEIGHT: u16 = 40;

/// How much one press of a settings button changes the memo height.
pub const SIZE_STEP: u16 = 1;

/// Rows taken by the toolbar at the top of the screen.
pub const TOOLBAR_HEIGHT: u16 = 2;

/// Rows taken by the status line at the bottom of the screen.
pub const STATUS_HEIGHT: u16 = 1;

/// Empty rows between two memos.
pub const NOTE_GAP: u16 = 1;

/// Thickness of a memo's border.
pub const NOTE_BORDER_THICKNESS: u16 = 1;

/// Columns taken by a memo's left and right borders together.
pub const NOTE_BORDER_WIDTH: u16 = 2;

/// Rows taken by a memo's top and bottom borders together.
pub const NOTE_BORDER_HEIGHT: u16 = 2;

/// Blank space between a memo's border and its text, on each side.
pub const NOTE_PADDING: u16 = 1;

/// The smallest terminal width in which memos are shown.
pub const MIN_TERMINAL_WIDTH: u16 = 20;

/// The smallest terminal height in which memos are shown.
pub const MIN_TERMINAL_HEIGHT: u16 = 6;

/// Blank columns on each side of a button's label.
pub const BUTTON_HORIZONTAL_PADDING: u16 = 1;

/// Rows scrolled by one turn of the mouse wheel.
pub const SCROLL_STEP: u32 = 3;

/// The smallest width and height of a dialog.
pub const MIN_RENDERED_NOTE_WIDTH: u16 = 3;

/// Space kept free around a dialog.
pub const MODAL_MARGIN: u16 = 2;

/// Columns left of a memo's top border kept for its number.
pub const NOTE_HEADER_INSET: u16 = 4;

/// Columns added around the confirmation message.
pub const CONFIRM_WIDTH_PADDING: u16 = 6;

/// The narrowest confirmation dialog.
pub const CONFIRM_MIN_WIDTH: u16 = 32;

/// The confirmation dialog's height.
pub const CONFIRM_HEIGHT: u16 = 7;

/// The settings dialog's width.
pub const SETTINGS_WIDTH: u16 = 54;

/// The settings dialog's height.
pub const SETTINGS_HEIGHT: u16 = 8;

/// Rows between a dialog's action buttons and its bottom edge.
pub const MODAL_ACTION_BOTTOM_INSET: u16 = 2;

/// Columns and rows between a dialog's edge and its text.
pub const MODAL_CONTENT_INSET: u16 = 2;

/// The settings dialog's title row, counted from its top.
pub const SETTINGS_TITLE_ROW: u16 = 1;

/// The settings dialog's height row, counted from its top.
pub const SETTINGS_HEIGHT_ROW: u16 = 3;

/// Columns from the settings dialog's right edge to its buttons.
pub const SETTINGS_CONTROL_RIGHT_INSET: u16 = 9;

/// Columns from the decrease button to the increase button.
pub const SETTINGS_CONTROL_SPACING: u16 = 4;

/// Columns from the settings dialog's right edge kept free of the label.
pub const SETTINGS_LABEL_RIGHT_INSET: u16 = 12;

/// Columns from a memo's left edge to its number.
pub const NOTE_SEQUENCE_OFFSET: u16 = 2;

/// How many edits of one memo can be undone.
pub const UNDO_LIMIT: usize = 256;

/// What the tab key inserts.
pub const TAB_SPACES: &'static str = "    ";

/// Columns taken by the scrollbar at the right edge of the memo list: the
/// viewport's last column, where the track is drawn and a click grabs it.
pub const SCROLLBAR_WIDTH: u16 = 1;

/// What the scrollbar's track is drawn with.
pub const SCROLLBAR_TRACK: &'static str = "│";

/// What the scrollbar's thumb is drawn with.
pub const SCROLLBAR_THUMB: &'static str = "█";

/// How many deletions are kept for restoring.
pub const DELETION_UNDO_LIMIT: usize = 256;

} // verus!
