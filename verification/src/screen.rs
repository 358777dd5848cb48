//! Where the screen's parts go: the memo list's viewport, the toolbar's
//! buttons, each memo's clear and delete buttons, and the confirmation
//! and settings dialogs. Label widths are measured by the program around
//! this library and handed in.
use vstd::prelude::*;
use crate::constants::{
    MIN_TERMINAL_HEIGHT, MIN_TERMINAL_WIDTH, NOTE_HEADER_INSET, STATUS_HEIGHT, TOOLBAR_HEIGHT,
    CONFIRM_HEIGHT, CONFIRM_MIN_WIDTH, CONFIRM_WIDTH_PADDING, MODAL_ACTION_BOTTOM_INSET,
    SETTINGS_CONTROL_RIGHT_INSET, SETTINGS_CONTROL_SPACING, SETTINGS_HEIGHT, SETTINGS_WIDTH,
};
use crate::app::Action;
use crate::layout::{centered, dialog_extent, max_int, min_int, sat_add16, sat_sub16, Area};

verus! {

/// The memo list's area within a terminal area: everything between the
/// toolbar and the status line; `None` when the terminal is too small to
/// show memos.
pub fn viewport_for(area: Area) -> (viewport: Option<Area>)
    ensures
        viewport == if area.width < MIN_TERMINAL_WIDTH || area.height < MIN_TERMINAL_HEIGHT {
            None::<Area>
        } else {
            Some(Area {
                x: area.x,
                y: sat_add16(area.y as int, TOOLBAR_HEIGHT as int),
                width: min_int(area.width as int, u16::MAX - area.x) as u16,
                height: min_int(
                    area.height - TOOLBAR_HEIGHT - STATUS_HEIGHT,
                    u16::MAX - sat_add16(area.y as int, TOOLBAR_HEIGHT as int),
                ) as u16,
            })
        },
{
    if area.width < MIN_TERMINAL_WIDTH || area.height < MIN_TERMINAL_HEIGHT {
        return None;
    }
    Some(
        Area::new(
            area.x,
            area.y.saturating_add(TOOLBAR_HEIGHT),
            area.width,
            area.height - TOOLBAR_HEIGHT - STATUS_HEIGHT,
        ),
    )
}

/// The one-row area of a button `width` columns wide at `x`, `y`, or
/// `None` when it is empty or would reach past column `right`.
pub open spec fn button_area_spec(x: u16, y: u16, right: u16, width: u16) -> Option<Area> {
    if width == 0 || sat_add16(x as int, width as int) > right {
        None
    } else {
        Some(Area {
            x,
            y,
            width: min_int(width as int, u16::MAX - x) as u16,
            height: min_int(1, u16::MAX - y) as u16,
        })
    }
}

/// Where a button `width` columns wide goes at `x`, `y`, if it fits left
/// of column `right`.
pub fn button_area(x: u16, y: u16, right: u16, width: u16) -> (area: Option<Area>)
    ensures
        area == button_area_spec(x, y, right, width),
{
    if width == 0 || x.saturating_add(width) > right {
        None
    } else {
        Some(Area::new(x, y, width, 1))
    }
}

/// The column where the toolbar's first row ends, before its corner button.
pub open spec fn corner_x(area: Area, corner_width: u16) -> u16 {
    sat_sub16(
        area.right_spec() as int,
        min_int(corner_width as int, area.width as int),
    )
}

/// Where the toolbar's next button goes and, after the first `k` of the
/// buttons of the given widths, the column and row where the next one
/// would start.
pub open spec fn toolbar_cursor(area: Area, corner_width: u16, widths: Seq<u16>, k: int) -> (u16, u16)
    decreases k,
{
    if k <= 0 {
        (area.x, area.y)
    } else {
        let (x0, y0) = toolbar_cursor(area, corner_width, widths, k - 1);
        let w = widths[k - 1];
        let row_right = if y0 == area.y {
            corner_x(area, corner_width)
        } else {
            area.right_spec()
        };
        let (x, y) = if sat_add16(x0 as int, w as int) > row_right {
            (area.x, sat_add16(y0 as int, 1))
        } else {
            (x0, y0)
        };
        if y >= area.y + TOOLBAR_HEIGHT || sat_add16(x as int, w as int) > area.right_spec() {
            (x, y)
        } else {
            match button_area_spec(x, y, area.right_spec(), w) {
                Some(r) => (sat_add16(r.right_spec() as int, 1), y),
                None => (x, y),
            }
        }
    }
}

/// Where toolbar button `k` goes, if anywhere: buttons run left to right
/// on the first row up to the corner button, wrap once to the second row,
/// and are left out when they fit nowhere.
pub open spec fn toolbar_slot(area: Area, corner_width: u16, widths: Seq<u16>, k: int) -> Option<Area> {
    let (x0, y0) = toolbar_cursor(area, corner_width, widths, k);
    let w = widths[k];
    let row_right = if y0 == area.y {
        corner_x(area, corner_width)
    } else {
        area.right_spec()
    };
    let (x, y) = if sat_add16(x0 as int, w as int) > row_right {
        (area.x, sat_add16(y0 as int, 1))
    } else {
        (x0, y0)
    };
    if y >= area.y + TOOLBAR_HEIGHT || sat_add16(x as int, w as int) > area.right_spec() {
        None
    } else {
        button_area_spec(x, y, area.right_spec(), w)
    }
}

/// Where the toolbar's buttons go in `area`: the corner button, `corner_width`
/// columns wide, at the right end of the first row (the upper-right corner),
/// then the other buttons, of the given widths, in order.
pub fn toolbar_layout(area: Area, corner_width: u16, widths: &Vec<u16>) -> (result: (
    Option<Area>,
    Vec<Option<Area>>,
))
    requires
        area.y + TOOLBAR_HEIGHT <= u16::MAX,
    ensures
        result.0 == button_area_spec(corner_x(area, corner_width), area.y, area.right_spec(), corner_width),
        result.1.len() == widths.len(),
        forall|k: int| 0 <= k < widths.len() ==> #[trigger] result.1[k] == toolbar_slot(area, corner_width, widths@, k),
{
    let right = area.right();
    let shown_corner = if corner_width < area.width {
        corner_width
    } else {
        area.width
    };
    let cx = right.saturating_sub(shown_corner);
    let corner = button_area(cx, area.y, right, corner_width);
    let mut slots: Vec<Option<Area>> = Vec::new();
    let mut x = area.x;
    let mut y = area.y;
    let mut k: usize = 0;
    while k < widths.len()
        invariant
            k <= widths.len(),
            area.y + TOOLBAR_HEIGHT <= u16::MAX,
            right == area.right_spec(),
            cx == corner_x(area, corner_width),
            (x, y) == toolbar_cursor(area, corner_width, widths@, k as int),
            slots.len() == k,
            forall|j: int| 0 <= j < k ==> #[trigger] slots[j] == toolbar_slot(area, corner_width, widths@, j),
        decreases widths.len() - k,
    {
        let width = widths[k];
        let row_right = if y == area.y {
            cx
        } else {
            right
        };
        if x.saturating_add(width) > row_right {
            y = y.saturating_add(1);
            x = area.x;
        }
        if y >= area.y + TOOLBAR_HEIGHT || x.saturating_add(width) > right {
            slots.push(None);
        } else {
            let slot = button_area(x, y, right, width);
            match slot {
                Some(r) => {
                    x = r.right().saturating_add(1);
                },
                None => {},
            }
            slots.push(slot);
        }
        k += 1;
    }
    (corner, slots)
}

/// Where a memo's clear and delete buttons go on its top border at row
/// `y`, given the memo's left column and width and the buttons' widths:
/// delete at the right end, clear left of it, both left out when clear
/// would reach the memo's number.
pub fn note_buttons(x: u16, width: u16, y: u16, clear_width: u16, delete_width: u16) -> (buttons:
    Option<(Option<Area>, Option<Area>)>)
    requires
        x + width <= u16::MAX,
        clear_width < u16::MAX,
    ensures
        buttons == ({
            let right = (x + sat_sub16(width as int, 1)) as u16;
            let delete_x = sat_sub16(right as int, delete_width as int);
            let clear_x = sat_sub16(delete_x as int, 1 + clear_width);
            if clear_x <= sat_add16(x as int, NOTE_HEADER_INSET as int) {
                None::<(Option<Area>, Option<Area>)>
            } else {
                Some(
                    (
                        button_area_spec(clear_x, y, sat_sub16(delete_x as int, 1), clear_width),
                        button_area_spec(delete_x, y, right, delete_width),
                    ),
                )
            }
        }),
{
    let right = x + width.saturating_sub(1);
    let delete_x = right.saturating_sub(delete_width);
    let clear_x = delete_x.saturating_sub(1 + clear_width);
    if clear_x <= x.saturating_add(NOTE_HEADER_INSET) {
        return None;
    }
    let clear = button_area(clear_x, y, delete_x.saturating_sub(1), clear_width);
    let delete = button_area(delete_x, y, right, delete_width);
    Some((clear, delete))
}

/// Where the parts of the confirmation dialog go.
#[derive(Clone, Copy, Debug, PartialEq, Eq, Structural)]
pub struct ConfirmationLayout {
    pub modal: Area,
    pub confirm: Option<Area>,
    pub cancel: Option<Area>,
}

/// Where the confirmation dialog goes in `area` for a message
/// `message_width` columns wide, with its confirm and cancel buttons of
/// the given widths side by side, centred near its bottom.
pub fn confirmation_layout(area: Area, message_width: u16, confirm_width: u16, cancel_width: u16) -> (layout: ConfirmationLayout)
    requires
        area.x + area.width <= u16::MAX,
        area.y + area.height <= u16::MAX,
    ensures
        ({
            let preferred = max_int(
                sat_add16(message_width as int, CONFIRM_WIDTH_PADDING as int) as int,
                CONFIRM_MIN_WIDTH as int,
            ) as u16;
            let modal = layout.modal;
            let combined = sat_add16(sat_add16(confirm_width as int, 1) as int, cancel_width as int);
            let x = modal.x + sat_sub16(modal.width as int, combined as int) / 2;
            let y = sat_sub16(modal.bottom_spec() as int, MODAL_ACTION_BOTTOM_INSET as int);
            let end = sat_sub16(modal.right_spec() as int, 1);
            &&& modal.x == area.x + sat_sub16(area.width as int, dialog_extent(area.width, preferred) as int) / 2
            &&& modal.y == area.y + sat_sub16(area.height as int, dialog_extent(area.height, CONFIRM_HEIGHT) as int) / 2
            &&& modal.width == min_int(dialog_extent(area.width, preferred) as int, u16::MAX - modal.x)
            &&& modal.height == min_int(dialog_extent(area.height, CONFIRM_HEIGHT) as int, u16::MAX - modal.y)
            &&& x <= u16::MAX
            &&& layout.confirm == button_area_spec(x as u16, y, end, confirm_width)
            &&& layout.cancel == button_area_spec(
                match layout.confirm {
                    Some(r) => sat_add16(r.right_spec() as int, 1),
                    None => x as u16,
                },
                y,
                end,
                cancel_width,
            )
        }),
{
    let mut preferred = message_width.saturating_add(CONFIRM_WIDTH_PADDING);
    if preferred < CONFIRM_MIN_WIDTH {
        preferred = CONFIRM_MIN_WIDTH;
    }
    let modal = centered(area, preferred, CONFIRM_HEIGHT);
    let combined = confirm_width.saturating_add(1).saturating_add(cancel_width);
    let mut x = modal.x + modal.width.saturating_sub(combined) / 2;
    let y = modal.bottom().saturating_sub(MODAL_ACTION_BOTTOM_INSET);
    let end = modal.right().saturating_sub(1);
    let confirm = button_area(x, y, end, confirm_width);
    match confirm {
        Some(r) => {
            x = r.right().saturating_add(1);
        },
        None => {},
    }
    let cancel = button_area(x, y, end, cancel_width);
    ConfirmationLayout { modal, confirm, cancel }
}

/// Where the parts of the settings dialog go.
#[derive(Clone, Copy, Debug, PartialEq, Eq, Structural)]
pub struct SettingsLayout {
    pub modal: Area,
    pub less: Option<Area>,
    pub more: Option<Area>,
    pub done: Option<Area>,
}

/// Where the settings dialog goes in `area`, with the decrease and
/// increase buttons at the right of the height row `height_row` rows
/// below its top, and the done button centred near its bottom.
pub fn settings_layout(area: Area, height_row: u16, less_width: u16, more_width: u16, done_width: u16) -> (layout: SettingsLayout)
    requires
        area.x + area.width <= u16::MAX,
        area.y + area.height <= u16::MAX,
    ensures
        ({
            let modal = layout.modal;
            let end = sat_sub16(modal.right_spec() as int, 1);
            let y = sat_add16(modal.y as int, height_row as int);
            let controls_x = sat_sub16(modal.right_spec() as int, SETTINGS_CONTROL_RIGHT_INSET as int);
            &&& modal.x == area.x + sat_sub16(area.width as int, dialog_extent(area.width, SETTINGS_WIDTH) as int) / 2
            &&& modal.y == area.y + sat_sub16(area.height as int, dialog_extent(area.height, SETTINGS_HEIGHT) as int) / 2
            &&& modal.width == min_int(dialog_extent(area.width, SETTINGS_WIDTH) as int, u16::MAX - modal.x)
            &&& modal.height == min_int(dialog_extent(area.height, SETTINGS_HEIGHT) as int, u16::MAX - modal.y)
            &&& layout.less == button_area_spec(controls_x, y, end, less_width)
            &&& layout.more == button_area_spec(
                sat_add16(controls_x as int, SETTINGS_CONTROL_SPACING as int),
                y,
                end,
                more_width,
            )
            &&& modal.x + sat_sub16(modal.width as int, done_width as int) / 2 <= u16::MAX
            &&& layout.done == button_area_spec(
                (modal.x + sat_sub16(modal.width as int, done_width as int) / 2) as u16,
                sat_sub16(modal.bottom_spec() as int, MODAL_ACTION_BOTTOM_INSET as int),
                end,
                done_width,
            )
        }),
{
    let modal = centered(area, SETTINGS_WIDTH, SETTINGS_HEIGHT);
    let end = modal.right().saturating_sub(1);
    let y = modal.y.saturating_add(height_row);
    let controls_x = modal.right().saturating_sub(SETTINGS_CONTROL_RIGHT_INSET);
    let less = button_area(controls_x, y, end, less_width);
    let more = button_area(controls_x.saturating_add(SETTINGS_CONTROL_SPACING), y, end, more_width);
    let done = button_area(
        modal.x + modal.width.saturating_sub(done_width) / 2,
        modal.bottom().saturating_sub(MODAL_ACTION_BOTTOM_INSET),
        end,
        done_width,
    );
    SettingsLayout { modal, less, more, done }
}

/// A toolbar button: what it does, whether it can be pressed, and whether
/// it deletes.
#[derive(Clone, Copy, Debug, PartialEq, Eq, Structural)]
pub struct ToolbarButton {
    pub action: Action,
    pub enabled: bool,
    pub destructive: bool,
}

/// The toolbar: the settings button in the upper-right corner, and from the
/// left add, quit, restore (pressable when something can be restored) and
/// delete all (pressable when there are memos).
pub fn toolbar_buttons(restore_enabled: bool, delete_all_enabled: bool) -> (buttons: (
    ToolbarButton,
    Vec<ToolbarButton>,
))
    ensures
        buttons.0 == (ToolbarButton { action: Action::Settings, enabled: true, destructive: false }),
        buttons.1@ == seq![
            ToolbarButton { action: Action::Add, enabled: true, destructive: false },
            ToolbarButton { action: Action::Quit, enabled: true, destructive: false },
            ToolbarButton { action: Action::Restore, enabled: restore_enabled, destructive: false },
            ToolbarButton { action: Action::DeleteAll, enabled: delete_all_enabled, destructive: true },
        ],
{
    let corner = ToolbarButton { action: Action::Settings, enabled: true, destructive: false };
    let items = vec![
        ToolbarButton { action: Action::Add, enabled: true, destructive: false },
        ToolbarButton { action: Action::Quit, enabled: true, destructive: false },
        ToolbarButton { action: Action::Restore, enabled: restore_enabled, destructive: false },
        ToolbarButton { action: Action::DeleteAll, enabled: delete_all_enabled, destructive: true },
    ];
    (corner, items)
}

} // verus!
