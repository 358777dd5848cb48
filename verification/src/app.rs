//! The memo pad's decisions: which memos there are, which has the focus,
//! which deletion waits for confirmation, what can be restored, how the
//! list is scrolled, and what a click means. Drawing, the clock, the
//! clipboard and the text editing inside a memo are done by the program
//! around this library, which hands the outcome of each event in here.
use vstd::prelude::*;
use crate::config::Config;
use crate::constants::{MAX_HEIGHT, MIN_HEIGHT, NOTE_BORDER_THICKNESS, SCROLL_STEP, SIZE_STEP};
use crate::document::{crlf_to_lf, Document};
use crate::screen::{button_area, button_area_spec, toolbar_buttons, ToolbarButton};
use crate::text::{chars_of, string_of};
use crate::layout::{
    max_int, min_int, note_height, sat_add16, sat_add32, sat_sub16, sat_sub32, Area, NoteLayout,
};

verus! {

/// What a button or a confirmation does.
#[derive(Clone, Copy, Debug, PartialEq, Eq, Structural)]
pub enum Action {
    Add,
    Settings,
    Restore,
    DeleteAll,
    Quit,
    Clear(usize),
    Delete(usize),
    Confirm,
    Cancel,
    SettingsHeightLess,
    SettingsHeightMore,
    SettingsDone,
}

/// A deletion that waits for the user's confirmation.
#[derive(Clone, Copy, Debug, PartialEq, Eq, Structural)]
pub enum Pending {
    Clear(usize),
    Delete(usize),
    DeleteAll,
}

/// A deletion that can be restored: the memo text that a clear emptied,
/// a deleted memo, or all memos.
pub enum Deleted {
    Clear { index: usize, text: String },
    Note { index: usize, text: String },
    All { notes: Vec<String> },
}

/// What a restorable deletion holds, as plain text.
pub enum DeletedView {
    Clear { index: usize, text: Seq<char> },
    Note { index: usize, text: Seq<char> },
    All { notes: Seq<Seq<char>> },
}

impl View for Deleted {
    type V = DeletedView;

    open spec fn view(&self) -> DeletedView {
        match self {
            Deleted::Clear { index, text } => DeletedView::Clear { index: *index, text: text@ },
            Deleted::Note { index, text } => DeletedView::Note { index: *index, text: text@ },
            Deleted::All { notes } => DeletedView::All { notes: notes.deep_view() },
        }
    }
}

/// How the list of memos changed, for whoever keeps an editor per memo.
#[derive(Clone, Copy, Debug, PartialEq, Eq, Structural)]
pub enum NoteEdit {
    /// An empty memo was added at the end.
    Appended,
    /// This memo was emptied.
    Cleared(usize),
    /// This memo was removed.
    Removed(usize),
    /// All memos were removed.
    RemovedAll,
    /// This memo's text was replaced.
    Replaced(usize),
    /// A memo was inserted here.
    Inserted(usize),
    /// All memos were replaced.
    ReplacedAll,
}

/// What the program around the library has to do after an action.
#[derive(Clone, Copy, Debug, PartialEq, Eq, Structural)]
pub enum Effect {
    Nothing,
    /// The memos changed; the memo file is to be saved.
    Edited(NoteEdit),
    /// The settings dialog was closed; the settings are to be saved.
    SettingsClosed,
    /// The user asked to quit: save pending changes, and quit once none
    /// are left unsaved.
    QuitRequested,
}

/// A screen area that runs an action when clicked.
#[derive(Clone, Copy, Debug, PartialEq, Eq, Structural)]
pub struct Target {
    pub area: Area,
    pub action: Action,
}

/// A mouse drag in progress.
#[derive(Clone, Copy, Debug, PartialEq, Eq, Structural)]
pub enum Drag {
    /// Selecting text in a memo from the position where the drag began.
    Text { note: usize, anchor: usize },
    /// Moving the scrollbar.
    Scrollbar,
}

/// Where in a memo's text a click or drag lands.
#[derive(Clone, Copy, Debug, PartialEq, Eq, Structural)]
pub enum HitPoint {
    /// Above the first text row: the start of the text.
    Start,
    /// Below the last text row: the end of the text.
    End,
    /// A text row and a column within it.
    Cell { row: usize, column: u16 },
}

/// The kind of a mouse event.
#[derive(Clone, Copy, Debug, PartialEq, Eq, Structural)]
pub enum MouseKind {
    ScrollUp,
    ScrollDown,
    LeftDown,
    LeftDrag,
    LeftUp,
    Other,
}

/// What the program has to do after a mouse event.
#[derive(Clone, Copy, Debug, PartialEq, Eq, Structural)]
pub enum MouseOutcome {
    Nothing,
    /// A button was clicked; this is what its action asks for.
    Activated(Effect),
    /// This memo got the focus: put its cursor at this point and start a
    /// selection there (by calling `Session::start_text_drag`).
    PlaceCursor { note: usize, point: HitPoint },
    /// Select the text of this memo from `anchor` to this point.
    ExtendSelection { note: usize, anchor: usize, point: HitPoint },
}

/// The plain state that the memo pad's rules speak of.
pub struct SessionView {
    pub notes: Seq<Seq<char>>,
    pub height: u16,
    pub focused: Option<usize>,
    pub pending: Option<Pending>,
    pub settings_open: bool,
    pub deleted: Seq<DeletedView>,
    pub history_limit: usize,
    pub scroll: u32,
}

/// The state of the memo pad.
pub struct Session {
    /// The text of each memo, in order.
    pub notes: Vec<String>,
    pub config: Config,
    pub focused: Option<usize>,
    pub pending: Option<Pending>,
    pub settings_open: bool,
    /// Restorable deletions, the latest last.
    pub deleted: Vec<Deleted>,
    /// How many deletions are kept for restoring.
    pub history_limit: usize,
    /// The first row of the memo list that is shown.
    pub scroll: u32,
    /// The rows of the whole memo list, add button included.
    pub total_height: u32,
    /// The screen area that shows the memo list.
    pub viewport: Area,
    /// Where each memo was last laid out.
    pub layouts: Vec<NoteLayout>,
    /// The clickable areas last drawn, in drawing order.
    pub targets: Vec<Target>,
    pub drag: Option<Drag>,
}

impl View for Session {
    type V = SessionView;

    open spec fn view(&self) -> SessionView {
        SessionView {
            notes: self.notes.deep_view(),
            height: self.config.default_height,
            focused: self.focused,
            pending: self.pending,
            settings_open: self.settings_open,
            deleted: self.deleted@.map_values(|d: Deleted| d@),
            history_limit: self.history_limit,
            scroll: self.scroll,
        }
    }
}

/// The state is consistent: the history keeps no more than its limit,
/// and no deletion waits while the settings dialog is open.
pub open spec fn session_ok(v: SessionView) -> bool {
    &&& v.deleted.len() <= v.history_limit
    &&& !(v.pending is Some && v.settings_open)
}

/// The history after remembering `d`: the oldest entry is dropped when
/// the limit is passed.
pub open spec fn remember(deleted: Seq<DeletedView>, d: DeletedView, limit: usize) -> Seq<
    DeletedView,
> {
    let more = deleted.push(d);
    if more.len() > limit {
        more.drop_first()
    } else {
        more
    }
}

/// The state after the waiting deletion is confirmed.
pub open spec fn confirm_spec(v: SessionView) -> SessionView {
    let settled = SessionView { pending: None, ..v };
    match v.pending {
        Some(Pending::Clear(i)) => if i < v.notes.len() && v.notes[i as int].len() > 0 {
            SessionView {
                notes: v.notes.update(i as int, Seq::<char>::empty()),
                deleted: remember(
                    v.deleted,
                    DeletedView::Clear { index: i, text: v.notes[i as int] },
                    v.history_limit,
                ),
                focused: Some(i),
                ..settled
            }
        } else {
            settled
        },
        Some(Pending::Delete(i)) => if i < v.notes.len() {
            let rest = v.notes.remove(i as int);
            SessionView {
                notes: rest,
                deleted: remember(
                    v.deleted,
                    DeletedView::Note { index: i, text: v.notes[i as int] },
                    v.history_limit,
                ),
                focused: if rest.len() == 0 {
                    None
                } else {
                    Some(min_int(i as int, rest.len() - 1) as usize)
                },
                ..settled
            }
        } else {
            settled
        },
        Some(Pending::DeleteAll) => if v.notes.len() > 0 {
            SessionView {
                notes: Seq::<Seq<char>>::empty(),
                deleted: remember(
                    v.deleted,
                    DeletedView::All { notes: v.notes },
                    v.history_limit,
                ),
                focused: None,
                scroll: 0,
                ..settled
            }
        } else {
            settled
        },
        None => settled,
    }
}

/// What confirming the waiting deletion asks of the program.
pub open spec fn confirm_effect(v: SessionView) -> Effect {
    match v.pending {
        Some(Pending::Clear(i)) => if i < v.notes.len() && v.notes[i as int].len() > 0 {
            Effect::Edited(NoteEdit::Cleared(i))
        } else {
            Effect::Nothing
        },
        Some(Pending::Delete(i)) => if i < v.notes.len() {
            Effect::Edited(NoteEdit::Removed(i))
        } else {
            Effect::Nothing
        },
        Some(Pending::DeleteAll) => if v.notes.len() > 0 {
            Effect::Edited(NoteEdit::RemovedAll)
        } else {
            Effect::Nothing
        },
        None => Effect::Nothing,
    }
}

/// The state after the latest deletion is restored.
pub open spec fn restore_spec(v: SessionView) -> SessionView {
    if v.deleted.len() == 0 {
        v
    } else {
        let rest = v.deleted.drop_last();
        match v.deleted.last() {
            DeletedView::Clear { index, text } => if index < v.notes.len() {
                SessionView {
                    notes: v.notes.update(index as int, text),
                    focused: Some(index),
                    deleted: rest,
                    ..v
                }
            } else {
                SessionView {
                    notes: v.notes.push(text),
                    focused: Some(v.notes.len() as usize),
                    deleted: rest,
                    ..v
                }
            },
            DeletedView::Note { index, text } => {
                let at = min_int(index as int, v.notes.len() as int);
                SessionView {
                    notes: v.notes.insert(at, text),
                    focused: Some(at as usize),
                    deleted: rest,
                    ..v
                }
            },
            DeletedView::All { notes } => SessionView {
                notes,
                focused: if notes.len() == 0 {
                    None
                } else {
                    Some(0)
                },
                deleted: rest,
                ..v
            },
        }
    }
}

/// What restoring the latest deletion asks of the program.
pub open spec fn restore_effect(v: SessionView) -> Effect {
    if v.deleted.len() == 0 {
        Effect::Nothing
    } else {
        match v.deleted.last() {
            DeletedView::Clear { index, text } => if index < v.notes.len() {
                Effect::Edited(NoteEdit::Replaced(index))
            } else {
                Effect::Edited(NoteEdit::Inserted(v.notes.len() as usize))
            },
            DeletedView::Note { index, text } => Effect::Edited(
                NoteEdit::Inserted(min_int(index as int, v.notes.len() as int) as usize),
            ),
            DeletedView::All { notes } => Effect::Edited(NoteEdit::ReplacedAll),
        }
    }
}

/// The state after an action: while a deletion waits only its
/// confirmation or cancellation counts, while the settings are open only
/// the settings buttons count, and otherwise each button does its job;
/// deleting and clearing only ask for confirmation.
pub open spec fn activate_spec(v: SessionView, action: Action) -> SessionView {
    if v.pending is Some {
        match action {
            Action::Confirm => confirm_spec(v),
            Action::Cancel => SessionView { pending: None, ..v },
            _ => v,
        }
    } else if v.settings_open {
        match action {
            Action::SettingsHeightLess => SessionView {
                height: max_int(sat_sub16(v.height as int, SIZE_STEP as int) as int, MIN_HEIGHT as int)
                    as u16,
                ..v
            },
            Action::SettingsHeightMore => SessionView {
                height: min_int(sat_add16(v.height as int, SIZE_STEP as int) as int, MAX_HEIGHT as int)
                    as u16,
                ..v
            },
            Action::SettingsDone => SessionView { settings_open: false, ..v },
            _ => v,
        }
    } else {
        match action {
            Action::Add => SessionView {
                notes: v.notes.push(Seq::<char>::empty()),
                focused: Some(v.notes.len() as usize),
                scroll: u32::MAX,
                ..v
            },
            Action::Settings => SessionView { settings_open: true, ..v },
            Action::Restore => restore_spec(v),
            Action::DeleteAll => SessionView { pending: Some(Pending::DeleteAll), ..v },
            Action::Clear(i) => SessionView { pending: Some(Pending::Clear(i)), ..v },
            Action::Delete(i) => SessionView { pending: Some(Pending::Delete(i)), ..v },
            _ => v,
        }
    }
}

/// What an action asks of the program.
pub open spec fn activate_effect(v: SessionView, action: Action) -> Effect {
    if v.pending is Some {
        match action {
            Action::Confirm => confirm_effect(v),
            _ => Effect::Nothing,
        }
    } else if v.settings_open {
        match action {
            Action::SettingsDone => Effect::SettingsClosed,
            _ => Effect::Nothing,
        }
    } else {
        match action {
            Action::Add => Effect::Edited(NoteEdit::Appended),
            Action::Restore => restore_effect(v),
            Action::Quit => Effect::QuitRequested,
            _ => Effect::Nothing,
        }
    }
}

impl Session {
    /// The state for a freshly opened memo file.
    pub fn new(document: Document, config: Config, history_limit: usize) -> (session: Self)
        ensures
            session@.notes == document@,
            session@.height == config.default_height,
            session@.focused is None,
            session@.pending is None,
            !session@.settings_open,
            session@.deleted.len() == 0,
            session@.history_limit == history_limit,
            session@.scroll == 0,
            session.total_height == 0,
            session.viewport == (Area { x: 0, y: 0, width: 0, height: 0 }),
            session.layouts.len() == 0,
            session.targets.len() == 0,
            session.drag is None,
    {
        let session = Session {
            notes: document.notes,
            config,
            focused: None,
            pending: None,
            settings_open: false,
            deleted: Vec::new(),
            history_limit,
            scroll: 0,
            total_height: 0,
            viewport: Area { x: 0, y: 0, width: 0, height: 0 },
            layouts: Vec::new(),
            targets: Vec::new(),
            drag: None,
        };
        assert(session@.deleted =~= Seq::<DeletedView>::empty());
        session
    }

    /// The memos as a document, for saving.
    pub fn document(&self) -> (doc: Document)
        ensures
            doc@ == self@.notes,
    {
        let mut notes: Vec<String> = Vec::new();
        let mut k: usize = 0;
        while k < self.notes.len()
            invariant
                k <= self.notes.len(),
                notes.deep_view() == self.notes.deep_view().take(k as int),
            decreases self.notes.len() - k,
        {
            let text = self.notes[k].clone();
            let ghost nv = notes.deep_view();
            let ghost tv = text.deep_view();
            assert(tv == self.notes.deep_view()[k as int]);
            notes.push(text);
            assert(notes.deep_view() =~= nv.push(tv));
            assert(notes.deep_view() =~= self.notes.deep_view().take(k + 1));
            k += 1;
        }
        assert(self.notes.deep_view().take(self.notes.len() as int) == self.notes.deep_view());
        Document { notes }
    }

    /// Remembers a deletion for restoring, forgetting the oldest one when
    /// the limit is passed.
    pub fn push_deleted(&mut self, deleted: Deleted)
        ensures
            final(self)@ == (SessionView {
                deleted: remember(old(self)@.deleted, deleted@, old(self).history_limit),
                ..old(self)@
            }),
            final(self).total_height == old(self).total_height,
            final(self).viewport == old(self).viewport,
            final(self).layouts@ == old(self).layouts@,
            final(self).targets@ == old(self).targets@,
            final(self).drag == old(self).drag,
    {
        let ghost before = self.deleted@.map_values(|d: Deleted| d@);
        self.deleted.push(deleted);
        assert(self.deleted@.map_values(|d: Deleted| d@) =~= before.push(deleted@));
        if self.deleted.len() > self.history_limit {
            let ghost more = self.deleted@;
            let _oldest = self.deleted.remove(0);
            assert(self.deleted@.map_values(|d: Deleted| d@) =~= more.map_values(
                |d: Deleted| d@,
            ).drop_first());
        }
    }

    /// Carries out the waiting deletion.
    fn confirm_pending(&mut self) -> (effect: Effect)
        ensures
            final(self)@ == confirm_spec(old(self)@),
            effect == confirm_effect(old(self)@),
            final(self).total_height == old(self).total_height,
            final(self).viewport == old(self).viewport,
            final(self).layouts@ == old(self).layouts@,
            final(self).targets@ == old(self).targets@,
            final(self).drag == old(self).drag,
    {
        let pending = self.pending;
        self.pending = None;
        match pending {
            Some(Pending::Clear(index)) => {
                if index < self.notes.len() && !self.notes[index].as_str().is_empty() {
                    let text = self.notes[index].clone();
                    let ghost nv = self.notes.deep_view();
                    self.notes.set(index, String::new());
                    assert(self.notes.deep_view() =~= nv.update(index as int, Seq::<char>::empty()));
                    self.push_deleted(Deleted::Clear { index, text });
                    self.focused = Some(index);
                    Effect::Edited(NoteEdit::Cleared(index))
                } else {
                    Effect::Nothing
                }
            },
            Some(Pending::Delete(index)) => {
                if index < self.notes.len() {
                    let ghost nv = self.notes.deep_view();
                    let text = self.notes.remove(index);
                    assert(self.notes.deep_view() =~= nv.remove(index as int));
                    self.push_deleted(Deleted::Note { index, text });
                    self.focused = if self.notes.len() == 0 {
                        None
                    } else if index < self.notes.len() - 1 {
                        Some(index)
                    } else {
                        Some(self.notes.len() - 1)
                    };
                    Effect::Edited(NoteEdit::Removed(index))
                } else {
                    Effect::Nothing
                }
            },
            Some(Pending::DeleteAll) => {
                if self.notes.len() > 0 {
                    let mut notes: Vec<String> = Vec::new();
                    std::mem::swap(&mut notes, &mut self.notes);
                    assert(self.notes.deep_view() =~= Seq::<Seq<char>>::empty());
                    self.push_deleted(Deleted::All { notes });
                    self.focused = None;
                    self.scroll = 0;
                    Effect::Edited(NoteEdit::RemovedAll)
                } else {
                    Effect::Nothing
                }
            },
            None => Effect::Nothing,
        }
    }

    /// Restores the latest deletion, if any.
    fn restore_deleted(&mut self) -> (effect: Effect)
        ensures
            final(self)@ == restore_spec(old(self)@),
            effect == restore_effect(old(self)@),
            final(self).total_height == old(self).total_height,
            final(self).viewport == old(self).viewport,
            final(self).layouts@ == old(self).layouts@,
            final(self).targets@ == old(self).targets@,
            final(self).drag == old(self).drag,
    {
        let ghost before = self.deleted@;
        let deleted = match self.deleted.pop() {
            Some(d) => d,
            None => {
                return Effect::Nothing;
            },
        };
        assert(self.deleted@.map_values(|d: Deleted| d@) =~= before.map_values(
            |d: Deleted| d@,
        ).drop_last());
        assert(before.map_values(|d: Deleted| d@).last() == deleted@);
        let ghost nv = self.notes.deep_view();
        match deleted {
            Deleted::Clear { index, text } => {
                if index < self.notes.len() {
                    let ghost tv = text@;
                    self.notes.set(index, text);
                    assert(self.notes.deep_view() =~= nv.update(index as int, tv));
                    self.focused = Some(index);
                    Effect::Edited(NoteEdit::Replaced(index))
                } else {
                    let ghost tv = text@;
                    self.notes.push(text);
                    assert(self.notes.deep_view() =~= nv.push(tv));
                    self.focused = Some(self.notes.len() - 1);
                    Effect::Edited(NoteEdit::Inserted(self.notes.len() - 1))
                }
            },
            Deleted::Note { index, text } => {
                let at = if index < self.notes.len() {
                    index
                } else {
                    self.notes.len()
                };
                let ghost tv = text@;
                self.notes.insert(at, text);
                assert(self.notes.deep_view() =~= nv.insert(at as int, tv));
                self.focused = Some(at);
                Effect::Edited(NoteEdit::Inserted(at))
            },
            Deleted::All { notes } => {
                self.notes = notes;
                self.focused = if self.notes.len() == 0 {
                    None
                } else {
                    Some(0)
                };
                Effect::Edited(NoteEdit::ReplacedAll)
            },
        }
    }

    /// Runs a button's action.
    pub fn activate(&mut self, action: Action) -> (effect: Effect)
        ensures
            final(self)@ == activate_spec(old(self)@, action),
            effect == activate_effect(old(self)@, action),
            final(self).total_height == old(self).total_height,
            final(self).viewport == old(self).viewport,
            final(self).layouts@ == old(self).layouts@,
            final(self).targets@ == old(self).targets@,
            final(self).drag == old(self).drag,
    {
        if self.pending.is_some() {
            return match action {
                Action::Confirm => self.confirm_pending(),
                Action::Cancel => {
                    self.pending = None;
                    Effect::Nothing
                },
                _ => Effect::Nothing,
            };
        }
        if self.settings_open {
            return match action {
                Action::SettingsHeightLess => {
                    let mut height = self.config.default_height.saturating_sub(SIZE_STEP);
                    if height < MIN_HEIGHT {
                        height = MIN_HEIGHT;
                    }
                    self.config.default_height = height;
                    Effect::Nothing
                },
                Action::SettingsHeightMore => {
                    let mut height = self.config.default_height.saturating_add(SIZE_STEP);
                    if height > MAX_HEIGHT {
                        height = MAX_HEIGHT;
                    }
                    self.config.default_height = height;
                    Effect::Nothing
                },
                Action::SettingsDone => {
                    self.settings_open = false;
                    Effect::SettingsClosed
                },
                _ => Effect::Nothing,
            };
        }
        match action {
            Action::Add => {
                let ghost nv = self.notes.deep_view();
                self.notes.push(String::new());
                assert(self.notes.deep_view() =~= nv.push(Seq::<char>::empty()));
                self.focused = Some(self.notes.len() - 1);
                self.scroll = u32::MAX;
                Effect::Edited(NoteEdit::Appended)
            },
            Action::Settings => {
                self.settings_open = true;
                Effect::Nothing
            },
            Action::Restore => self.restore_deleted(),
            Action::DeleteAll => {
                self.pending = Some(Pending::DeleteAll);
                Effect::Nothing
            },
            Action::Quit => Effect::QuitRequested,
            Action::Clear(index) => {
                self.pending = Some(Pending::Clear(index));
                Effect::Nothing
            },
            Action::Delete(index) => {
                self.pending = Some(Pending::Delete(index));
                Effect::Nothing
            },
            _ => Effect::Nothing,
        }
    }
}

/// The action of the last-drawn target under the cell at `column`, `row`.
pub open spec fn find_target(targets: Seq<Target>, column: u16, row: u16) -> Option<Action>
    decreases targets.len(),
{
    if targets.len() == 0 {
        None
    } else if targets.last().area.contains_spec(column, row) {
        Some(targets.last().action)
    } else {
        find_target(targets.drop_last(), column, row)
    }
}

/// The row of a memo's bottom border.
pub open spec fn bottom_border_spec(layout: NoteLayout) -> u32 {
    sat_add32(layout.text_bottom_spec() as int, 1)
}

impl Session {
    /// The furthest the list can be scrolled.
    pub open spec fn max_scroll_spec(&self) -> u32 {
        sat_sub32(self.total_height as int, self.viewport.height as int)
    }

    /// The list row shown at screen row `row`.
    pub open spec fn list_row(&self, row: u16) -> u32 {
        sat_add32(self.scroll as int, sat_sub16(row as int, self.viewport.y as int) as int)
    }

    /// The cell at `column`, `row` lies inside the border of a memo laid
    /// out at `layout`.
    pub open spec fn in_note_interior(&self, layout: NoteLayout, column: u16, row: u16) -> bool {
        let left = sat_add16(layout.x as int, NOTE_BORDER_THICKNESS as int);
        let right = sat_sub16(
            sat_add16(layout.x as int, layout.width as int) as int,
            NOTE_BORDER_THICKNESS as int,
        );
        &&& left <= column < right
        &&& sat_add32(layout.top as int, NOTE_BORDER_THICKNESS as int) <= self.list_row(row)
        &&& self.list_row(row) < bottom_border_spec(layout)
    }

    /// Where a click at `column`, `row` lands in the text of a memo laid
    /// out at `layout` whose text wraps to `rendered` rows.
    pub open spec fn hit_point_spec(&self, layout: NoteLayout, rendered: usize, column: u16, row: u16) -> HitPoint {
        let y = self.list_row(row);
        if y < layout.text_top_spec() {
            HitPoint::Start
        } else if y >= sat_add32(layout.text_top_spec() as int, min_int(rendered as int, u32::MAX as int)) {
            HitPoint::End
        } else {
            HitPoint::Cell {
                row: (y - layout.text_top_spec()) as usize,
                column: min_int(
                    sat_sub16(column as int, sat_add16(layout.x as int, 2) as int) as int,
                    layout.text_width as int,
                ) as u16,
            }
        }
    }

    /// The scroll that pointing the scrollbar at screen row `row` gives:
    /// the same share of the furthest scroll as the row's share of the
    /// viewport.
    pub open spec fn scroll_from_row(&self, row: u16) -> u32 {
        let relative = min_int(
            sat_sub16(row as int, self.viewport.y as int) as int,
            sat_sub16(self.viewport.height as int, 1) as int,
        );
        let denominator = max_int(sat_sub16(self.viewport.height as int, 1) as int, 1);
        (min_int(self.max_scroll_spec() * relative, u32::MAX as int) / denominator) as u32
    }

    /// The furthest the list can be scrolled: until its last row is at
    /// the bottom of the viewport.
    pub fn max_scroll(&self) -> (rows: u32)
        ensures
            rows == self.max_scroll_spec(),
    {
        self.total_height.saturating_sub(self.viewport.height as u32)
    }

    /// Keeps the scroll within the furthest it can go.
    pub fn clamp_scroll(&mut self)
        ensures
            final(self).scroll == min_int(old(self).scroll as int, old(self).max_scroll_spec() as int),
            final(self)@ == (SessionView { scroll: final(self).scroll, ..old(self)@ }),
            final(self).total_height == old(self).total_height,
            final(self).viewport == old(self).viewport,
            final(self).layouts@ == old(self).layouts@,
            final(self).targets@ == old(self).targets@,
            final(self).drag == old(self).drag,
    {
        let max = self.max_scroll();
        if self.scroll > max {
            self.scroll = max;
        }
    }

    /// Records a new layout of the memo list: the viewport that shows it,
    /// where each memo sits, and the row after the last memo's gap (where
    /// the add button goes); the list then ends one row below that, and
    /// the scroll is kept within it.
    pub fn set_layout(&mut self, viewport: Area, layouts: Vec<NoteLayout>, add_top: u32)
        ensures
            final(self).viewport == viewport,
            final(self).layouts@ == layouts@,
            final(self).total_height == sat_add32(add_top as int, 1),
            final(self).scroll == min_int(
                old(self).scroll as int,
                sat_sub32(sat_add32(add_top as int, 1) as int, viewport.height as int) as int,
            ),
            final(self)@ == (SessionView { scroll: final(self).scroll, ..old(self)@ }),
            final(self).targets@ == old(self).targets@,
            final(self).drag == old(self).drag,
    {
        self.viewport = viewport;
        self.layouts = layouts;
        self.total_height = add_top.saturating_add(1);
        self.clamp_scroll();
    }

    /// The screen row of list row `absolute`, if it is in view.
    pub fn screen_y(&self, absolute: u32) -> (y: Option<u16>)
        requires
            self.viewport.y + self.viewport.height <= u16::MAX,
        ensures
            y == if absolute < self.scroll || absolute - self.scroll >= self.viewport.height {
                None::<u16>
            } else {
                Some((self.viewport.y + (absolute - self.scroll)) as u16)
            },
    {
        if absolute < self.scroll {
            return None;
        }
        let relative = absolute - self.scroll;
        if relative >= self.viewport.height as u32 {
            return None;
        }
        Some(self.viewport.y + relative as u16)
    }

    /// Whether any row of a memo laid out at `layout` is in view.
    pub fn layout_visible(&self, layout: NoteLayout) -> (visible: bool)
        ensures
            visible == (sat_add32(layout.top as int, note_height(layout.text_height) as int)
                > self.scroll && layout.top < sat_add32(
                self.scroll as int,
                self.viewport.height as int,
            )),
    {
        let bottom = layout.top.saturating_add(layout.height());
        bottom > self.scroll && layout.top < self.scroll.saturating_add(self.viewport.height as u32)
    }

    /// Scrolls so that list row `cursor_y`, where a memo's cursor is, is in
    /// view, moving as little as possible, then keeps the scroll within
    /// the list.
    pub fn reveal_row(&mut self, cursor_y: u32)
        ensures
            final(self).scroll == min_int(
                (if cursor_y < old(self).scroll {
                    cursor_y as int
                } else if cursor_y >= sat_add32(
                    old(self).scroll as int,
                    old(self).viewport.height as int,
                ) {
                    sat_sub32(
                        sat_add32(cursor_y as int, 1) as int,
                        old(self).viewport.height as int,
                    ) as int
                } else {
                    old(self).scroll as int
                }),
                old(self).max_scroll_spec() as int,
            ),
            final(self)@ == (SessionView { scroll: final(self).scroll, ..old(self)@ }),
            final(self).total_height == old(self).total_height,
            final(self).viewport == old(self).viewport,
            final(self).layouts@ == old(self).layouts@,
            final(self).targets@ == old(self).targets@,
            final(self).drag == old(self).drag,
    {
        if cursor_y < self.scroll {
            self.scroll = cursor_y;
        } else {
            let bottom = self.scroll.saturating_add(self.viewport.height as u32);
            if cursor_y >= bottom {
                self.scroll = cursor_y.saturating_add(1).saturating_sub(
                    self.viewport.height as u32,
                );
            }
        }
        self.clamp_scroll();
    }

    /// Whether the cell at `column`, `row` lies inside the border of a memo
    /// laid out at `layout`.
    pub fn point_in_note_interior(&self, layout: NoteLayout, column: u16, row: u16) -> (inside:
        bool)
        ensures
            inside == self.in_note_interior(layout, column, row),
    {
        let left = layout.x.saturating_add(NOTE_BORDER_THICKNESS);
        let right = layout.x.saturating_add(layout.width).saturating_sub(NOTE_BORDER_THICKNESS);
        if column < left || column >= right {
            return false;
        }
        let absolute_y = self.scroll.saturating_add(row.saturating_sub(self.viewport.y) as u32);
        absolute_y >= layout.top.saturating_add(NOTE_BORDER_THICKNESS as u32) && absolute_y
            < layout.bottom_border()
    }

    /// Where a click at `column`, `row` lands in the text of a memo laid
    /// out at `layout` whose text wraps to `rendered` rows: above the text
    /// is its start, below the last row its end, and otherwise a row and a
    /// column no further right than the text width.
    pub fn hit_point(&self, layout: NoteLayout, rendered: usize, column: u16, row: u16) -> (point:
        HitPoint)
        ensures
            point == self.hit_point_spec(layout, rendered, column, row),
    {
        let absolute_y = self.scroll.saturating_add(row.saturating_sub(self.viewport.y) as u32);
        let top = layout.text_top();
        if absolute_y < top {
            return HitPoint::Start;
        }
        let count: u32 = if rendered > u32::MAX as usize {
            u32::MAX
        } else {
            rendered as u32
        };
        let rendered_bottom = top.saturating_add(count);
        if absolute_y >= rendered_bottom {
            return HitPoint::End;
        }
        let mut visual_column = column.saturating_sub(layout.text_x());
        if visual_column > layout.text_width {
            visual_column = layout.text_width;
        }
        HitPoint::Cell { row: (absolute_y - top) as usize, column: visual_column }
    }

    /// Scrolls so that the scrollbar's thumb follows screen row `row`.
    pub fn set_scroll_from_mouse(&mut self, row: u16)
        ensures
            final(self).scroll == if old(self).viewport.height == 0 {
                old(self).scroll
            } else {
                old(self).scroll_from_row(row)
            },
            final(self)@ == (SessionView { scroll: final(self).scroll, ..old(self)@ }),
            final(self).total_height == old(self).total_height,
            final(self).viewport == old(self).viewport,
            final(self).layouts@ == old(self).layouts@,
            final(self).targets@ == old(self).targets@,
            final(self).drag == old(self).drag,
    {
        if self.viewport.height == 0 {
            return;
        }
        let last = self.viewport.height.saturating_sub(1);
        let mut relative = row.saturating_sub(self.viewport.y);
        if relative > last {
            relative = last;
        }
        let denominator: u32 = if last as u32 > 1 {
            last as u32
        } else {
            1
        };
        let moved = match self.max_scroll().checked_mul(relative as u32) {
            Some(v) => v,
            None => u32::MAX,
        };
        self.scroll = moved / denominator;
    }

    /// Forgets the clickable areas drawn before.
    pub fn clear_targets(&mut self)
        ensures
            final(self).targets@ == Seq::<Target>::empty(),
            final(self)@ == old(self)@,
            final(self).total_height == old(self).total_height,
            final(self).viewport == old(self).viewport,
            final(self).layouts@ == old(self).layouts@,
            final(self).drag == old(self).drag,
    {
        self.targets.clear();
    }

    /// Records a clickable area just drawn.
    pub fn push_target(&mut self, area: Area, action: Action)
        ensures
            final(self).targets@ == old(self).targets@.push(Target { area, action }),
            final(self)@ == old(self)@,
            final(self).total_height == old(self).total_height,
            final(self).viewport == old(self).viewport,
            final(self).layouts@ == old(self).layouts@,
            final(self).drag == old(self).drag,
    {
        self.targets.push(Target { area, action });
    }

    /// The action of the last-drawn clickable area under `column`, `row`.
    pub fn target_at(&self, column: u16, row: u16) -> (action: Option<Action>)
        ensures
            action == find_target(self.targets@, column, row),
    {
        let mut k = self.targets.len();
        assert(self.targets@.take(k as int) == self.targets@);
        while k > 0
            invariant
                k <= self.targets.len(),
                find_target(self.targets@, column, row) == find_target(
                    self.targets@.take(k as int),
                    column,
                    row,
                ),
            decreases k,
        {
            let t = self.targets[k - 1];
            assert(self.targets@.take(k as int).last() == t);
            assert(self.targets@.take(k as int).drop_last() == self.targets@.take(k - 1));
            if t.area.contains(column, row) {
                return Some(t.action);
            }
            k -= 1;
        }
        assert(self.targets@.take(0) == Seq::<Target>::empty());
        None
    }

    /// The memo that typed keys and pasted text go to: the focused one,
    /// unless a dialog is open.
    pub fn key_target(&self) -> (note: Option<usize>)
        ensures
            note == if self.pending is Some || self.settings_open {
                None::<usize>
            } else {
                match self.focused {
                    Some(i) => if i < self.notes.len() {
                        Some(i)
                    } else {
                        None::<usize>
                    },
                    None => None::<usize>,
                }
            },
    {
        if self.pending.is_some() || self.settings_open {
            return None;
        }
        match self.focused {
            Some(i) => if i < self.notes.len() {
                Some(i)
            } else {
                None
            },
            None => None,
        }
    }

    /// Records the new text of a memo after it was edited.
    pub fn set_note_text(&mut self, index: usize, text: String)
        requires
            index < old(self).notes.len(),
        ensures
            final(self)@ == (SessionView {
                notes: old(self)@.notes.update(index as int, text@),
                ..old(self)@
            }),
            final(self).total_height == old(self).total_height,
            final(self).viewport == old(self).viewport,
            final(self).layouts@ == old(self).layouts@,
            final(self).targets@ == old(self).targets@,
            final(self).drag == old(self).drag,
    {
        let ghost nv = self.notes.deep_view();
        let ghost tv = text@;
        self.notes.set(index, text);
        assert(self.notes.deep_view() =~= nv.update(index as int, tv));
    }

    /// Focuses a memo and starts selecting its text from `anchor`, where a
    /// click placed the cursor.
    pub fn start_text_drag(&mut self, note: usize, anchor: usize)
        ensures
            final(self)@ == (SessionView { focused: Some(note), ..old(self)@ }),
            final(self).drag == Some(Drag::Text { note, anchor }),
            final(self).total_height == old(self).total_height,
            final(self).viewport == old(self).viewport,
            final(self).layouts@ == old(self).layouts@,
            final(self).targets@ == old(self).targets@,
    {
        self.focused = Some(note);
        self.drag = Some(Drag::Text { note, anchor });
    }
}

/// `b` has the same layout, clickable areas and drag as `a`.
pub open spec fn same_screen(a: &Session, b: &Session) -> bool {
    &&& b.total_height == a.total_height
    &&& b.viewport == a.viewport
    &&& b.layouts@ == a.layouts@
    &&& b.targets@ == a.targets@
}

/// `b` is `a` scrolled to `scroll`, with nothing else changed.
pub open spec fn only_scrolled(a: &Session, b: &Session, scroll: u32) -> bool {
    &&& b@ == (SessionView { scroll, ..a@ })
    &&& same_screen(a, b)
    &&& b.drag == a.drag
}

/// Memo `k` is the first laid-out memo whose interior holds the cell at
/// `column`, `row`.
pub open spec fn first_note_hit(s: &Session, k: int, column: u16, row: u16) -> bool {
    &&& 0 <= k < s.layouts.len()
    &&& s.in_note_interior(s.layouts[k], column, row)
    &&& forall|j: int| 0 <= j < k ==> !s.in_note_interior(#[trigger] s.layouts[j], column, row)
}

/// What pressing the left button at `column`, `row` does: the last-drawn
/// button there runs its action; otherwise, unless a dialog is open, the
/// viewport's last column grabs the scrollbar, and a click inside a memo
/// focuses that memo and asks for its cursor to be placed (the selection
/// drag starts once the program knows the cursor, by `start_text_drag`).
pub open spec fn press_post(
    o: &Session,
    n: &Session,
    column: u16,
    row: u16,
    rows: Seq<usize>,
    outcome: MouseOutcome,
) -> bool {
    match find_target(o.targets@, column, row) {
        Some(action) => {
            &&& n@ == activate_spec(o@, action)
            &&& outcome == MouseOutcome::Activated(activate_effect(o@, action))
            &&& same_screen(o, n)
            &&& n.drag == o.drag
        },
        None => if o.pending is Some || o.settings_open || !o.viewport.contains_spec(column, row) {
            only_scrolled(o, n, o.scroll) && outcome == MouseOutcome::Nothing
        } else if column == sat_sub16(o.viewport.right_spec() as int, 1) {
            &&& n@ == (SessionView { scroll: o.scroll_from_row(row), ..o@ })
            &&& same_screen(o, n)
            &&& n.drag == Some(Drag::Scrollbar)
            &&& outcome == MouseOutcome::Nothing
        } else if exists|k: int| first_note_hit(o, k, column, row) {
            let k = choose|k: int| first_note_hit(o, k, column, row);
            &&& n@ == (SessionView { focused: Some(k as usize), ..o@ })
            &&& same_screen(o, n)
            &&& n.drag == o.drag
            &&& outcome == MouseOutcome::PlaceCursor {
                note: k as usize,
                point: o.hit_point_spec(o.layouts[k], rows[k], column, row),
            }
        } else {
            only_scrolled(o, n, o.scroll) && outcome == MouseOutcome::Nothing
        },
    }
}

/// What dragging with the left button to `column`, `row` does: a text
/// selection follows the pointer, scrolling by a row when it leaves the
/// viewport above or below, and a grabbed scrollbar follows the row.
pub open spec fn drag_post(
    o: &Session,
    n: &Session,
    column: u16,
    row: u16,
    rows: Seq<usize>,
    outcome: MouseOutcome,
) -> bool {
    match o.drag {
        Some(Drag::Text { note, anchor }) => if note < o.layouts.len() {
            let scroll = if row < o.viewport.y {
                sat_sub32(o.scroll as int, 1)
            } else if row >= o.viewport.bottom_spec() {
                min_int(sat_add32(o.scroll as int, 1) as int, o.max_scroll_spec() as int) as u32
            } else {
                o.scroll
            };
            &&& only_scrolled(o, n, scroll)
            &&& outcome == MouseOutcome::ExtendSelection {
                note,
                anchor,
                point: n.hit_point_spec(o.layouts[note as int], rows[note as int], column, row),
            }
        } else {
            only_scrolled(o, n, o.scroll) && outcome == MouseOutcome::Nothing
        },
        Some(Drag::Scrollbar) => {
            &&& only_scrolled(
                o,
                n,
                if o.viewport.height == 0 {
                    o.scroll
                } else {
                    o.scroll_from_row(row)
                },
            )
            &&& outcome == MouseOutcome::Nothing
        },
        None => only_scrolled(o, n, o.scroll) && outcome == MouseOutcome::Nothing,
    }
}

impl Session {
    /// Handles a press of the left mouse button at `column`, `row`; `rows`
    /// gives how many rows each memo's text wraps to now.
    #[verifier::loop_isolation(false)]
    pub fn press(&mut self, column: u16, row: u16, rows: &Vec<usize>) -> (outcome: MouseOutcome)
        requires
            rows.len() == old(self).layouts.len(),
        ensures
            press_post(old(self), final(self), column, row, rows@, outcome),
    {
        if let Some(action) = self.target_at(column, row) {
            let effect = self.activate(action);
            return MouseOutcome::Activated(effect);
        }
        if self.pending.is_some() || self.settings_open || !self.viewport.contains(column, row) {
            return MouseOutcome::Nothing;
        }
        if column == self.viewport.right().saturating_sub(1) {
            self.drag = Some(Drag::Scrollbar);
            self.set_scroll_from_mouse(row);
            return MouseOutcome::Nothing;
        }
        let mut k: usize = 0;
        while k < self.layouts.len()
            invariant
                k <= self.layouts.len(),
                *self == *old(self),
                rows.len() == self.layouts.len(),
                forall|j: int|
                    0 <= j < k ==> !self.in_note_interior(#[trigger] self.layouts[j], column, row),
            decreases self.layouts.len() - k,
        {
            let layout = self.layouts[k];
            if self.point_in_note_interior(layout, column, row) {
                let point = self.hit_point(layout, rows[k], column, row);
                assert(first_note_hit(self, k as int, column, row));
                assert(first_note_hit(old(self), k as int, column, row));
                proof {
                    let c = choose|m: int| first_note_hit(old(self), m, column, row);
                    assert(first_note_hit(old(self), c, column, row));
                    if c < k {
                        assert(!self.in_note_interior(self.layouts[c], column, row));
                    }
                    if c > k {
                        assert(!self.in_note_interior(self.layouts[k as int], column, row));
                    }
                    assert(c == k);
                }
                self.focused = Some(k);
                return MouseOutcome::PlaceCursor { note: k, point };
            }
            k += 1;
        }
        assert forall|m: int| !first_note_hit(old(self), m, column, row) by {
            if 0 <= m < self.layouts.len() {
                assert(!self.in_note_interior(self.layouts[m], column, row));
            }
        }
        MouseOutcome::Nothing
    }

    /// Handles a drag with the left mouse button to `column`, `row`;
    /// `rows` gives how many rows each memo's text wraps to now.
    pub fn drag_to(&mut self, column: u16, row: u16, rows: &Vec<usize>) -> (outcome: MouseOutcome)
        requires
            rows.len() == old(self).layouts.len(),
        ensures
            drag_post(old(self), final(self), column, row, rows@, outcome),
    {
        match self.drag {
            Some(Drag::Text { note, anchor }) => {
                if note >= self.layouts.len() {
                    return MouseOutcome::Nothing;
                }
                let layout = self.layouts[note];
                if row < self.viewport.y {
                    self.scroll = self.scroll.saturating_sub(1);
                } else if row >= self.viewport.bottom() {
                    let max = self.max_scroll();
                    let next = self.scroll.saturating_add(1);
                    self.scroll = if next < max {
                        next
                    } else {
                        max
                    };
                }
                let point = self.hit_point(layout, rows[note], column, row);
                MouseOutcome::ExtendSelection { note, anchor, point }
            },
            Some(Drag::Scrollbar) => {
                self.set_scroll_from_mouse(row);
                MouseOutcome::Nothing
            },
            None => MouseOutcome::Nothing,
        }
    }

    /// Handles a mouse event at `column`, `row`; `rows` gives how many rows
    /// each memo's text wraps to now. The wheel scrolls by a few rows,
    /// releasing the left button ends a drag, and other events are
    /// ignored.
    pub fn handle_mouse(&mut self, kind: MouseKind, column: u16, row: u16, rows: &Vec<usize>) -> (outcome: MouseOutcome)
        requires
            rows.len() == old(self).layouts.len(),
        ensures
            match kind {
                MouseKind::ScrollUp => only_scrolled(
                    old(self),
                    final(self),
                    sat_sub32(old(self).scroll as int, SCROLL_STEP as int),
                ) && outcome == MouseOutcome::Nothing,
                MouseKind::ScrollDown => only_scrolled(
                    old(self),
                    final(self),
                    min_int(
                        sat_add32(old(self).scroll as int, SCROLL_STEP as int) as int,
                        old(self).max_scroll_spec() as int,
                    ) as u32,
                ) && outcome == MouseOutcome::Nothing,
                MouseKind::LeftDrag => drag_post(old(self), final(self), column, row, rows@, outcome),
                MouseKind::LeftUp => {
                    &&& final(self)@ == old(self)@
                    &&& same_screen(old(self), final(self))
                    &&& final(self).drag is None
                    &&& outcome == MouseOutcome::Nothing
                },
                MouseKind::LeftDown => press_post(old(self), final(self), column, row, rows@, outcome),
                MouseKind::Other => only_scrolled(old(self), final(self), old(self).scroll) && outcome
                    == MouseOutcome::Nothing,
            },
    {
        match kind {
            MouseKind::ScrollUp => {
                self.scroll = self.scroll.saturating_sub(SCROLL_STEP);
                MouseOutcome::Nothing
            },
            MouseKind::ScrollDown => {
                let max = self.max_scroll();
                let next = self.scroll.saturating_add(SCROLL_STEP);
                self.scroll = if next < max {
                    next
                } else {
                    max
                };
                MouseOutcome::Nothing
            },
            MouseKind::LeftDrag => self.drag_to(column, row, rows),
            MouseKind::LeftUp => {
                self.drag = None;
                MouseOutcome::Nothing
            },
            MouseKind::LeftDown => self.press(column, row, rows),
            MouseKind::Other => MouseOutcome::Nothing,
        }
    }
}

/// The waiting deletion, once confirmed, removes or empties something.
pub open spec fn deletes_something(v: SessionView) -> bool {
    match v.pending {
        Some(Pending::Clear(i)) => i < v.notes.len() && v.notes[i as int].len() > 0,
        Some(Pending::Delete(i)) => i < v.notes.len(),
        Some(Pending::DeleteAll) => v.notes.len() > 0,
        None => false,
    }
}

/// Law: the history keeps the latest deletions. Remembering a deletion
/// makes it the latest one and keeps the earlier ones in order, dropping the
/// oldest when the history was full.
pub proof fn lemma_remember(deleted: Seq<DeletedView>, d: DeletedView, limit: usize)
    requires
        limit >= 1,
        deleted.len() <= limit,
    ensures
        remember(deleted, d, limit).len() == min_int((deleted.len() + 1) as int, limit as int),
        remember(deleted, d, limit).last() == d,
        remember(deleted, d, limit).drop_last() == if deleted.len() == limit {
            deleted.drop_first()
        } else {
            deleted
        },
{
    let more = deleted.push(d);
    if more.len() > limit {
        assert(more.drop_first().last() == more.last());
        assert(more.drop_first().drop_last() == deleted.drop_first());
    } else {
        assert(more.drop_last() == deleted);
    }
}

/// Law: restoring undoes a confirmed deletion. Confirming a waiting
/// clear, delete or delete-all and then pressing restore gives back the
/// memos exactly as they were, as long as the history keeps at least one
/// deletion; the restored memo (the first one after deleting all) has the
/// focus, and the history is as before, less its oldest entry when it was
/// full.
pub proof fn lemma_restore_undoes_deletion(v: SessionView)
    requires
        session_ok(v),
        v.history_limit >= 1,
        deletes_something(v),
    ensures
        activate_spec(activate_spec(v, Action::Confirm), Action::Restore).notes == v.notes,
        activate_spec(activate_spec(v, Action::Confirm), Action::Restore).pending is None,
        activate_spec(activate_spec(v, Action::Confirm), Action::Restore).focused == match v.pending {
            Some(Pending::Clear(i)) => Some(i),
            Some(Pending::Delete(i)) => Some(i),
            _ => Some(0usize),
        },
        activate_spec(activate_spec(v, Action::Confirm), Action::Restore).deleted == if v.deleted.len()
            == v.history_limit {
            v.deleted.drop_first()
        } else {
            v.deleted
        },
{
    let c = activate_spec(v, Action::Confirm);
    assert(c == confirm_spec(v));
    assert(!c.settings_open && c.pending is None);
    match v.pending {
        Some(Pending::Clear(i)) => {
            lemma_remember(
                v.deleted,
                DeletedView::Clear { index: i, text: v.notes[i as int] },
                v.history_limit,
            );
            assert(c.notes.update(i as int, v.notes[i as int]) =~= v.notes);
        },
        Some(Pending::Delete(i)) => {
            lemma_remember(
                v.deleted,
                DeletedView::Note { index: i, text: v.notes[i as int] },
                v.history_limit,
            );
            assert(c.notes.insert(i as int, v.notes[i as int]) =~= v.notes);
        },
        Some(Pending::DeleteAll) => {
            lemma_remember(v.deleted, DeletedView::All { notes: v.notes }, v.history_limit);
        },
        None => {},
    }
}

/// Law: deleting and clearing wait for confirmation. No action but
/// confirming, restoring or adding changes the memos; in particular
/// pressing clear, delete or delete all only asks, and cancelling
/// discards the request.
pub proof fn lemma_only_confirm_restore_add_edit(v: SessionView, action: Action)
    requires
        action != Action::Confirm,
        action != Action::Restore,
        action != Action::Add,
    ensures
        activate_spec(v, action).notes == v.notes,
        action == Action::Cancel && v.pending is Some ==> activate_spec(v, action) == (SessionView {
            pending: None,
            ..v
        }),
{
}

/// Law: the state stays consistent. Every action keeps the history
/// within its limit and never leaves a deletion waiting while the
/// settings dialog is open.
pub proof fn lemma_activate_keeps_session_ok(v: SessionView, action: Action)
    requires
        session_ok(v),
    ensures
        session_ok(activate_spec(v, action)),
{
    if v.pending is Some && action == Action::Confirm {
        let d = match v.pending {
            Some(Pending::Clear(i)) => DeletedView::Clear { index: i, text: v.notes[i as int] },
            Some(Pending::Delete(i)) => DeletedView::Note { index: i, text: v.notes[i as int] },
            _ => DeletedView::All { notes: v.notes },
        };
        let more = v.deleted.push(d);
        assert(remember(v.deleted, d, v.history_limit).len() <= v.history_limit) by {
            if more.len() > v.history_limit {
                assert(more.drop_first().len() == more.len() - 1);
            }
        }
    }
}

/// Law: the settings keep the memo height within the allowed range.
pub proof fn lemma_activate_keeps_height(v: SessionView, action: Action)
    requires
        MIN_HEIGHT <= v.height <= MAX_HEIGHT,
    ensures
        MIN_HEIGHT <= activate_spec(v, action).height <= MAX_HEIGHT,
{
}

/// Pasted text with its line ends made newlines: CRLF pairs, then any
/// carriage return left.
pub open spec fn pasted_text(value: Seq<char>) -> Seq<char> {
    crlf_to_lf(value).map_values(|c: char| if c == '\r' { '\n' } else { c })
}

/// Pasted text with CRLF and lone carriage returns turned into newlines.
pub fn normalize_paste(value: &str) -> (text: String)
    ensures
        text@ == pasted_text(value@),
{
    let chars = chars_of(value);
    let mut out: Vec<char> = Vec::new();
    let mut i: usize = 0;
    assert(chars@.skip(0) == chars@);
    let ghost lf = crlf_to_lf(chars@);
    let ghost done: Seq<char> = Seq::empty();
    while i < chars.len()
        invariant
            i <= chars.len(),
            lf == crlf_to_lf(chars@),
            lf == done + crlf_to_lf(chars@.skip(i as int)),
            out@ == done.map_values(|c: char| if c == '\r' { '\n' } else { c }),
        decreases chars.len() - i,
    {
        let ghost rest = chars@.skip(i as int);
        if i + 1 < chars.len() && chars[i] == '\r' && chars[i + 1] == '\n' {
            assert(rest.skip(2) == chars@.skip(i + 2));
            out.push('\n');
            proof {
                done = done.push('\n');
            }
            i += 2;
        } else {
            assert(rest.drop_first() == chars@.skip(i + 1));
            let c = chars[i];
            out.push(if c == '\r' {
                '\n'
            } else {
                c
            });
            proof {
                done = done.push(c);
            }
            i += 1;
        }
        assert(out@ =~= done.map_values(|c: char| if c == '\r' { '\n' } else { c }));
    }
    assert(chars@.skip(chars.len() as int) == Seq::<char>::empty());
    assert(done + Seq::<char>::empty() == done);
    string_of(&out)
}

impl Session {
    /// Where the add button goes below the last memo: on the row after the
    /// last memo's gap (the list's last row), centred in the `usable_width`
    /// columns left of the scrollbar, if that row is in view and the button,
    /// `label_width` columns wide with its padding, fits.
    pub fn add_button_area(&self, usable_width: u16, label_width: u16) -> (area: Option<Area>)
        requires
            self.viewport.y + self.viewport.height <= u16::MAX,
            self.viewport.x + usable_width <= u16::MAX,
        ensures
            area == ({
                let row = sat_sub32(self.total_height as int, 1);
                if row < self.scroll || row - self.scroll >= self.viewport.height {
                    None::<Area>
                } else {
                    button_area_spec(
                        (self.viewport.x + sat_sub16(
                            usable_width as int,
                            min_int(label_width as int, usable_width as int),
                        ) / 2) as u16,
                        (self.viewport.y + (row - self.scroll)) as u16,
                        (self.viewport.x + usable_width) as u16,
                        label_width,
                    )
                }
            }),
    {
        let row = self.total_height.saturating_sub(1);
        match self.screen_y(row) {
            None => None,
            Some(y) => {
                let shown = if label_width < usable_width {
                    label_width
                } else {
                    usable_width
                };
                let x = self.viewport.x + usable_width.saturating_sub(shown) / 2;
                button_area(x, y, self.viewport.x + usable_width, label_width)
            },
        }
    }
}

/// A key of the keyboard, as the memo pad tells keys apart.
#[derive(Clone, Copy, Debug, PartialEq, Eq, Structural)]
pub enum KeyInput {
    Char(char),
    Enter,
    Tab,
    Backspace,
    Delete,
    Left,
    Right,
    Up,
    Down,
    Home,
    End,
    PageUp,
    PageDown,
    Esc,
    Other,
}

/// What a key asks of the program: an action's effect, or an editing
/// operation on the memo that gets the keys.
#[derive(Clone, Copy, Debug, PartialEq, Eq, Structural)]
pub enum KeyCommand {
    Nothing,
    Activated(Effect),
    SelectAll,
    Copy,
    Cut,
    Paste,
    Undo,
    Redo,
    Insert(char),
    InsertNewline,
    InsertTab,
    Backspace,
    Delete,
    /// Move the cursor one character (or word) back or forward.
    MoveHorizontal { forward: bool, extend: bool, by_word: bool },
    /// Move the cursor one visual line up or down.
    MoveVertical { down: bool, extend: bool },
    /// Move the cursor to the start or end of the memo.
    MoveDocumentEdge { end: bool, extend: bool },
    /// Move the cursor to the start or end of its visual line.
    MoveLineEdge { end: bool, extend: bool },
    /// Move the cursor a page up or down.
    MovePage { down: bool, extend: bool },
}

/// `c` is the letter whose lower and upper case are given.
pub open spec fn is_letter(c: char, lower: char, upper: char) -> bool {
    c == lower || c == upper
}

/// The editing operation that a key asks for in the memo that gets keys:
/// Ctrl+A, C, X, V select all, copy, cut and paste; Ctrl+Z undoes and
/// Ctrl+Shift+Z or Ctrl+Y redoes; other characters (without Alt) are typed;
/// Enter, Tab, Backspace and Delete edit; the arrows, Home, End and the page
/// keys move the cursor, extending the selection with Shift (Ctrl makes the
/// arrows move by word and Home and End go to the memo's ends).
pub open spec fn editing_command(key: KeyInput, control: bool, shift: bool, alt: bool) -> KeyCommand {
    match key {
        KeyInput::Char(c) => if control {
            if is_letter(c, 'a', 'A') {
                KeyCommand::SelectAll
            } else if is_letter(c, 'c', 'C') {
                KeyCommand::Copy
            } else if is_letter(c, 'x', 'X') {
                KeyCommand::Cut
            } else if is_letter(c, 'v', 'V') {
                KeyCommand::Paste
            } else if is_letter(c, 'z', 'Z') {
                if shift {
                    KeyCommand::Redo
                } else {
                    KeyCommand::Undo
                }
            } else if is_letter(c, 'y', 'Y') {
                KeyCommand::Redo
            } else {
                KeyCommand::Nothing
            }
        } else if !alt {
            KeyCommand::Insert(c)
        } else {
            KeyCommand::Nothing
        },
        KeyInput::Enter => KeyCommand::InsertNewline,
        KeyInput::Tab => KeyCommand::InsertTab,
        KeyInput::Backspace => KeyCommand::Backspace,
        KeyInput::Delete => KeyCommand::Delete,
        KeyInput::Left => KeyCommand::MoveHorizontal { forward: false, extend: shift, by_word: control },
        KeyInput::Right => KeyCommand::MoveHorizontal { forward: true, extend: shift, by_word: control },
        KeyInput::Up => KeyCommand::MoveVertical { down: false, extend: shift },
        KeyInput::Down => KeyCommand::MoveVertical { down: true, extend: shift },
        KeyInput::Home => if control {
            KeyCommand::MoveDocumentEdge { end: false, extend: shift }
        } else {
            KeyCommand::MoveLineEdge { end: false, extend: shift }
        },
        KeyInput::End => if control {
            KeyCommand::MoveDocumentEdge { end: true, extend: shift }
        } else {
            KeyCommand::MoveLineEdge { end: true, extend: shift }
        },
        KeyInput::PageUp => KeyCommand::MovePage { down: false, extend: shift },
        KeyInput::PageDown => KeyCommand::MovePage { down: true, extend: shift },
        _ => KeyCommand::Nothing,
    }
}

/// The action that a key runs, if any: Ctrl+D saves and quits, Ctrl+N adds
/// a memo, Enter confirms a waiting deletion, and Esc closes (and saves) the
/// settings.
pub open spec fn key_action(v: SessionView, key: KeyInput, control: bool) -> Option<Action> {
    match key {
        KeyInput::Char(c) => if control && is_letter(c, 'd', 'D') {
            Some(Action::Quit)
        } else if control && is_letter(c, 'n', 'N') {
            Some(Action::Add)
        } else {
            None
        },
        KeyInput::Enter => if v.pending is Some {
            Some(Action::Confirm)
        } else {
            None
        },
        KeyInput::Esc => if v.settings_open {
            Some(Action::SettingsDone)
        } else {
            None
        },
        _ => None,
    }
}

/// The memo that gets typed keys: the focused one, unless a dialog is open.
pub open spec fn key_target_spec(v: SessionView) -> Option<usize> {
    if v.pending is Some || v.settings_open {
        None
    } else {
        match v.focused {
            Some(i) => if i < v.notes.len() {
                Some(i)
            } else {
                None
            },
            None => None,
        }
    }
}

impl Session {
    /// Handles a key: a release does nothing; Ctrl+D asks to save and quit
    /// (whatever is open), Ctrl+N adds a memo, Enter confirms a waiting
    /// deletion and Esc closes the settings; otherwise, with no dialog
    /// open, the key goes to the focused memo as an editing operation. The
    /// result names that memo and what to do there.
    pub fn handle_key(&mut self, press: bool, key: KeyInput, control: bool, shift: bool, alt: bool) -> (cmd: (Option<usize>, KeyCommand))
        ensures
            !press ==> final(self)@ == old(self)@ && cmd == (None::<usize>, KeyCommand::Nothing),
            press && key == KeyInput::Char('d') && control ==> cmd == (None::<usize>, KeyCommand::Activated(Effect::QuitRequested)),
            press ==> match key_action(old(self)@, key, control) {
                Some(Action::Quit) => final(self)@ == old(self)@ && cmd == (
                    None::<usize>,
                    KeyCommand::Activated(Effect::QuitRequested),
                ),
                Some(action) => final(self)@ == activate_spec(old(self)@, action) && cmd == (
                    None::<usize>,
                    KeyCommand::Activated(activate_effect(old(self)@, action)),
                ),
                None => final(self)@ == old(self)@ && cmd == match key_target_spec(old(self)@) {
                    Some(i) => (Some(i), editing_command(key, control, shift, alt)),
                    None => (None::<usize>, KeyCommand::Nothing),
                },
            },
            same_screen(old(self), final(self)),
            final(self).drag == old(self).drag,
    {
        if !press {
            return (None, KeyCommand::Nothing);
        }
        let action = match key {
            KeyInput::Char(c) => if control && (c == 'd' || c == 'D') {
                Some(Action::Quit)
            } else if control && (c == 'n' || c == 'N') {
                Some(Action::Add)
            } else {
                None
            },
            KeyInput::Enter => if self.pending.is_some() {
                Some(Action::Confirm)
            } else {
                None
            },
            KeyInput::Esc => if self.settings_open {
                Some(Action::SettingsDone)
            } else {
                None
            },
            _ => None,
        };
        match action {
            Some(Action::Quit) => {
                return (None, KeyCommand::Activated(Effect::QuitRequested));
            },
            Some(action) => {
                let effect = self.activate(action);
                return (None, KeyCommand::Activated(effect));
            },
            None => {},
        }
        let index = match self.key_target() {
            Some(i) => i,
            None => {
                return (None, KeyCommand::Nothing);
            },
        };
        let command = match key {
            KeyInput::Char(c) => if control {
                if c == 'a' || c == 'A' {
                    KeyCommand::SelectAll
                } else if c == 'c' || c == 'C' {
                    KeyCommand::Copy
                } else if c == 'x' || c == 'X' {
                    KeyCommand::Cut
                } else if c == 'v' || c == 'V' {
                    KeyCommand::Paste
                } else if c == 'z' || c == 'Z' {
                    if shift {
                        KeyCommand::Redo
                    } else {
                        KeyCommand::Undo
                    }
                } else if c == 'y' || c == 'Y' {
                    KeyCommand::Redo
                } else {
                    KeyCommand::Nothing
                }
            } else if !alt {
                KeyCommand::Insert(c)
            } else {
                KeyCommand::Nothing
            },
            KeyInput::Enter => KeyCommand::InsertNewline,
            KeyInput::Tab => KeyCommand::InsertTab,
            KeyInput::Backspace => KeyCommand::Backspace,
            KeyInput::Delete => KeyCommand::Delete,
            KeyInput::Left => KeyCommand::MoveHorizontal { forward: false, extend: shift, by_word: control },
            KeyInput::Right => KeyCommand::MoveHorizontal { forward: true, extend: shift, by_word: control },
            KeyInput::Up => KeyCommand::MoveVertical { down: false, extend: shift },
            KeyInput::Down => KeyCommand::MoveVertical { down: true, extend: shift },
            KeyInput::Home => if control {
                KeyCommand::MoveDocumentEdge { end: false, extend: shift }
            } else {
                KeyCommand::MoveLineEdge { end: false, extend: shift }
            },
            KeyInput::End => if control {
                KeyCommand::MoveDocumentEdge { end: true, extend: shift }
            } else {
                KeyCommand::MoveLineEdge { end: true, extend: shift }
            },
            KeyInput::PageUp => KeyCommand::MovePage { down: false, extend: shift },
            KeyInput::PageDown => KeyCommand::MovePage { down: true, extend: shift },
            _ => KeyCommand::Nothing,
        };
        (Some(index), command)
    }
}

/// The plain state of saving: whether there are unsaved changes, whether
/// the last save failed, and whether the program is to quit.
pub struct SaveStateView {
    pub dirty: bool,
    pub save_failed: bool,
    pub quit: bool,
}

/// Whether the memos are saved, and whether the program may quit. The
/// program never quits with unsaved changes: a failed save keeps it open.
pub struct SaveState {
    dirty: bool,
    save_failed: bool,
    quit: bool,
}

/// What to do when the user asks to quit.
#[derive(Clone, Copy, Debug, PartialEq, Eq, Structural)]
pub enum QuitStep {
    /// Save first, then call `after_save` with `quitting` set.
    Save,
    /// Nothing is unsaved: quit now.
    Quit,
}

impl View for SaveState {
    type V = SaveStateView;

    closed spec fn view(&self) -> SaveStateView {
        SaveStateView { dirty: self.dirty, save_failed: self.save_failed, quit: self.quit }
    }
}

impl SaveState {
    #[verifier::type_invariant]
    spec fn never_quits_unsaved(self) -> bool {
        self.quit ==> !self.dirty
    }

    /// Everything saved, no error, not quitting.
    pub fn new() -> (state: Self)
        ensures
            state@ == (SaveStateView { dirty: false, save_failed: false, quit: false }),
    {
        SaveState { dirty: false, save_failed: false, quit: false }
    }

    /// Whether there are unsaved changes.
    pub fn dirty(&self) -> (dirty: bool)
        ensures
            dirty == self@.dirty,
    {
        self.dirty
    }

    /// Whether the last save failed.
    pub fn save_failed(&self) -> (failed: bool)
        ensures
            failed == self@.save_failed,
    {
        self.save_failed
    }

    /// Whether the program is to quit; never while changes are unsaved.
    pub fn quit(&self) -> (quit: bool)
        ensures
            quit == self@.quit,
            quit ==> !self@.dirty,
    {
        proof {
            use_type_invariant(self);
        }
        self.quit
    }

    /// The memos were changed: they are unsaved, the last save error no
    /// longer counts, and quitting is off.
    pub fn edited(self) -> (next: Self)
        ensures
            next@ == (SaveStateView { dirty: true, save_failed: false, quit: false }),
    {
        SaveState { dirty: true, save_failed: false, quit: false }
    }

    /// The user asked to quit: quit at once when nothing is unsaved,
    /// otherwise save first.
    pub fn on_quit(self) -> (step: (QuitStep, Self))
        ensures
            step.0 == if self@.dirty {
                QuitStep::Save
            } else {
                QuitStep::Quit
            },
            step.1@ == (SaveStateView { quit: self@.quit || !self@.dirty, ..self@ }),
            step.1@.quit ==> !step.1@.dirty,
    {
        proof {
            use_type_invariant(&self);
        }
        if self.dirty {
            (QuitStep::Save, self)
        } else {
            (QuitStep::Quit, SaveState { quit: true, ..self })
        }
    }

    /// A save ended, successfully or not, while quitting or not: a
    /// successful save leaves nothing unsaved (and quits when quitting); a
    /// failed one keeps the changes unsaved, records the failure, and does
    /// not quit.
    pub fn after_save(self, ok: bool, quitting: bool) -> (next: Self)
        ensures
            next@ == if ok {
                SaveStateView { dirty: false, save_failed: false, quit: self@.quit || quitting }
            } else {
                SaveStateView { dirty: true, save_failed: true, quit: false }
            },
            next@.quit ==> !next@.dirty,
    {
        if ok {
            SaveState { dirty: false, save_failed: false, quit: self.quit || quitting }
        } else {
            SaveState { dirty: true, save_failed: true, quit: false }
        }
    }
}

impl Pending {
    /// The message that asks to confirm this deletion, and the number (from
    /// 1) of the memo it concerns.
    pub fn confirmation_message(&self) -> (message: (&'static str, Option<usize>))
        requires
            match *self {
                Pending::Clear(i) => i < usize::MAX,
                Pending::Delete(i) => i < usize::MAX,
                Pending::DeleteAll => true,
            },
        ensures
            match *self {
                Pending::Clear(i) => message.0@ == "confirm-clear"@ && message.1 == Some((i + 1) as usize),
                Pending::Delete(i) => message.0@ == "confirm-delete"@ && message.1 == Some((i + 1) as usize),
                Pending::DeleteAll => message.0@ == "confirm-delete-all"@ && message.1 is None,
            },
    {
        match *self {
            Pending::Clear(i) => ("confirm-clear", Some(i + 1)),
            Pending::Delete(i) => ("confirm-delete", Some(i + 1)),
            Pending::DeleteAll => ("confirm-delete-all", None),
        }
    }
}

impl Session {
    /// The toolbar's buttons: restore can be pressed when a deletion can be
    /// restored, delete all when there are memos.
    pub fn toolbar(&self) -> (buttons: (ToolbarButton, Vec<ToolbarButton>))
        ensures
            buttons.0 == (ToolbarButton { action: Action::Settings, enabled: true, destructive: false }),
            buttons.1@ == seq![
                ToolbarButton { action: Action::Add, enabled: true, destructive: false },
                ToolbarButton { action: Action::Quit, enabled: true, destructive: false },
                ToolbarButton { action: Action::Restore, enabled: self.deleted.len() > 0, destructive: false },
                ToolbarButton { action: Action::DeleteAll, enabled: self.notes.len() > 0, destructive: true },
            ],
    {
        toolbar_buttons(self.deleted.len() > 0, self.notes.len() > 0)
    }
}

/// How long after the last change the memo file is saved, in nanoseconds.
pub const AUTOSAVE_DELAY_NANOS: u64 = 300_000_000;

/// The longest wait for a terminal event, in nanoseconds.
pub const IDLE_POLL_NANOS: u64 = 100_000_000;

/// How long to wait for the next terminal event, in nanoseconds, given how
/// long ago the unsaved changes began (`None` when there are none): until
/// the autosave is due, but never longer than the idle wait.
pub fn poll_timeout_nanos(dirty_for: Option<u128>) -> (wait: u64)
    ensures
        wait == match dirty_for {
            Some(elapsed) => min_int(
                if elapsed >= AUTOSAVE_DELAY_NANOS {
                    0
                } else {
                    AUTOSAVE_DELAY_NANOS - elapsed
                },
                IDLE_POLL_NANOS as int,
            ),
            None => IDLE_POLL_NANOS as int,
        },
{
    match dirty_for {
        Some(elapsed) => {
            if elapsed >= AUTOSAVE_DELAY_NANOS as u128 {
                0
            } else {
                let left = AUTOSAVE_DELAY_NANOS - elapsed as u64;
                if left < IDLE_POLL_NANOS {
                    left
                } else {
                    IDLE_POLL_NANOS
                }
            }
        },
        None => IDLE_POLL_NANOS,
    }
}

/// Whether the unsaved changes, begun `dirty_for` nanoseconds ago (`None`
/// when there are none), are due to be saved.
pub fn autosave_due(dirty_for: Option<u128>) -> (due: bool)
    ensures
        due == match dirty_for {
            Some(elapsed) => elapsed >= AUTOSAVE_DELAY_NANOS,
            None => false,
        },
{
    match dirty_for {
        Some(elapsed) => elapsed >= AUTOSAVE_DELAY_NANOS as u128,
        None => false,
    }
}

/// Law: adding a memo appends an empty memo at the end of the list and
/// focuses it, whatever memo had the focus: the memos before it stay as
/// they were, in order.
pub proof fn lemma_add_appends_at_end(v: SessionView)
    requires
        v.pending is None,
        !v.settings_open,
    ensures
        activate_spec(v, Action::Add).notes.len() == v.notes.len() + 1,
        activate_spec(v, Action::Add).notes.last() == Seq::<char>::empty(),
        activate_spec(v, Action::Add).notes.drop_last() == v.notes,
        activate_spec(v, Action::Add).focused == Some(v.notes.len() as usize),
        activate_effect(v, Action::Add) == Effect::Edited(NoteEdit::Appended),
{
    assert(activate_spec(v, Action::Add).notes.drop_last() =~= v.notes);
}

/// Law: confirming a waiting delete-all deletes every memo, whatever memo
/// had the focus: the list is empty, nothing has the focus, and the whole
/// list, in order, is the latest deletion to restore.
pub proof fn lemma_delete_all_empties_the_list(v: SessionView)
    requires
        session_ok(v),
        v.history_limit >= 1,
        v.pending == Some(Pending::DeleteAll),
        v.notes.len() > 0,
    ensures
        activate_spec(v, Action::Confirm).notes.len() == 0,
        activate_spec(v, Action::Confirm).focused is None,
        activate_spec(v, Action::Confirm).pending is None,
        activate_spec(v, Action::Confirm).deleted.last() == (DeletedView::All { notes: v.notes }),
        activate_effect(v, Action::Confirm) == Effect::Edited(NoteEdit::RemovedAll),
{
    lemma_remember(v.deleted, DeletedView::All { notes: v.notes }, v.history_limit);
}

/// Law: with a memo focused and no dialog open, the editing keys do what
/// their names say in that memo: Backspace deletes before the cursor and
/// Delete after it (two different commands), Enter starts a new line, Tab
/// inserts the tab spaces, a character without Ctrl or Alt is typed, and
/// the arrows move back, forward, up and down. None of these keys is a
/// shortcut there.
pub proof fn lemma_keys_edit_the_focused_memo(v: SessionView, c: char, control: bool, shift: bool, alt: bool)
    requires
        key_target_spec(v) is Some,
    ensures
        key_action(v, KeyInput::Backspace, control) is None,
        editing_command(KeyInput::Backspace, control, shift, alt) == KeyCommand::Backspace,
        key_action(v, KeyInput::Delete, control) is None,
        editing_command(KeyInput::Delete, control, shift, alt) == KeyCommand::Delete,
        editing_command(KeyInput::Backspace, control, shift, alt) != editing_command(
            KeyInput::Delete,
            control,
            shift,
            alt,
        ),
        key_action(v, KeyInput::Enter, control) is None,
        editing_command(KeyInput::Enter, control, shift, alt) == KeyCommand::InsertNewline,
        key_action(v, KeyInput::Tab, control) is None,
        editing_command(KeyInput::Tab, control, shift, alt) == KeyCommand::InsertTab,
        !control ==> key_action(v, KeyInput::Char(c), control) is None,
        !control && !alt ==> editing_command(KeyInput::Char(c), control, shift, alt) == KeyCommand::Insert(c),
        editing_command(KeyInput::Left, control, shift, alt) == (KeyCommand::MoveHorizontal {
            forward: false,
            extend: shift,
            by_word: control,
        }),
        editing_command(KeyInput::Right, control, shift, alt) == (KeyCommand::MoveHorizontal {
            forward: true,
            extend: shift,
            by_word: control,
        }),
        editing_command(KeyInput::Up, control, shift, alt) == (KeyCommand::MoveVertical {
            down: false,
            extend: shift,
        }),
        editing_command(KeyInput::Down, control, shift, alt) == (KeyCommand::MoveVertical {
            down: true,
            extend: shift,
        }),
{
}

/// Law: a click lands on what is shown under the pointer. The list row at
/// a screen row is the scroll plus the row's offset in the viewport, so a
/// session scrolled `d` rows further shows at screen row `row` what the
/// other shows at `row + d`: the same memo is hit, its interior the same,
/// and the click lands on the same point of its text.
pub proof fn lemma_click_follows_scroll(
    a: Session,
    b: Session,
    layout: NoteLayout,
    rendered: usize,
    column: u16,
    row: u16,
    d: u16,
)
    requires
        a.viewport == b.viewport,
        a.layouts@ == b.layouts@,
        a.scroll == b.scroll + d,
        a.viewport.y <= row,
        row + d <= u16::MAX,
    ensures
        a.list_row(row) == b.list_row((row + d) as u16),
        a.list_row(row) == min_int(a.scroll + (row - a.viewport.y), u32::MAX as int),
        a.in_note_interior(layout, column, row) == b.in_note_interior(layout, column, (row + d) as u16),
        a.hit_point_spec(layout, rendered, column, row) == b.hit_point_spec(
            layout,
            rendered,
            column,
            (row + d) as u16,
        ),
        forall|k: int|
            first_note_hit(&a, k, column, row) == #[trigger] first_note_hit(&b, k, column, (row + d) as u16),
{
    let r2 = (row + d) as u16;
    assert forall|l: NoteLayout| #[trigger] a.in_note_interior(l, column, row) == b.in_note_interior(l, column, r2) by {}
    assert forall|k: int| first_note_hit(&a, k, column, row) == #[trigger] first_note_hit(&b, k, column, r2) by {
        if 0 <= k < a.layouts.len() {
            assert(a.layouts[k] == b.layouts[k]);
        }
    }
}

} // verus!

