use babomemo::app::{
    Action, Deleted, Drag, Effect, HitPoint, MouseKind, MouseOutcome, NoteEdit, Pending, Session,
};
use babomemo::config::Config;
use babomemo::document::Document;
use babomemo::layout::{centered, layout_notes, scrollbar_thumb, Area, NoteLayout};

fn session(notes: &[&str], limit: usize) -> Session {
    let document = Document { notes: notes.iter().map(|n| n.to_string()).collect() };
    Session::new(document, Config { default_height: 5 }, limit)
}

fn texts(s: &Session) -> Vec<&str> {
    s.notes.iter().map(|n| n.as_str()).collect()
}

#[test]
fn delete_waits_for_confirmation_and_restore_brings_it_back() {
    let mut s = session(&["a", "b", "c"], 8);
    assert_eq!(s.activate(Action::Delete(1)), Effect::Nothing);
    assert_eq!(texts(&s), vec!["a", "b", "c"]);
    assert_eq!(s.pending, Some(Pending::Delete(1)));
    assert_eq!(s.activate(Action::Confirm), Effect::Edited(NoteEdit::Removed(1)));
    assert_eq!(texts(&s), vec!["a", "c"]);
    assert_eq!(s.focused, Some(1));
    assert_eq!(s.pending, None);
    assert_eq!(s.activate(Action::Restore), Effect::Edited(NoteEdit::Inserted(1)));
    assert_eq!(texts(&s), vec!["a", "b", "c"]);
    assert_eq!(s.focused, Some(1));
    assert_eq!(s.deleted.len(), 0);
}

#[test]
fn deleting_the_last_note_moves_focus_back() {
    let mut s = session(&["a", "b"], 8);
    s.activate(Action::Delete(1));
    s.activate(Action::Confirm);
    assert_eq!(s.focused, Some(0));
    s.activate(Action::Delete(0));
    s.activate(Action::Confirm);
    assert_eq!(s.focused, None);
    assert!(s.notes.is_empty());
}

#[test]
fn clear_waits_for_confirmation_and_restore_brings_text_back() {
    let mut s = session(&["keep", "text"], 8);
    s.activate(Action::Clear(1));
    assert_eq!(texts(&s), vec!["keep", "text"]);
    assert_eq!(s.activate(Action::Confirm), Effect::Edited(NoteEdit::Cleared(1)));
    assert_eq!(texts(&s), vec!["keep", ""]);
    assert_eq!(s.activate(Action::Restore), Effect::Edited(NoteEdit::Replaced(1)));
    assert_eq!(texts(&s), vec!["keep", "text"]);
}

#[test]
fn clearing_an_empty_note_remembers_nothing() {
    let mut s = session(&[""], 8);
    s.activate(Action::Clear(0));
    assert_eq!(s.activate(Action::Confirm), Effect::Nothing);
    assert_eq!(s.deleted.len(), 0);
    assert_eq!(s.pending, None);
}

#[test]
fn delete_all_and_restore() {
    let mut s = session(&["x", "y"], 8);
    s.scroll = 7;
    s.activate(Action::DeleteAll);
    assert_eq!(s.activate(Action::Confirm), Effect::Edited(NoteEdit::RemovedAll));
    assert!(s.notes.is_empty());
    assert_eq!(s.scroll, 0);
    assert_eq!(s.focused, None);
    assert_eq!(s.activate(Action::Restore), Effect::Edited(NoteEdit::ReplacedAll));
    assert_eq!(texts(&s), vec!["x", "y"]);
    assert_eq!(s.focused, Some(0));
}

#[test]
fn cancel_discards_the_request() {
    let mut s = session(&["a"], 8);
    s.activate(Action::DeleteAll);
    assert_eq!(s.activate(Action::Add), Effect::Nothing);
    assert_eq!(s.activate(Action::Cancel), Effect::Nothing);
    assert_eq!(s.pending, None);
    assert_eq!(texts(&s), vec!["a"]);
}

#[test]
fn restore_with_empty_history_does_nothing() {
    let mut s = session(&["a"], 8);
    assert_eq!(s.activate(Action::Restore), Effect::Nothing);
    assert_eq!(texts(&s), vec!["a"]);
}

#[test]
fn history_keeps_only_the_latest_deletions() {
    let mut s = session(&["a", "b", "c"], 2);
    for _ in 0..3 {
        s.activate(Action::Delete(0));
        s.activate(Action::Confirm);
    }
    assert_eq!(s.deleted.len(), 2);
    assert!(matches!(&s.deleted[0], Deleted::Note { index: 0, text } if text == "b"));
    s.activate(Action::Restore);
    s.activate(Action::Restore);
    assert_eq!(s.activate(Action::Restore), Effect::Nothing);
    assert_eq!(texts(&s), vec!["b", "c"]);
}

#[test]
fn add_appends_and_focuses_an_empty_note() {
    let mut s = session(&["a"], 8);
    assert_eq!(s.activate(Action::Add), Effect::Edited(NoteEdit::Appended));
    assert_eq!(texts(&s), vec!["a", ""]);
    assert_eq!(s.focused, Some(1));
    assert_eq!(s.scroll, u32::MAX);
}

#[test]
fn settings_change_height_within_limits() {
    let mut s = session(&[], 8);
    s.activate(Action::Settings);
    assert!(s.settings_open);
    assert_eq!(s.activate(Action::Delete(0)), Effect::Nothing);
    assert_eq!(s.pending, None);
    for _ in 0..10 {
        s.activate(Action::SettingsHeightLess);
    }
    assert_eq!(s.config.default_height, 2);
    for _ in 0..100 {
        s.activate(Action::SettingsHeightMore);
    }
    assert_eq!(s.config.default_height, 40);
    assert_eq!(s.activate(Action::SettingsDone), Effect::SettingsClosed);
    assert!(!s.settings_open);
}

#[test]
fn quit_is_left_to_the_program() {
    let mut s = session(&["a"], 8);
    assert_eq!(s.activate(Action::Quit), Effect::QuitRequested);
    assert_eq!(texts(&s), vec!["a"]);
}

#[test]
fn document_holds_the_notes() {
    let s = session(&["one", "two"], 8);
    assert_eq!(s.document().notes, vec!["one".to_string(), "two".to_string()]);
}

#[test]
fn keys_go_to_the_focused_note_without_dialogs() {
    let mut s = session(&["a", "b"], 8);
    assert_eq!(s.key_target(), None);
    s.start_text_drag(1, 0);
    assert_eq!(s.key_target(), Some(1));
    s.activate(Action::Settings);
    assert_eq!(s.key_target(), None);
    s.activate(Action::SettingsDone);
    s.set_note_text(1, "changed".to_string());
    assert_eq!(texts(&s), vec!["a", "changed"]);
}

#[test]
fn note_layout_rows() {
    let layout = NoteLayout { top: 10, x: 4, width: 30, text_width: 26, text_height: 5 };
    assert_eq!(layout.text_x(), 6);
    assert_eq!(layout.text_top(), 12);
    assert_eq!(layout.text_bottom(), 17);
    assert_eq!(layout.bottom_border(), 18);
    assert_eq!(layout.height(), 9);
    let edge = NoteLayout { top: u32::MAX, x: u16::MAX, width: 1, text_width: 1, text_height: u16::MAX };
    assert_eq!(edge.text_x(), u16::MAX);
    assert_eq!(edge.text_top(), u32::MAX);
    assert_eq!(edge.height(), u16::MAX as u32);
}

#[test]
fn notes_are_stacked_with_gaps() {
    let (layouts, add_top) = layout_notes(0, 30, &vec![1, 8, 0], 5);
    assert_eq!(layouts.len(), 3);
    assert_eq!(layouts[0], NoteLayout { top: 0, x: 0, width: 30, text_width: 26, text_height: 5 });
    assert_eq!(layouts[1].top, 10);
    assert_eq!(layouts[1].text_height, 8);
    assert_eq!(layouts[2].top, 23);
    assert_eq!(add_top, 33);
    let (narrow, _) = layout_notes(0, 3, &vec![1], 2);
    assert_eq!(narrow[0].text_width, 1);
}

#[test]
fn dialogs_are_centred() {
    let modal = centered(Area::new(0, 0, 80, 24), 54, 8);
    assert_eq!(modal, Area { x: 13, y: 8, width: 54, height: 8 });
    let small = centered(Area::new(0, 0, 10, 4), 54, 8);
    assert_eq!(small, Area { x: 1, y: 0, width: 8, height: 3 });
}

#[test]
fn areas_are_clamped_to_the_coordinate_range() {
    let area = Area::new(65530, 10, 20, 5);
    assert_eq!(area.width, 5);
    assert_eq!(area.right(), u16::MAX);
    assert_eq!(area.bottom(), 15);
    assert!(area.contains(65530, 10));
    assert!(!area.contains(65530, 15));
}

#[test]
fn scrollbar_thumb_follows_scroll() {
    assert_eq!(scrollbar_thumb(0, 10, 20), None);
    assert_eq!(scrollbar_thumb(0, 10, 0), None);
    assert_eq!(scrollbar_thumb(0, 40, 10), Some((0, 2)));
    assert_eq!(scrollbar_thumb(30, 40, 10), Some((8, 2)));
    assert_eq!(scrollbar_thumb(15, 40, 10), Some((4, 2)));
}

fn laid_out(notes: &[&str]) -> Session {
    let mut s = session(notes, 8);
    let rows: Vec<usize> = notes.iter().map(|_| 1).collect();
    let (layouts, add_top) = layout_notes(0, 30, &rows, 5);
    s.set_layout(Area::new(0, 2, 31, 10), layouts, add_top);
    s
}

#[test]
fn scrolling_stays_within_the_list() {
    let mut s = laid_out(&["a", "b", "c"]);
    assert_eq!(s.total_height, 31);
    assert_eq!(s.max_scroll(), 21);
    let rows = vec![1, 1, 1];
    s.handle_mouse(MouseKind::ScrollDown, 0, 0, &rows);
    assert_eq!(s.scroll, 3);
    for _ in 0..20 {
        s.handle_mouse(MouseKind::ScrollDown, 0, 0, &rows);
    }
    assert_eq!(s.scroll, 21);
    s.handle_mouse(MouseKind::ScrollUp, 0, 0, &rows);
    assert_eq!(s.scroll, 18);
    s.reveal_row(2);
    assert_eq!(s.scroll, 2);
    s.reveal_row(30);
    assert_eq!(s.scroll, 21);
    assert_eq!(s.screen_y(21), Some(2));
    assert_eq!(s.screen_y(20), None);
    assert_eq!(s.screen_y(31), None);
}

#[test]
fn clicking_a_button_runs_its_action() {
    let mut s = laid_out(&["a"]);
    s.push_target(Area::new(0, 0, 5, 1), Action::Add);
    s.push_target(Area::new(3, 0, 5, 1), Action::Settings);
    assert_eq!(s.target_at(4, 0), Some(Action::Settings));
    assert_eq!(s.target_at(1, 0), Some(Action::Add));
    assert_eq!(s.target_at(9, 0), None);
    let rows = vec![1];
    assert_eq!(
        s.handle_mouse(MouseKind::LeftDown, 1, 0, &rows),
        MouseOutcome::Activated(Effect::Edited(NoteEdit::Appended))
    );
    assert_eq!(texts(&s), vec!["a", ""]);
    s.clear_targets();
    assert_eq!(s.target_at(1, 0), None);
}

#[test]
fn clicking_inside_a_note_places_its_cursor() {
    let mut s = laid_out(&["a", "b"]);
    let rows = vec![1, 1];
    assert_eq!(
        s.handle_mouse(MouseKind::LeftDown, 5, 4, &rows),
        MouseOutcome::PlaceCursor { note: 0, point: HitPoint::Cell { row: 0, column: 3 } }
    );
    assert_eq!(
        s.handle_mouse(MouseKind::LeftDown, 5, 3, &rows),
        MouseOutcome::PlaceCursor { note: 0, point: HitPoint::Start }
    );
    assert_eq!(
        s.handle_mouse(MouseKind::LeftDown, 5, 6, &rows),
        MouseOutcome::PlaceCursor { note: 0, point: HitPoint::End }
    );
    assert_eq!(s.handle_mouse(MouseKind::LeftDown, 0, 4, &rows), MouseOutcome::Nothing);
    s.start_text_drag(0, 0);
    assert_eq!(s.focused, Some(0));
    assert_eq!(
        s.handle_mouse(MouseKind::LeftDrag, 40, 4, &rows),
        MouseOutcome::ExtendSelection { note: 0, anchor: 0, point: HitPoint::Cell { row: 0, column: 26 } }
    );
    s.handle_mouse(MouseKind::LeftUp, 0, 0, &rows);
    assert_eq!(s.drag, None);
}

#[test]
fn clicking_the_last_column_grabs_the_scrollbar() {
    let mut s = laid_out(&["a", "b", "c"]);
    let rows = vec![1, 1, 1];
    assert_eq!(s.handle_mouse(MouseKind::LeftDown, 30, 11, &rows), MouseOutcome::Nothing);
    assert_eq!(s.drag, Some(Drag::Scrollbar));
    assert_eq!(s.scroll, 21);
    s.handle_mouse(MouseKind::LeftDrag, 30, 2, &rows);
    assert_eq!(s.scroll, 0);
}

#[test]
fn dialogs_block_clicks_in_notes() {
    let mut s = laid_out(&["a"]);
    s.activate(Action::Delete(0));
    let rows = vec![1];
    assert_eq!(s.handle_mouse(MouseKind::LeftDown, 5, 4, &rows), MouseOutcome::Nothing);
    assert_eq!(s.handle_mouse(MouseKind::Other, 5, 4, &rows), MouseOutcome::Nothing);
}
