use std::path::{Path, PathBuf};

use babomemo::app::{
    Action, Drag, Effect, KeyCommand, KeyInput, MouseKind, MouseOutcome, NoteEdit, Pending,
    QuitStep, SaveState, Session,
};
use babomemo::config::Config;
use babomemo::constants::DEFAULT_HEIGHT;
use babomemo::document::Document;
use babomemo::i18n::choose_locale;
use babomemo::layout::{memo_text_width, notes_layout_for, Area, NoteLayout};
use babomemo::screen::{toolbar_buttons, ToolbarButton};
use babomemo::storage::{config_outcome, memo_path, ReadOutcome};

fn session(notes: &[&str]) -> Session {
    let document = Document { notes: notes.iter().map(|n| n.to_string()).collect() };
    Session::new(document, Config { default_height: 5 }, 8)
}

fn laid_out(notes: &[&str]) -> Session {
    let mut s = session(notes);
    let rows: Vec<usize> = notes.iter().map(|_| 1).collect();
    let viewport = Area::new(0, 2, 31, 10);
    let (layouts, add_top) = notes_layout_for(viewport, &rows, 5);
    s.set_layout(viewport, layouts, add_top);
    s
}

fn texts(s: &Session) -> Vec<&str> {
    s.notes.iter().map(|n| n.as_str()).collect()
}

fn strings(values: &[&str]) -> Vec<String> {
    values.iter().map(|v| v.to_string()).collect()
}

#[test]
fn memos_take_the_viewport_width_but_the_scrollbar() {
    let (layouts, add_top) = notes_layout_for(Area::new(3, 2, 31, 10), &vec![1, 2], 5);
    assert_eq!(
        layouts,
        vec![
            NoteLayout { top: 0, x: 3, width: 30, text_width: 26, text_height: 5 },
            NoteLayout { top: 10, x: 3, width: 30, text_width: 26, text_height: 5 },
        ]
    );
    assert_eq!(add_top, 20);
    let (narrow, _) = notes_layout_for(Area::new(0, 2, 1, 10), &vec![1], 5);
    assert_eq!(narrow[0].width, 1);
    assert_eq!(narrow[0].text_width, 1);
    assert_eq!(memo_text_width(31), 26);
    assert_eq!(memo_text_width(0), 1);
}

#[test]
fn cursor_column_stays_inside_the_text() {
    let layout = NoteLayout { top: 0, x: 4, width: 30, text_width: 26, text_height: 5 };
    assert_eq!(layout.cursor_x(0), 6);
    assert_eq!(layout.cursor_x(3), 9);
    assert_eq!(layout.cursor_x(25), 31);
    assert_eq!(layout.cursor_x(40), 31);
}

#[test]
fn add_button_sits_centred_below_the_last_memo() {
    let mut s = laid_out(&["a", "b", "c"]);
    assert_eq!(s.total_height, 31);
    assert_eq!(s.add_button_area(30, 7), None);
    s.reveal_row(30);
    assert_eq!(s.scroll, 21);
    assert_eq!(s.add_button_area(30, 7), Some(Area { x: 11, y: 11, width: 7, height: 1 }));
    assert_eq!(s.add_button_area(30, 40), None);
    let empty = laid_out(&[]);
    assert_eq!(empty.add_button_area(30, 8), Some(Area { x: 11, y: 2, width: 8, height: 1 }));
}

#[test]
fn settings_sit_in_the_corner_and_buttons_enable_by_state() {
    let (corner, items) = toolbar_buttons(false, true);
    assert_eq!(corner, ToolbarButton { action: Action::Settings, enabled: true, destructive: false });
    assert_eq!(
        items,
        vec![
            ToolbarButton { action: Action::Add, enabled: true, destructive: false },
            ToolbarButton { action: Action::Quit, enabled: true, destructive: false },
            ToolbarButton { action: Action::Restore, enabled: false, destructive: false },
            ToolbarButton { action: Action::DeleteAll, enabled: true, destructive: true },
        ]
    );
    let mut s = session(&["a"]);
    assert!(!s.toolbar().1[2].enabled);
    s.activate(Action::Delete(0));
    s.activate(Action::Confirm);
    let (_, items) = s.toolbar();
    assert!(items[2].enabled);
    assert!(!items[3].enabled);
}

#[test]
fn clicking_inside_a_memo_focuses_it() {
    let mut s = laid_out(&["a", "b"]);
    assert_eq!(s.focused, None);
    let rows = vec![1, 1];
    assert!(matches!(
        s.handle_mouse(MouseKind::LeftDown, 5, 4, &rows),
        MouseOutcome::PlaceCursor { note: 0, .. }
    ));
    assert_eq!(s.focused, Some(0));
    assert_eq!(s.key_target(), Some(0));
    s.start_text_drag(0, 1);
    assert_eq!(s.drag, Some(Drag::Text { note: 0, anchor: 1 }));
}

#[test]
fn key_releases_do_nothing() {
    let mut s = session(&["a"]);
    s.start_text_drag(0, 0);
    assert_eq!(
        s.handle_key(false, KeyInput::Char('x'), false, false, false),
        (None, KeyCommand::Nothing)
    );
    assert_eq!(
        s.handle_key(false, KeyInput::Char('n'), true, false, false),
        (None, KeyCommand::Nothing)
    );
    assert_eq!(texts(&s), vec!["a"]);
}

#[test]
fn keys_edit_the_focused_memo() {
    let mut s = session(&["a", "b"]);
    assert_eq!(
        s.handle_key(true, KeyInput::Char('x'), false, false, false),
        (None, KeyCommand::Nothing)
    );
    s.start_text_drag(1, 0);
    assert_eq!(
        s.handle_key(true, KeyInput::Char('x'), false, false, false),
        (Some(1), KeyCommand::Insert('x'))
    );
    assert_eq!(
        s.handle_key(true, KeyInput::Char('x'), false, false, true),
        (Some(1), KeyCommand::Nothing)
    );
    assert_eq!(s.handle_key(true, KeyInput::Char('A'), true, false, false), (Some(1), KeyCommand::SelectAll));
    assert_eq!(s.handle_key(true, KeyInput::Char('c'), true, false, false), (Some(1), KeyCommand::Copy));
    assert_eq!(s.handle_key(true, KeyInput::Char('x'), true, false, false), (Some(1), KeyCommand::Cut));
    assert_eq!(s.handle_key(true, KeyInput::Char('v'), true, false, false), (Some(1), KeyCommand::Paste));
    assert_eq!(s.handle_key(true, KeyInput::Char('z'), true, false, false), (Some(1), KeyCommand::Undo));
    assert_eq!(s.handle_key(true, KeyInput::Char('Z'), true, true, false), (Some(1), KeyCommand::Redo));
    assert_eq!(s.handle_key(true, KeyInput::Char('y'), true, false, false), (Some(1), KeyCommand::Redo));
    assert_eq!(s.handle_key(true, KeyInput::Enter, false, false, false), (Some(1), KeyCommand::InsertNewline));
    assert_eq!(s.handle_key(true, KeyInput::Tab, false, false, false), (Some(1), KeyCommand::InsertTab));
    assert_eq!(
        s.handle_key(true, KeyInput::Left, true, true, false),
        (Some(1), KeyCommand::MoveHorizontal { forward: false, extend: true, by_word: true })
    );
    assert_eq!(
        s.handle_key(true, KeyInput::End, true, false, false),
        (Some(1), KeyCommand::MoveDocumentEdge { end: true, extend: false })
    );
    assert_eq!(
        s.handle_key(true, KeyInput::Home, false, true, false),
        (Some(1), KeyCommand::MoveLineEdge { end: false, extend: true })
    );
    assert_eq!(
        s.handle_key(true, KeyInput::PageDown, false, false, false),
        (Some(1), KeyCommand::MovePage { down: true, extend: false })
    );
    assert_eq!(s.handle_key(true, KeyInput::Other, false, false, false), (Some(1), KeyCommand::Nothing));
    assert_eq!(texts(&s), vec!["a", "b"]);
}

#[test]
fn shortcuts_run_their_actions() {
    let mut s = session(&["a"]);
    assert_eq!(
        s.handle_key(true, KeyInput::Char('n'), true, false, false),
        (None, KeyCommand::Activated(Effect::Edited(NoteEdit::Appended)))
    );
    assert_eq!(texts(&s), vec!["a", ""]);
    assert_eq!(s.focused, Some(1));
    assert_eq!(
        s.handle_key(true, KeyInput::Char('d'), true, false, false),
        (None, KeyCommand::Activated(Effect::QuitRequested))
    );
    assert_eq!(texts(&s), vec!["a", ""]);

    s.activate(Action::Delete(0));
    assert_eq!(
        s.handle_key(true, KeyInput::Enter, false, false, false),
        (None, KeyCommand::Activated(Effect::Edited(NoteEdit::Removed(0))))
    );
    assert_eq!(texts(&s), vec![""]);
    assert_eq!(s.pending, None);

    s.activate(Action::Settings);
    assert_eq!(
        s.handle_key(true, KeyInput::Char('x'), false, false, false),
        (None, KeyCommand::Nothing)
    );
    assert_eq!(
        s.handle_key(true, KeyInput::Esc, false, false, false),
        (None, KeyCommand::Activated(Effect::SettingsClosed))
    );
    assert!(!s.settings_open);
    assert_eq!(
        s.handle_key(true, KeyInput::Esc, false, false, false),
        (Some(0), KeyCommand::Nothing)
    );
}

#[test]
fn quitting_saves_first_and_never_drops_unsaved_changes() {
    let state = SaveState::new();
    assert!(!state.dirty() && !state.quit() && !state.save_failed());
    let (step, state) = state.on_quit();
    assert_eq!(step, QuitStep::Quit);
    assert!(state.quit());

    let state = SaveState::new().edited();
    assert!(state.dirty());
    let (step, state) = state.on_quit();
    assert_eq!(step, QuitStep::Save);
    assert!(!state.quit());
    let state = state.after_save(false, true);
    assert!(state.dirty() && state.save_failed() && !state.quit());
    let (step, state) = state.on_quit();
    assert_eq!(step, QuitStep::Save);
    let state = state.after_save(true, true);
    assert!(!state.dirty() && !state.save_failed() && state.quit());
}

#[test]
fn autosave_does_not_quit() {
    let state = SaveState::new().edited().after_save(true, false);
    assert!(!state.dirty() && !state.quit());
    let state = state.edited().after_save(false, false);
    assert!(state.dirty() && state.save_failed() && !state.quit());
}

#[test]
fn confirmations_name_the_memo() {
    assert_eq!(Pending::Clear(0).confirmation_message(), ("confirm-clear", Some(1)));
    assert_eq!(Pending::Delete(4).confirmation_message(), ("confirm-delete", Some(5)));
    assert_eq!(Pending::DeleteAll.confirmation_message(), ("confirm-delete-all", None));
}

#[test]
fn settings_read_outcomes() {
    assert_eq!(config_outcome(ReadOutcome::Text("height:12\n".to_string())).unwrap().default_height, 12);
    assert_eq!(config_outcome(ReadOutcome::Missing).unwrap().default_height, DEFAULT_HEIGHT);
    let failed = config_outcome(ReadOutcome::Failed(std::io::Error::other("disk")));
    assert_eq!(failed.unwrap_err().to_string(), "disk");
}

#[test]
fn memo_file_lies_in_the_directory() {
    assert_eq!(memo_path(Path::new("/work/notes"), ".babomemo"), PathBuf::from("/work/notes/.babomemo"));
}

#[test]
fn default_locale_without_a_system_match() {
    let paths = strings(&["en-US.ftl", "ko.ftl", "readme.md"]);
    let choice = choose_locale("en-US\n", &paths, &vec![]).unwrap();
    assert_eq!(choice.primary_tag, "en-US");
    assert_eq!(choice.primary_path, "en-US.ftl");
    assert_eq!(choice.fallback, None);
    let choice = choose_locale(" en-US ", &paths, &strings(&["fr_FR.UTF-8"])).unwrap();
    assert_eq!(choice.primary_tag, "en-US");
    assert_eq!(choice.fallback, None);
}

#[test]
fn system_locale_selects_its_language() {
    let paths = strings(&["en-US.ftl", "ko.ftl"]);
    let choice = choose_locale("en-US", &paths, &strings(&["ko_KR.UTF-8"])).unwrap();
    assert_eq!(choice.primary_tag, "ko");
    assert_eq!(choice.primary_path, "ko.ftl");
    assert_eq!(choice.fallback, Some(("en-US".to_string(), "en-US.ftl".to_string())));
}

#[test]
fn locale_choice_fails_without_a_default_resource() {
    let paths = strings(&["ko.ftl"]);
    assert_eq!(
        choose_locale("en-US", &paths, &vec![]).err(),
        Some("default locale has no Fluent resource".to_string())
    );
    assert!(choose_locale("not a tag!", &paths, &vec![]).is_err());
}
