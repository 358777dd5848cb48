use babomemo::app::{autosave_due, normalize_paste, poll_timeout_nanos};
use babomemo::config::Config;
use babomemo::constants::{DEFAULT_HEIGHT, MAX_HEIGHT, MIN_HEIGHT};
use babomemo::i18n::{normalize_locale, resolve_message};
use babomemo::styles::{TerminalStyle, TextStyle};

#[test]
fn default_config_uses_default_height() {
    assert_eq!(Config::default().default_height, DEFAULT_HEIGHT);
    assert_eq!(Config::parse("").default_height, 5);
}

#[test]
fn height_line_sets_height() {
    assert_eq!(Config::parse("height:10\n").default_height, 10);
    assert_eq!(Config::parse("height:+7\r\n").default_height, 7);
    assert_eq!(Config::parse("height:007").default_height, 7);
    assert_eq!(Config::parse("other\nheight:3\nheight:9\n").default_height, 9);
    assert_eq!(Config::parse("height:9\nheight:x\n").default_height, 9);
}

#[test]
fn invalid_heights_are_ignored() {
    assert_eq!(Config::parse("height:1").default_height, DEFAULT_HEIGHT);
    assert_eq!(Config::parse("height:41").default_height, DEFAULT_HEIGHT);
    assert_eq!(Config::parse("height:99999").default_height, DEFAULT_HEIGHT);
    assert_eq!(Config::parse("height:-3").default_height, DEFAULT_HEIGHT);
    assert_eq!(Config::parse("height: 8").default_height, DEFAULT_HEIGHT);
    assert_eq!(Config::parse("height:8\r").default_height, DEFAULT_HEIGHT);
    assert_eq!(Config::parse("height:+").default_height, DEFAULT_HEIGHT);
    assert_eq!(Config::parse("Height:8").default_height, DEFAULT_HEIGHT);
}

#[test]
fn limits_are_accepted() {
    assert_eq!(Config::parse("height:2").default_height, MIN_HEIGHT);
    assert_eq!(Config::parse("height:40").default_height, MAX_HEIGHT);
}

#[test]
fn config_is_written_as_one_line() {
    assert_eq!(Config { default_height: 12 }.serialize(), "height:12\n");
    assert_eq!(Config { default_height: 5 }.serialize(), "height:5\n");
}

#[test]
fn written_config_reads_back() {
    for height in MIN_HEIGHT..=MAX_HEIGHT {
        let config = Config { default_height: height };
        assert_eq!(Config::parse(&config.serialize()), config);
    }
}

#[test]
fn locale_names_become_language_tags() {
    assert_eq!(normalize_locale("ko_KR.UTF-8"), "ko-KR");
    assert_eq!(normalize_locale("en_US@euro"), "en-US");
    assert_eq!(normalize_locale("de"), "de");
    assert_eq!(normalize_locale("zh_Hant_TW"), "zh-Hant-TW");
    assert_eq!(normalize_locale(".UTF-8"), "");
}

#[test]
fn messages_fall_back_to_default_language_then_identifier() {
    assert_eq!(resolve_message(Some("안녕".into()), Some("hello".into()), "greet"), "안녕");
    assert_eq!(resolve_message(None, Some("hello".into()), "greet"), "hello");
    assert_eq!(resolve_message(None, None, "greet"), "greet");
}

#[test]
fn pasted_line_ends_become_newlines() {
    assert_eq!(normalize_paste("a\r\nb\rc\nd"), "a\nb\nc\nd");
    assert_eq!(normalize_paste("\r\r\n"), "\n\n");
    assert_eq!(normalize_paste(""), "");
}

#[test]
fn styles_use_modifiers_only() {
    let plain = TextStyle { reversed: false, bold: false, dim: false };
    assert_eq!(TerminalStyle::background(), plain);
    assert_eq!(TerminalStyle::toolbar(), plain);
    assert_eq!(TerminalStyle::text(), plain);
    assert_eq!(TerminalStyle::modal(), plain);
    assert_eq!(TerminalStyle::button(), TextStyle { reversed: true, ..plain });
    assert_eq!(TerminalStyle::selection(), TextStyle { reversed: true, ..plain });
    assert_eq!(TerminalStyle::destructive_button(), TextStyle { reversed: true, bold: true, ..plain });
    assert_eq!(TerminalStyle::disabled(), TextStyle { dim: true, ..plain });
    assert_eq!(TerminalStyle::status(), TextStyle { dim: true, ..plain });
    assert_eq!(TerminalStyle::error(), TextStyle { bold: true, ..plain });
    assert_eq!(TerminalStyle::border(true), TextStyle { bold: true, ..plain });
    assert_eq!(TerminalStyle::border(false), TextStyle { dim: true, ..plain });
}

#[test]
fn idle_program_waits_the_idle_poll() {
    assert_eq!(poll_timeout_nanos(None), 100_000_000);
    assert!(!autosave_due(None));
}

#[test]
fn unsaved_changes_shorten_the_wait_until_autosave() {
    assert_eq!(poll_timeout_nanos(Some(0)), 100_000_000);
    assert_eq!(poll_timeout_nanos(Some(250_000_000)), 50_000_000);
    assert_eq!(poll_timeout_nanos(Some(300_000_000)), 0);
    assert_eq!(poll_timeout_nanos(Some(u128::MAX)), 0);
    assert!(!autosave_due(Some(299_999_999)));
    assert!(autosave_due(Some(300_000_000)));
}
