use babomemo::document::{Document, ParseError};
use babomemo::storage::{load_outcome, LoadError, ReadOutcome};

fn doc(notes: &[&str]) -> Document {
    Document { notes: notes.iter().map(|n| n.to_string()).collect() }
}

#[test]
fn new_document_has_one_empty_note() {
    assert_eq!(Document::new(), doc(&[""]));
    assert_eq!(Document::default(), doc(&[""]));
    assert_eq!(Document::new().serialize(), "---\n");
}

#[test]
fn empty_text_has_no_notes() {
    assert_eq!(Document::parse(""), Ok(doc(&[])));
    assert_eq!(Document::parse("\n"), Ok(doc(&[])));
    assert_eq!(doc(&[]).serialize(), "");
}

#[test]
fn notes_are_split_at_markers() {
    assert_eq!(Document::parse("---\na\n---\nb\n"), Ok(doc(&["a", "b"])));
    assert_eq!(Document::parse("---\n---\n"), Ok(doc(&["", ""])));
    assert_eq!(Document::parse("---\nfirst line\nsecond line"), Ok(doc(&["first line\nsecond line"])));
}

#[test]
fn byte_order_mark_and_crlf_are_accepted() {
    assert_eq!(Document::parse("\u{feff}---\r\nhello\r\nworld\r\n"), Ok(doc(&["hello\nworld"])));
}

#[test]
fn content_before_first_marker_is_refused() {
    assert_eq!(Document::parse("hello\n---\n"), Err(ParseError::ContentBeforeFirstNote));
    assert_eq!(Document::parse("\n\n---\n"), Err(ParseError::ContentBeforeFirstNote));
    assert_eq!(
        ParseError::ContentBeforeFirstNote.message(),
        "content appears before the first note marker"
    );
}

#[test]
fn marker_lines_inside_notes_are_escaped() {
    let d = doc(&["---", "\\-x", "a\n---\nb", "", "\\\\-"]);
    let text = d.serialize();
    assert_eq!(text, "---\n\\-\\-\\-\n---\n\\\\-x\n---\na\n\\-\\-\\-\nb\n---\n---\n\\\\\\-\n");
    assert_eq!(Document::parse(&text), Ok(d));
}

#[test]
fn escaped_dashes_read_back_as_dashes() {
    assert_eq!(Document::parse("---\n\\-\\-\\-\n"), Ok(doc(&["---"])));
    assert_eq!(Document::parse("---\n\\x\\-\n"), Ok(doc(&["\\x-"])));
}

#[test]
fn written_notes_read_back_unchanged() {
    for notes in [
        vec!["plain"],
        vec!["", "", ""],
        vec!["trailing newline\n", "\n", "\n\n"],
        vec!["tab\tand \r inside", "unicode: 메모 ✓"],
    ] {
        let d = doc(&notes);
        assert_eq!(Document::parse(&d.serialize()), Ok(d));
    }
}

#[test]
fn carriage_return_before_line_end_is_not_kept() {
    let d = doc(&["a\r\nb", "c\r"]);
    assert_eq!(Document::parse(&d.serialize()), Ok(doc(&["a\nb", "c"])));
}

#[test]
fn missing_memo_file_starts_with_one_note() {
    match load_outcome(ReadOutcome::Missing) {
        Ok((d, created)) => {
            assert!(created);
            assert_eq!(d, doc(&[""]));
        }
        Err(_) => panic!("a missing file is not an error"),
    }
}

#[test]
fn read_memo_file_is_parsed() {
    match load_outcome(ReadOutcome::Text("---\nhi\n".to_string())) {
        Ok((d, created)) => {
            assert!(!created);
            assert_eq!(d, doc(&["hi"]));
        }
        Err(_) => panic!("valid text"),
    }
    assert!(matches!(
        load_outcome(ReadOutcome::Text("oops".to_string())),
        Err(LoadError::Parse(ParseError::ContentBeforeFirstNote))
    ));
}

#[test]
fn read_failures_are_passed_on() {
    let error = std::io::Error::new(std::io::ErrorKind::PermissionDenied, "denied");
    match load_outcome(ReadOutcome::Failed(error)) {
        Err(LoadError::Io(e)) => assert_eq!(e.kind(), std::io::ErrorKind::PermissionDenied),
        _ => panic!("the read error is passed on"),
    }
}

#[test]
fn load_errors_convert_from_their_causes() {
    assert!(matches!(LoadError::from(ParseError::ContentBeforeFirstNote), LoadError::Parse(_)));
    let io = std::io::Error::new(std::io::ErrorKind::Other, "x");
    assert!(matches!(LoadError::from(io), LoadError::Io(_)));
}
