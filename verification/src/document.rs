//! The memo file format: a sequence of notes, each introduced by a line
//! holding only the note marker `---`. Body lines that would read as a
//! marker, or that hold a backslash before a dash, are escaped with a
//! backslash so that every note reads back exactly as it was written.
use vstd::prelude::*;
use crate::text::{
    all_single_lines, join_chars, lemma_split_append_line, join_lines, lemma_join_append, lemma_join_split,
    lemma_split_join, lemma_split_shape, no_newline, split_chars, split_lines, string_of,
    chars_of,
};

verus! {

/// The line that opens every note.
pub open spec fn note_marker() -> Seq<char> {
    seq!['-', '-', '-']
}

/// How a marker line is written inside a note body: each dash escaped.
pub open spec fn escaped_marker() -> Seq<char> {
    seq!['\\', '-', '\\', '-', '\\', '-']
}

/// A body line with a second backslash put before every backslash that
/// is directly followed by a dash.
pub open spec fn escape_line(line: Seq<char>) -> Seq<char>
    decreases line.len(),
{
    if line.len() == 0 {
        Seq::<char>::empty()
    } else if line[0] == '\\' && line.len() >= 2 && line[1] == '-' {
        seq!['\\', '\\'] + escape_line(line.drop_first())
    } else {
        seq![line[0]] + escape_line(line.drop_first())
    }
}

/// How one line of a note body is written to the memo file.
pub open spec fn encode_line(line: Seq<char>) -> Seq<char> {
    if line == note_marker() {
        escaped_marker()
    } else {
        escape_line(line)
    }
}

/// How one line of the memo file reads back: each backslash directly
/// followed by a dash, read left to right, stands for that dash alone.
pub open spec fn decode_line(line: Seq<char>) -> Seq<char>
    decreases line.len(),
{
    if line.len() == 0 {
        Seq::<char>::empty()
    } else if line[0] == '\\' && line.len() >= 2 && line[1] == '-' {
        seq!['-'] + decode_line(line.skip(2))
    } else {
        seq![line[0]] + decode_line(line.drop_first())
    }
}

/// The written form of a whole note body: each of its lines encoded.
pub open spec fn encode_body(body: Seq<char>) -> Seq<char> {
    join_lines(split_lines(body).map_values(|line: Seq<char>| encode_line(line)))
}

/// The note text that the body lines of one note read back as.
pub open spec fn decode_body(lines: Seq<Seq<char>>) -> Seq<char> {
    join_lines(lines.map_values(|line: Seq<char>| decode_line(line)))
}

/// The file lines that one note is written as: the marker, then the
/// encoded body lines unless the note is empty.
pub open spec fn note_lines(note: Seq<char>) -> Seq<Seq<char>> {
    if note.len() == 0 {
        seq![note_marker()]
    } else {
        seq![note_marker()] + split_lines(note).map_values(|line: Seq<char>| encode_line(line))
    }
}

/// The file lines of all notes, in order.
pub open spec fn document_lines(notes: Seq<Seq<char>>) -> Seq<Seq<char>>
    decreases notes.len(),
{
    if notes.len() == 0 {
        Seq::<Seq<char>>::empty()
    } else {
        document_lines(notes.drop_last()) + note_lines(notes.last())
    }
}

/// The memo file text for `notes`: their lines joined by newlines and a
/// final newline; the empty text when there is no note.
pub open spec fn serialize_notes(notes: Seq<Seq<char>>) -> Seq<char> {
    if notes.len() == 0 {
        Seq::<char>::empty()
    } else {
        join_lines(document_lines(notes)).push('\n')
    }
}

/// `s` without one leading byte order mark.
pub open spec fn strip_bom(s: Seq<char>) -> Seq<char> {
    if s.len() > 0 && s[0] == '\u{feff}' {
        s.drop_first()
    } else {
        s
    }
}

/// `s` with every carriage return-line feed pair, found left to right,
/// replaced by a line feed.
pub open spec fn crlf_to_lf(s: Seq<char>) -> Seq<char>
    decreases s.len(),
{
    if s.len() == 0 {
        Seq::<char>::empty()
    } else if s.len() >= 2 && s[0] == '\r' && s[1] == '\n' {
        seq!['\n'] + crlf_to_lf(s.skip(2))
    } else {
        seq![s[0]] + crlf_to_lf(s.drop_first())
    }
}

/// `s` without one final newline.
pub open spec fn strip_final_newline(s: Seq<char>) -> Seq<char> {
    if s.len() > 0 && s.last() == '\n' {
        s.drop_last()
    } else {
        s
    }
}

/// The memo file text as the parser reads it.
pub open spec fn normalize_source(s: Seq<char>) -> Seq<char> {
    strip_final_newline(crlf_to_lf(strip_bom(s)))
}

/// The body lines of each note of a file: a marker line opens a new note
/// and every other line belongs to the last note opened; `None` when a
/// line comes before the first marker.
pub open spec fn note_bodies(lines: Seq<Seq<char>>) -> Option<Seq<Seq<Seq<char>>>>
    decreases lines.len(),
{
    if lines.len() == 0 {
        Some(Seq::<Seq<Seq<char>>>::empty())
    } else {
        match note_bodies(lines.drop_last()) {
            None => None,
            Some(bodies) => if lines.last() == note_marker() {
                Some(bodies.push(Seq::<Seq<char>>::empty()))
            } else if bodies.len() == 0 {
                None
            } else {
                Some(bodies.update(bodies.len() - 1, bodies.last().push(lines.last())))
            },
        }
    }
}

/// The notes that memo file text `source` holds, or `None` when it holds
/// text before its first note marker.
pub open spec fn parse_notes(source: Seq<char>) -> Option<Seq<Seq<char>>> {
    let text = normalize_source(source);
    if text.len() == 0 {
        Some(Seq::<Seq<char>>::empty())
    } else {
        match note_bodies(split_lines(text)) {
            None => None,
            Some(bodies) => Some(bodies.map_values(|body: Seq<Seq<char>>| decode_body(body))),
        }
    }
}

/// An ordered list of memo notes, as one memo file holds them.
#[derive(Clone, Debug, PartialEq, Eq)]
pub struct Document {
    pub notes: Vec<String>,
}

impl View for Document {
    type V = Seq<Seq<char>>;

    open spec fn view(&self) -> Seq<Seq<char>> {
        self.notes.deep_view()
    }
}

/// Why memo file text could not be read as notes.
#[derive(Debug, PartialEq, Eq)]
pub enum ParseError {
    ContentBeforeFirstNote,
}

impl ParseError {
    /// The message that describes this error.
    pub fn message(&self) -> (text: String)
        ensures
            text@ == parse_error_message(),
    {
        match self {
            ParseError::ContentBeforeFirstNote => {
                String::from_str("content appears before the first note marker")
            },
        }
    }
}

/// The text of the one parse error's message.
pub open spec fn parse_error_message() -> Seq<char> {
    "content appears before the first note marker"@
}

impl Default for Document {
    fn default() -> (doc: Self)
        ensures
            doc@ == seq![Seq::<char>::empty()],
    {
        Self::new()
    }
}

impl Document {
    /// A document with one empty note.
    pub fn new() -> (doc: Self)
        ensures
            doc@ == seq![Seq::<char>::empty()],
    {
        let notes = vec![String::new()];
        let doc = Self { notes };
        assert(doc@ =~= seq![Seq::<char>::empty()]);
        doc
    }

    /// Reads memo file text. A leading byte order mark is ignored, CRLF
    /// line ends count as LF, and one final newline is optional.
    pub fn parse(source: &str) -> (result: Result<Self, ParseError>)
        ensures
            match result {
                Ok(doc) => parse_notes(source@) == Some(doc@),
                Err(_) => parse_notes(source@) is None,
            },
    {
        let chars = chars_of(source);
        let text = normalize(&chars);
        if text.len() == 0 {
            let doc = Self { notes: Vec::new() };
            assert(doc@ =~= Seq::<Seq<char>>::empty());
            return Ok(doc);
        }
        let lines = split_chars(&text);
        proof {
            lemma_split_shape(text@);
        }
        let mut notes: Vec<String> = Vec::new();
        let mut current: Vec<Vec<char>> = Vec::new();
        let mut started = false;
        let ghost done: Seq<Seq<Seq<char>>> = Seq::empty();
        let mut i: usize = 0;
        while i < lines.len()
            invariant
                i <= lines.len(),
                text@ == normalize_source(source@),
                text@.len() > 0,
                lines.deep_view() == split_lines(text@),
                notes.deep_view() == done.map_values(|body: Seq<Seq<char>>| decode_body(body)),
                !started ==> i == 0 && done.len() == 0,
                started ==> note_bodies(lines.deep_view().take(i as int)) == Some(
                    done.push(current.deep_view()),
                ),
            decreases lines.len() - i,
        {
            let ghost prefix = lines.deep_view().take(i as int);
            assert(lines.deep_view().take(i + 1).drop_last() == prefix);
            assert(lines.deep_view().take(i + 1).last() == lines.deep_view()[i as int]);
            assert(lines.deep_view()[i as int] =~= lines[i as int]@);
            if is_marker(&lines[i]) {
                if started {
                    let body = current;
                    let decoded = decode_lines(&body);
                    let ghost nv = notes.deep_view();
                    notes.push(decoded);
                    proof {
                        assert(notes.deep_view() =~= nv.push(decoded@));
                        let d2 = done.push(body.deep_view());
                        assert(d2.map_values(|b: Seq<Seq<char>>| decode_body(b)) =~= done.map_values(
                            |b: Seq<Seq<char>>| decode_body(b),
                        ).push(decode_body(body.deep_view())));
                        done = d2;
                    }
                } else {
                    assert(prefix == Seq::<Seq<char>>::empty());
                }
                current = Vec::new();
                started = true;
                assert(current.deep_view() =~= Seq::<Seq<char>>::empty());
            } else if started {
                let line = lines[i].clone();
                assert(line@ =~= lines[i as int]@);
                let ghost cv = current.deep_view();
                current.push(line);
                assert(current.deep_view() =~= cv.push(lines.deep_view()[i as int]));
                let ghost bs = done.push(cv);
                assert(bs.update(bs.len() - 1, bs.last().push(lines.deep_view()[i as int]))
                    =~= done.push(current.deep_view()));
            } else {
                assert(prefix == Seq::<Seq<char>>::empty());
                proof {
                    let lv = lines.deep_view();
                    assert(i == 0);
                    assert(lv.take(1).drop_last() == Seq::<Seq<char>>::empty());
                    assert(note_bodies(Seq::<Seq<char>>::empty()) == Some(
                        Seq::<Seq<Seq<char>>>::empty(),
                    ));
                    assert(lv.take(1).last() != note_marker());
                    assert(note_bodies(lv.take(1)) is None);
                    lemma_note_bodies_none_extends(lv, 1);
                }
                return Err(ParseError::ContentBeforeFirstNote);
            }
            i += 1;
        }
        assert(lines.deep_view().take(lines.len() as int) == lines.deep_view());
        let body = current;
        let decoded = decode_lines(&body);
        let ghost nv = notes.deep_view();
        notes.push(decoded);
        proof {
            assert(notes.deep_view() =~= nv.push(decoded@));
            let d2 = done.push(body.deep_view());
            assert(d2.map_values(|b: Seq<Seq<char>>| decode_body(b)) =~= done.map_values(
                |b: Seq<Seq<char>>| decode_body(b),
            ).push(decode_body(body.deep_view())));
        }
        Ok(Self { notes })
    }

    /// Writes the notes as memo file text, ending in a newline unless
    /// there is no note.
    pub fn serialize(&self) -> (text: String)
        ensures
            text@ == serialize_notes(self@),
    {
        let mut out: Vec<char> = Vec::new();
        let mut i: usize = 0;
        while i < self.notes.len()
            invariant
                i <= self.notes.len(),
                i == 0 ==> out@ == Seq::<char>::empty(),
                i > 0 ==> out@ == join_lines(document_lines(self@.take(i as int))),
            decreases self.notes.len() - i,
        {
            let note = chars_of(self.notes[i].as_str());
            let ghost before = out@;
            if i > 0 {
                out.push('\n');
            }
            out.push('-');
            out.push('-');
            out.push('-');
            if note.len() > 0 {
                out.push('\n');
                let body = encode_body_chars(&note);
                append_chars(&mut out, &body);
            }
            proof {
                let notes = self@.take(i + 1);
                assert(notes.drop_last() == self@.take(i as int));
                assert(notes.last() == note@);
                lemma_join_note_lines(note@);
                lemma_document_lines_len(self@.take(i as int));
                if i == 0 {
                    assert(document_lines(notes) =~= note_lines(note@));
                } else {
                    lemma_join_append(document_lines(self@.take(i as int)), note_lines(note@));
                }
            }
            i += 1;
        }
        assert(self@.take(self.notes.len() as int) == self@);
        if self.notes.len() > 0 {
            out.push('\n');
        }
        string_of(&out)
    }
}

/// Once some first lines hold text before any marker, so does every
/// longer run of lines.
proof fn lemma_note_bodies_none_extends(lines: Seq<Seq<char>>, k: int)
    requires
        0 <= k <= lines.len(),
        note_bodies(lines.take(k)) is None,
    ensures
        note_bodies(lines) is None,
    decreases lines.len() - k,
{
    if k < lines.len() {
        assert(lines.take(k + 1).drop_last() == lines.take(k));
        lemma_note_bodies_none_extends(lines, k + 1);
    } else {
        assert(lines.take(k) == lines);
    }
}

/// The file lines of some notes are at least as many as the notes.
proof fn lemma_document_lines_len(notes: Seq<Seq<char>>)
    ensures
        document_lines(notes).len() >= notes.len(),
    decreases notes.len(),
{
    if notes.len() > 0 {
        lemma_document_lines_len(notes.drop_last());
    }
}

/// The written text of one note.
proof fn lemma_join_note_lines(note: Seq<char>)
    ensures
        join_lines(note_lines(note)) == if note.len() == 0 {
            note_marker()
        } else {
            note_marker() + seq!['\n'] + encode_body(note)
        },
{
    if note.len() > 0 {
        lemma_split_shape(note);
        let enc = split_lines(note).map_values(|line: Seq<char>| encode_line(line));
        lemma_join_append(seq![note_marker()], enc);
    }
}

/// Appends all of `extra` to `out`.
fn append_chars(out: &mut Vec<char>, extra: &Vec<char>)
    ensures
        final(out)@ == old(out)@ + extra@,
{
    let mut j: usize = 0;
    while j < extra.len()
        invariant
            j <= extra.len(),
            out@ == old(out)@ + extra@.take(j as int),
        decreases extra.len() - j,
    {
        out.push(extra[j]);
        assert(extra@.take(j + 1) == extra@.take(j as int).push(extra@[j as int]));
        j += 1;
    }
    assert(extra@.take(extra.len() as int) == extra@);
}

/// Whether `line` is the note marker.
fn is_marker(line: &Vec<char>) -> (b: bool)
    ensures
        b == (line@ == note_marker()),
{
    let b = line.len() == 3 && line[0] == '-' && line[1] == '-' && line[2] == '-';
    if b {
        assert(line@ =~= note_marker());
    }
    b
}

/// Drops a leading byte order mark, turns CRLF into LF and drops one
/// final newline.
fn normalize(chars: &Vec<char>) -> (out: Vec<char>)
    ensures
        out@ == normalize_source(chars@),
{
    let start: usize = if chars.len() > 0 && chars[0] == '\u{feff}' {
        1
    } else {
        0
    };
    assert(strip_bom(chars@) == chars@.skip(start as int));
    let mut out: Vec<char> = Vec::new();
    let mut i: usize = start;
    while i < chars.len()
        invariant
            start <= i <= chars.len(),
            crlf_to_lf(strip_bom(chars@)) == out@ + crlf_to_lf(chars@.skip(i as int)),
        decreases chars.len() - i,
    {
        let ghost rest = chars@.skip(i as int);
        if i + 1 < chars.len() && chars[i] == '\r' && chars[i + 1] == '\n' {
            assert(rest.skip(2) == chars@.skip(i + 2));
            out.push('\n');
            i += 2;
        } else {
            assert(rest.drop_first() == chars@.skip(i + 1));
            out.push(chars[i]);
            i += 1;
        }
    }
    assert(chars@.skip(chars.len() as int) == Seq::<char>::empty());
    assert(out@ + Seq::<char>::empty() == out@);
    if out.len() > 0 && out[out.len() - 1] == '\n' {
        out.pop();
    }
    out
}

/// Escapes one body line for writing.
fn encode_line_chars(line: &Vec<char>) -> (out: Vec<char>)
    ensures
        out@ == encode_line(line@),
{
    if is_marker(line) {
        let out = vec!['\\', '-', '\\', '-', '\\', '-'];
        assert(out@ =~= escaped_marker());
        return out;
    }
    let mut out: Vec<char> = Vec::new();
    let mut i: usize = 0;
    assert(line@.skip(0) == line@);
    assert(out@ + escape_line(line@) == escape_line(line@));
    while i < line.len()
        invariant
            i <= line.len(),
            escape_line(line@) == out@ + escape_line(line@.skip(i as int)),
        decreases line.len() - i,
    {
        let ghost rest = line@.skip(i as int);
        assert(rest.drop_first() == line@.skip(i + 1));
        if line[i] == '\\' && i + 1 < line.len() && line[i + 1] == '-' {
            out.push('\\');
        }
        out.push(line[i]);
        i += 1;
    }
    assert(line@.skip(line.len() as int) == Seq::<char>::empty());
    assert(out@ + Seq::<char>::empty() == out@);
    out
}

/// Reads one body line back.
fn decode_line_chars(line: &Vec<char>) -> (out: Vec<char>)
    ensures
        out@ == decode_line(line@),
{
    let mut out: Vec<char> = Vec::new();
    let mut i: usize = 0;
    assert(line@.skip(0) == line@);
    assert(out@ + decode_line(line@) == decode_line(line@));
    while i < line.len()
        invariant
            i <= line.len(),
            decode_line(line@) == out@ + decode_line(line@.skip(i as int)),
        decreases line.len() - i,
    {
        let ghost rest = line@.skip(i as int);
        if line[i] == '\\' && i + 1 < line.len() && line[i + 1] == '-' {
            assert(rest.skip(2) == line@.skip(i + 2));
            out.push('-');
            i += 2;
        } else {
            assert(rest.drop_first() == line@.skip(i + 1));
            out.push(line[i]);
            i += 1;
        }
    }
    assert(line@.skip(line.len() as int) == Seq::<char>::empty());
    assert(out@ + Seq::<char>::empty() == out@);
    out
}

/// The written form of a whole note body.
fn encode_body_chars(body: &Vec<char>) -> (out: Vec<char>)
    ensures
        out@ == encode_body(body@),
{
    let lines = split_chars(body);
    let mut encoded: Vec<Vec<char>> = Vec::new();
    let mut k: usize = 0;
    while k < lines.len()
        invariant
            k <= lines.len(),
            lines.deep_view() == split_lines(body@),
            encoded.deep_view() == lines.deep_view().take(k as int).map_values(
                |line: Seq<char>| encode_line(line),
            ),
        decreases lines.len() - k,
    {
        assert(lines.deep_view()[k as int] =~= lines[k as int]@);
        let e = encode_line_chars(&lines[k]);
        let ghost ev = encoded.deep_view();
        let ghost edv = e.deep_view();
        assert(edv =~= e@);
        encoded.push(e);
        assert(encoded.deep_view() =~= ev.push(edv));
        assert(lines.deep_view().take(k + 1).map_values(|line: Seq<char>| encode_line(line))
            =~= lines.deep_view().take(k as int).map_values(|line: Seq<char>| encode_line(line)).push(
            encode_line(lines.deep_view()[k as int]),
        ));
        k += 1;
    }
    assert(lines.deep_view().take(lines.len() as int) == lines.deep_view());
    join_chars(&encoded)
}

/// The note text that some body lines read back as.
fn decode_lines(body: &Vec<Vec<char>>) -> (text: String)
    ensures
        text@ == decode_body(body.deep_view()),
{
    let mut decoded: Vec<Vec<char>> = Vec::new();
    let mut k: usize = 0;
    while k < body.len()
        invariant
            k <= body.len(),
            decoded.deep_view() == body.deep_view().take(k as int).map_values(
                |line: Seq<char>| decode_line(line),
            ),
        decreases body.len() - k,
    {
        assert(body.deep_view()[k as int] =~= body[k as int]@);
        let d = decode_line_chars(&body[k]);
        let ghost dv0 = decoded.deep_view();
        let ghost ddv = d.deep_view();
        assert(ddv =~= d@);
        decoded.push(d);
        assert(decoded.deep_view() =~= dv0.push(ddv));
        assert(body.deep_view().take(k + 1).map_values(|line: Seq<char>| decode_line(line))
            =~= body.deep_view().take(k as int).map_values(|line: Seq<char>| decode_line(line)).push(
            decode_line(body.deep_view()[k as int]),
        ));
        k += 1;
    }
    assert(body.deep_view().take(body.len() as int) == body.deep_view());
    let joined = join_chars(&decoded);
    string_of(&joined)
}

} // verus!

verus! {

/// Every carriage return of `note` is followed by a character other than
/// a newline, so that no line of the written note ends in one.
pub open spec fn carriage_returns_kept(note: Seq<char>) -> bool {
    forall|i: int|
        0 <= i < note.len() && #[trigger] note[i] == '\r' ==> i + 1 < note.len() && note[i + 1]
            != '\n'
}

/// `s` holds no carriage return directly followed by a line feed.
pub open spec fn crlf_free(s: Seq<char>) -> bool {
    forall|i: int| 0 <= i && i + 1 < s.len() ==> !(#[trigger] s[i] == '\r' && s[i + 1] == '\n')
}

/// The body lines that one note is written as, after its marker.
pub open spec fn note_body_lines(note: Seq<char>) -> Seq<Seq<char>> {
    if note.len() == 0 {
        Seq::<Seq<char>>::empty()
    } else {
        split_lines(note).map_values(|line: Seq<char>| encode_line(line))
    }
}

/// The first character of an escaped line.
proof fn lemma_escape_first(t: Seq<char>)
    ensures
        escape_line(t).len() >= t.len(),
        t.len() > 0 ==> escape_line(t)[0] == if t[0] == '\\' && t.len() >= 2 && t[1] == '-' {
            '\\'
        } else {
            t[0]
        },
    decreases t.len(),
{
    if t.len() > 0 {
        lemma_escape_first(t.drop_first());
    }
}

/// Reading back an escaped line gives the line.
proof fn lemma_decode_escape(l: Seq<char>)
    ensures
        decode_line(escape_line(l)) == l,
    decreases l.len(),
{
    if l.len() == 0 {
        assert(escape_line(l) == Seq::<char>::empty());
    } else {
        let l1 = l.drop_first();
        if l[0] == '\\' && l.len() >= 2 && l[1] == '-' {
            let l2 = l.skip(2);
            assert(l1.drop_first() == l2);
            assert(l1[0] == '-');
            assert(escape_line(l1) == seq![l1[0]] + escape_line(l1.drop_first()));
            let e2 = escape_line(l2);
            lemma_decode_escape(l2);
            let e = seq!['\\', '\\'] + (seq!['-'] + e2);
            assert(escape_line(l) == e);
            assert(e[0] == '\\' && e[1] == '\\');
            assert(e.drop_first() == seq!['\\', '-'] + e2);
            let e1 = e.drop_first();
            assert(e1.skip(2) == e2);
            assert(decode_line(e1) == seq!['-'] + decode_line(e2));
            assert(decode_line(e) == seq!['\\'] + decode_line(e1));
            assert(l == seq!['\\', '-'] + l2);
        } else {
            lemma_decode_escape(l1);
            lemma_escape_first(l1);
            let e1 = escape_line(l1);
            let e = seq![l[0]] + e1;
            assert(escape_line(l) == e);
            assert(e.drop_first() == e1);
            if l[0] == '\\' && e.len() >= 2 && e[1] == '-' {
                assert(e1[0] == '-');
                assert(l1.len() > 0);
                assert(l1[0] == '-');
                assert(false);
            }
            assert(decode_line(e) == seq![l[0]] + decode_line(e1));
            assert(l == seq![l[0]] + l1);
        }
    }
}

/// Reading back an encoded line gives the line.
proof fn lemma_decode_encode(l: Seq<char>)
    ensures
        decode_line(encode_line(l)) == l,
{
    if l == note_marker() {
        let e = escaped_marker();
        assert(e.skip(2) == seq!['\\', '-', '\\', '-']);
        assert(e.skip(2).skip(2) == seq!['\\', '-']);
        assert(e.skip(2).skip(2).skip(2) == Seq::<char>::empty());
        assert(decode_line(seq!['\\', '-']) == seq!['-'] + decode_line(Seq::<char>::empty()));
        assert(decode_line(seq!['\\', '-', '\\', '-']) == seq!['-'] + decode_line(
            seq!['\\', '-'],
        ));
        assert(decode_line(e) == seq!['-'] + decode_line(seq!['\\', '-', '\\', '-']));
        assert(decode_line(e) =~= note_marker());
    } else {
        lemma_decode_escape(l);
    }
}

/// An escaped line free of backslashes is the line itself.
proof fn lemma_escape_without_backslash(l: Seq<char>, t: Seq<char>)
    requires
        escape_line(l) == t,
        forall|i: int| 0 <= i < t.len() ==> t[i] != '\\',
    ensures
        l == t,
    decreases l.len(),
{
    if l.len() == 0 {
        assert(t == Seq::<char>::empty());
    } else {
        let l1 = l.drop_first();
        if l[0] == '\\' && l.len() >= 2 && l[1] == '-' {
            assert(t[0] == '\\');
        } else {
            assert(t == seq![l[0]] + escape_line(l1));
            let t1 = t.drop_first();
            assert(t1 == escape_line(l1));
            assert forall|i: int| 0 <= i < t1.len() implies t1[i] != '\\' by {
                assert(t1[i] == t[i + 1]);
            }
            lemma_escape_without_backslash(l1, t1);
            assert(l == seq![l[0]] + l1);
        }
    }
}

/// No encoded body line reads as a note marker.
proof fn lemma_encoded_not_marker(l: Seq<char>)
    ensures
        encode_line(l) != note_marker(),
{
    if l != note_marker() && escape_line(l) == note_marker() {
        lemma_escape_without_backslash(l, note_marker());
    }
    if l == note_marker() {
        assert(escaped_marker()[0] != note_marker()[0]);
    }
}

/// Escaping adds no newline and keeps the last character.
proof fn lemma_escape_keeps_line(l: Seq<char>)
    ensures
        no_newline(l) ==> no_newline(escape_line(l)),
        l.len() > 0 ==> escape_line(l).len() > 0 && escape_line(l).last() == l.last(),
    decreases l.len(),
{
    if l.len() > 0 {
        let l1 = l.drop_first();
        lemma_escape_keeps_line(l1);
        let pre = if l[0] == '\\' && l.len() >= 2 && l[1] == '-' {
            seq!['\\', '\\']
        } else {
            seq![l[0]]
        };
        assert(escape_line(l) == pre + escape_line(l1));
        if no_newline(l) {
            assert forall|i: int| 0 <= i < l1.len() implies l1[i] != '\n' by {
                assert(l1[i] == l[i + 1]);
            }
            assert forall|i: int| 0 <= i < escape_line(l).len() implies escape_line(l)[i]
                != '\n' by {
                if i >= pre.len() {
                    assert(escape_line(l)[i] == escape_line(l1)[i - pre.len()]);
                }
            }
        }
        if l1.len() == 0 {
            assert(escape_line(l1) == Seq::<char>::empty());
            assert(escape_line(l) == pre);
        }
    }
}

/// The lines of a written note: none holds a newline, none after the
/// marker is a marker, and none ends in a carriage return when the note
/// keeps its carriage returns.
proof fn lemma_note_body_lines(note: Seq<char>)
    ensures
        all_single_lines(note_body_lines(note)),
        forall|k: int|
            0 <= k < note_body_lines(note).len() ==> #[trigger] note_body_lines(note)[k]
                != note_marker(),
        carriage_returns_kept(note) ==> forall|k: int|
            0 <= k < note_body_lines(note).len() && #[trigger] note_body_lines(note)[k].len()
                > 0 ==> note_body_lines(note)[k].last() != '\r',
        note_lines(note) == seq![note_marker()] + note_body_lines(note),
{
    let body = note_body_lines(note);
    if note.len() == 0 {
        assert(seq![note_marker()] + body == seq![note_marker()]);
    } else {
        lemma_split_shape(note);
        let pieces = split_lines(note);
        assert forall|k: int| 0 <= k < body.len() implies no_newline(#[trigger] body[k])
            && body[k] != note_marker() by {
            assert(no_newline(pieces[k]));
            lemma_encoded_not_marker(pieces[k]);
            lemma_escape_keeps_line(pieces[k]);
            if pieces[k] == note_marker() {
                assert(body[k] == escaped_marker());
                assert forall|i: int| 0 <= i < escaped_marker().len() implies escaped_marker()[i]
                    != '\n' by {}
            }
        }
        if carriage_returns_kept(note) {
            lemma_pieces_end_without_cr(note);
            assert forall|k: int|
                0 <= k < body.len() && #[trigger] body[k].len() > 0 implies body[k].last()
                != '\r' by {
                lemma_escape_keeps_line(pieces[k]);
                if pieces[k] == note_marker() {
                    assert(body[k] == escaped_marker());
                } else if pieces[k].len() == 0 {
                    assert(escape_line(pieces[k]) == Seq::<char>::empty());
                }
            }
        }
    }
}

/// No piece of a note that keeps its carriage returns ends in one.
proof fn lemma_pieces_end_without_cr(note: Seq<char>)
    requires
        carriage_returns_kept(note),
    ensures
        forall|k: int|
            0 <= k < split_lines(note).len() && #[trigger] split_lines(note)[k].len() > 0
                ==> split_lines(note)[k].last() != '\r',
{
    lemma_pieces_end_without_cr_prefix(note, note.len() as int);
    assert(note.take(note.len() as int) == note);
    lemma_split_shape(note);
    if note.len() > 0 {
        assert(note[note.len() - 1] != '\r');
    }
}

/// In any prefix of a note that keeps its carriage returns, only the last
/// piece may end in one.
proof fn lemma_pieces_end_without_cr_prefix(note: Seq<char>, n: int)
    requires
        carriage_returns_kept(note),
        0 <= n <= note.len(),
    ensures
        forall|k: int|
            0 <= k < split_lines(note.take(n)).len() - 1 && #[trigger] split_lines(
                note.take(n),
            )[k].len() > 0 ==> split_lines(note.take(n))[k].last() != '\r',
        split_lines(note.take(n)).len() >= 1,
    decreases n,
{
    lemma_split_shape(note.take(n));
    if n > 0 {
        let s = note.take(n);
        assert(s.drop_last() == note.take(n - 1));
        lemma_pieces_end_without_cr_prefix(note, n - 1);
        lemma_split_shape(note.take(n - 1));
        let p = split_lines(note.take(n - 1));
        if s.last() == '\n' {
            if p.last().len() > 0 {
                assert(p.last().last() == note.take(n - 1).last());
                assert(note[n - 2] == note.take(n - 1).last());
                assert(note[n - 1] == '\n');
            }
            let q = p.push(Seq::<char>::empty());
            assert forall|k: int| 0 <= k < q.len() - 1 && #[trigger] q[k].len() > 0 implies q[k].last()
                != '\r' by {
                assert(q[k] == p[k]);
            }
        } else {
            let q = p.update(p.len() - 1, p.last().push(s.last()));
            assert forall|k: int| 0 <= k < q.len() - 1 && #[trigger] q[k].len() > 0 implies q[k].last()
                != '\r' by {
                assert(q[k] == p[k]);
            }
        }
    }
}

/// Joined lines that hold no newline and end in no carriage return, with
/// a final newline, hold no carriage return-line feed pair.
proof fn lemma_join_crlf_free(lines: Seq<Seq<char>>)
    requires
        lines.len() >= 1,
        all_single_lines(lines),
        forall|k: int|
            0 <= k < lines.len() && #[trigger] lines[k].len() > 0 ==> lines[k].last() != '\r',
    ensures
        crlf_free(join_lines(lines).push('\n')),
    decreases lines.len(),
{
    let last = lines.last();
    assert(no_newline(lines[lines.len() - 1]));
    let b = last.push('\n');
    assert forall|i: int| 0 <= i && i + 1 < b.len() implies !(#[trigger] b[i] == '\r' && b[i
        + 1] == '\n') by {
        if i + 1 < last.len() {
            assert(b[i + 1] == last[i + 1]);
        } else {
            assert(lines[lines.len() - 1].len() > 0);
            assert(b[i] == last.last());
        }
    }
    if lines.len() == 1 {
        assert(join_lines(lines) == last);
    } else {
        let init = lines.drop_last();
        assert forall|k: int| 0 <= k < init.len() implies no_newline(#[trigger] init[k]) by {
            assert(init[k] == lines[k]);
            assert(no_newline(lines[k]));
        }
        assert forall|k: int| 0 <= k < init.len() && #[trigger] init[k].len() > 0 implies init[k].last()
            != '\r' by {
            assert(init[k] == lines[k]);
        }
        lemma_join_crlf_free(init);
        let a = join_lines(init).push('\n');
        assert(join_lines(lines).push('\n') == a + b);
        let s = a + b;
        assert forall|i: int| 0 <= i && i + 1 < s.len() implies !(#[trigger] s[i] == '\r' && s[i
            + 1] == '\n') by {
            if i + 1 < a.len() {
                assert(s[i] == a[i] && s[i + 1] == a[i + 1]);
            } else if i + 1 == a.len() {
                assert(s[i] == a[i]);
                assert(a[i] == '\n');
            } else {
                assert(s[i] == b[i - a.len()] && s[i + 1] == b[i + 1 - a.len()]);
            }
        }
    }
}

/// Text without a carriage return-line feed pair is not changed by
/// turning such pairs into line feeds.
proof fn lemma_crlf_free_unchanged(s: Seq<char>)
    requires
        crlf_free(s),
    ensures
        crlf_to_lf(s) == s,
    decreases s.len(),
{
    if s.len() > 0 {
        let s1 = s.drop_first();
        assert forall|i: int| 0 <= i && i + 1 < s1.len() implies !(#[trigger] s1[i] == '\r' && s1[i
            + 1] == '\n') by {
            assert(s1[i] == s[i + 1] && s1[i + 1] == s[i + 2]);
        }
        lemma_crlf_free_unchanged(s1);
        if s.len() >= 2 {
            assert(!(s[0] == '\r' && s[1] == '\n'));
        }
        assert(s == seq![s[0]] + s1);
    }
}

/// A marker line followed by marker-free lines adds one note body.
proof fn lemma_note_bodies_append(
    x: Seq<Seq<char>>,
    bodies: Seq<Seq<Seq<char>>>,
    e: Seq<Seq<char>>,
)
    requires
        note_bodies(x) == Some(bodies),
        forall|k: int| 0 <= k < e.len() ==> #[trigger] e[k] != note_marker(),
    ensures
        note_bodies(x + seq![note_marker()] + e) == Some(bodies.push(e)),
    decreases e.len(),
{
    let y = x + seq![note_marker()];
    assert(y.drop_last() == x);
    if e.len() == 0 {
        assert(y + e == y);
        assert(e == Seq::<Seq<char>>::empty());
    } else {
        let e0 = e.drop_last();
        assert forall|k: int| 0 <= k < e0.len() implies #[trigger] e0[k] != note_marker() by {
            assert(e0[k] == e[k]);
        }
        lemma_note_bodies_append(x, bodies, e0);
        assert((y + e).drop_last() == y + e0);
        assert((y + e).last() == e.last());
        assert(e.last() == e[e.len() - 1]);
        let bs = bodies.push(e0);
        assert(bs.last() == e0);
        assert(e0.push(e.last()) =~= e);
        assert(bs.update(bs.len() - 1, bs.last().push(e.last())) =~= bodies.push(e));
    }
}

/// The note bodies of written notes: each note's encoded body lines.
proof fn lemma_note_bodies_of_document(notes: Seq<Seq<char>>)
    ensures
        note_bodies(document_lines(notes)) == Some(
            notes.map_values(|n: Seq<char>| note_body_lines(n)),
        ),
    decreases notes.len(),
{
    if notes.len() == 0 {
        assert(notes.map_values(|n: Seq<char>| note_body_lines(n)) == Seq::<
            Seq<Seq<char>>,
        >::empty());
    } else {
        let init = notes.drop_last();
        lemma_note_bodies_of_document(init);
        lemma_note_body_lines(notes.last());
        let body = note_body_lines(notes.last());
        lemma_note_bodies_append(
            document_lines(init),
            init.map_values(|n: Seq<char>| note_body_lines(n)),
            body,
        );
        assert(document_lines(notes) == document_lines(init) + seq![note_marker()] + body);
        assert(init.map_values(|n: Seq<char>| note_body_lines(n)).push(body) == notes.map_values(
            |n: Seq<char>| note_body_lines(n),
        ));
    }
}

/// Every file line of written notes is a single line, and none ends in a
/// carriage return when every note keeps its carriage returns; the first
/// is a marker.
proof fn lemma_document_lines_shape(notes: Seq<Seq<char>>)
    ensures
        all_single_lines(document_lines(notes)),
        (forall|k: int| 0 <= k < notes.len() ==> carriage_returns_kept(#[trigger] notes[k]))
            ==> forall|k: int|
            0 <= k < document_lines(notes).len() && #[trigger] document_lines(notes)[k].len() > 0
                ==> document_lines(notes)[k].last() != '\r',
        notes.len() > 0 ==> document_lines(notes).len() >= 1 && document_lines(notes)[0]
            == note_marker(),
    decreases notes.len(),
{
    if notes.len() > 0 {
        let init = notes.drop_last();
        lemma_document_lines_shape(init);
        lemma_note_body_lines(notes.last());
        let a = document_lines(init);
        let b = note_lines(notes.last());
        let body = note_body_lines(notes.last());
        let d = a + b;
        assert(d == document_lines(notes));
        assert forall|k: int| 0 <= k < d.len() implies no_newline(#[trigger] d[k]) by {
            if k < a.len() {
                assert(d[k] == a[k]);
                assert(no_newline(a[k]));
            } else if k == a.len() {
                assert(d[k] == note_marker());
            } else {
                assert(d[k] == body[k - a.len() - 1]);
                assert(no_newline(body[k - a.len() - 1]));
            }
        }
        if forall|k: int| 0 <= k < notes.len() ==> carriage_returns_kept(#[trigger] notes[k]) {
            assert forall|k: int| 0 <= k < init.len() implies carriage_returns_kept(
                #[trigger] init[k],
            ) by {
                assert(init[k] == notes[k]);
            }
            assert(carriage_returns_kept(notes[notes.len() - 1]));
            assert forall|k: int| 0 <= k < d.len() && #[trigger] d[k].len() > 0 implies d[k].last()
                != '\r' by {
                if k < a.len() {
                    assert(d[k] == a[k]);
                } else if k == a.len() {
                    assert(d[k] == note_marker());
                } else {
                    assert(d[k] == body[k - a.len() - 1]);
                }
            }
        }
        if init.len() == 0 {
            assert(a == Seq::<Seq<char>>::empty());
            assert(d[0] == b[0]);
        } else {
            assert(d[0] == a[0]);
        }
    }
}

/// The written text of non-empty notes reads, once normalized, as its
/// file lines joined.
proof fn lemma_normalize_serialized(notes: Seq<Seq<char>>)
    requires
        notes.len() > 0,
        forall|k: int| 0 <= k < notes.len() ==> carriage_returns_kept(#[trigger] notes[k]),
    ensures
        normalize_source(serialize_notes(notes)) == join_lines(document_lines(notes)),
        join_lines(document_lines(notes)).len() > 0,
{
    let s = serialize_notes(notes);
    let lines = document_lines(notes);
    lemma_document_lines_shape(notes);
    let joined = join_lines(lines);
    if lines.len() >= 2 {
        lemma_join_append(seq![lines[0]], lines.drop_first());
        assert(seq![lines[0]] + lines.drop_first() == lines);
    }
    assert(joined.len() > 0 && joined[0] == '-') by {
        if lines.len() == 1 {
            assert(joined == lines[0]);
        } else {
            assert(joined == lines[0] + seq!['\n'] + join_lines(lines.drop_first()));
        }
    }
    assert(s == joined.push('\n'));
    assert(strip_bom(s) == s);
    lemma_join_crlf_free(lines);
    lemma_crlf_free_unchanged(s);
    assert(s.drop_last() == joined);
}

/// The encoded body lines of each note read back as the note.
proof fn lemma_decode_note_bodies(notes: Seq<Seq<char>>)
    ensures
        notes.map_values(|n: Seq<char>| note_body_lines(n)).map_values(
            |b: Seq<Seq<char>>| decode_body(b),
        ) == notes,
{
    let bodies = notes.map_values(|n: Seq<char>| note_body_lines(n));
    assert forall|k: int| 0 <= k < notes.len() implies decode_body(#[trigger] bodies[k])
        == notes[k] by {
        let n = notes[k];
        if n.len() == 0 {
            assert(bodies[k] == Seq::<Seq<char>>::empty());
            assert(decode_body(bodies[k]) == Seq::<char>::empty());
        } else {
            let pieces = split_lines(n);
            let enc = pieces.map_values(|line: Seq<char>| encode_line(line));
            assert(enc.map_values(|line: Seq<char>| decode_line(line)) == pieces) by {
                assert forall|j: int| 0 <= j < pieces.len() implies enc.map_values(
                    |line: Seq<char>| decode_line(line),
                )[j] == pieces[j] by {
                    lemma_decode_encode(pieces[j]);
                }
            }
            lemma_join_split(n);
        }
    }
    assert(bodies.map_values(|b: Seq<Seq<char>>| decode_body(b)) =~= notes);
}

/// Law: what is written reads back as the same notes. Memo file text
/// written for some notes parses to exactly those notes, provided every
/// carriage return in them is followed by a character other than a
/// newline (otherwise the reader takes it for a CRLF line end).
pub proof fn lemma_parse_serialize(notes: Seq<Seq<char>>)
    requires
        forall|k: int| 0 <= k < notes.len() ==> carriage_returns_kept(#[trigger] notes[k]),
    ensures
        parse_notes(serialize_notes(notes)) == Some(notes),
{
    let s = serialize_notes(notes);
    if notes.len() == 0 {
        assert(normalize_source(s) == Seq::<char>::empty());
        assert(notes == Seq::<Seq<char>>::empty());
    } else {
        lemma_normalize_serialized(notes);
        lemma_document_lines_shape(notes);
        lemma_split_join(document_lines(notes));
        lemma_note_bodies_of_document(notes);
        lemma_decode_note_bodies(notes);
    }
}

/// Note bodies exist exactly when the lines are empty or start with a
/// marker, and then there is a body for each marker so far.
proof fn lemma_note_bodies_exist(lines: Seq<Seq<char>>)
    ensures
        (note_bodies(lines) is None) <==> (lines.len() > 0 && lines[0] != note_marker()),
        lines.len() > 0 && note_bodies(lines) is Some ==> note_bodies(lines)->0.len() >= 1,
    decreases lines.len(),
{
    if lines.len() > 0 {
        let init = lines.drop_last();
        lemma_note_bodies_exist(init);
        if init.len() > 0 {
            assert(init[0] == lines[0]);
        }
    }
}

/// Law: reading fails only for text before the first marker. Memo file
/// text fails to parse exactly when, after normalizing, it is not empty
/// and its first line is not the note marker.
pub proof fn lemma_parse_fails_iff_content_before_marker(source: Seq<char>)
    ensures
        (parse_notes(source) is None) <==> (normalize_source(source).len() > 0 && split_lines(
            normalize_source(source),
        )[0] != note_marker()),
{
    lemma_note_bodies_exist(split_lines(normalize_source(source)));
    lemma_split_shape(normalize_source(source));
}

/// The first piece of text that holds a newline is what comes before it.
proof fn lemma_split_first(a: Seq<char>, b: Seq<char>)
    requires
        no_newline(a),
    ensures
        split_lines(a + seq!['\n'] + b).len() >= 2,
        split_lines(a + seq!['\n'] + b)[0] == a,
    decreases b.len(),
{
    let x = a + seq!['\n'];
    if b.len() == 0 {
        assert(x + b == x);
        assert(x.drop_last() == a);
        lemma_split_append_line(Seq::<char>::empty(), a);
        assert(Seq::<char>::empty() + a == a);
        assert(split_lines(a) == seq![a]);
    } else {
        lemma_split_first(a, b.drop_last());
        assert((x + b).drop_last() == x + b.drop_last());
    }
}

/// Written text for some notes is a marker, a newline, and the rest.
proof fn lemma_serialized_start(notes: Seq<Seq<char>>) -> (rest: Seq<char>)
    requires
        notes.len() > 0,
    ensures
        serialize_notes(notes) == note_marker() + seq!['\n'] + rest,
{
    let lines = document_lines(notes);
    lemma_document_lines_shape(notes);
    let m = note_marker();
    if lines.len() >= 2 {
        lemma_join_append(seq![lines[0]], lines.drop_first());
        assert(seq![lines[0]] + lines.drop_first() == lines);
        let rest = join_lines(lines.drop_first()) + seq!['\n'];
        assert(serialize_notes(notes) == m + seq!['\n'] + rest);
        rest
    } else {
        assert(join_lines(lines) == m);
        assert(serialize_notes(notes) == m + seq!['\n'] + Seq::<char>::empty());
        Seq::<char>::empty()
    }
}

/// Text that starts with a marker line still starts with one once
/// normalized.
proof fn lemma_normalized_marker_start(rest: Seq<char>)
    ensures
        normalize_source(note_marker() + seq!['\n'] + rest).len() > 0,
        split_lines(normalize_source(note_marker() + seq!['\n'] + rest))[0] == note_marker(),
{
    let m = note_marker();
    let t = seq!['\n'] + rest;
    let s = m + t;
    assert(s == m + seq!['\n'] + rest);
    assert(strip_bom(s) == s);
    assert(t.drop_first() == rest);
    assert(crlf_to_lf(t) == seq!['\n'] + crlf_to_lf(rest));
    assert(s.drop_first() == seq!['-', '-'] + t);
    assert((seq!['-', '-'] + t).drop_first() == seq!['-'] + t);
    assert((seq!['-'] + t).drop_first() == t);
    assert(crlf_to_lf(seq!['-'] + t) == seq!['-'] + crlf_to_lf(t));
    assert(crlf_to_lf(seq!['-', '-'] + t) == seq!['-'] + crlf_to_lf(seq!['-'] + t));
    assert(crlf_to_lf(s) == seq!['-'] + crlf_to_lf(seq!['-', '-'] + t));
    let w = crlf_to_lf(rest);
    let c = crlf_to_lf(s);
    assert(c == m + seq!['\n'] + w);
    assert(no_newline(m));
    if w.len() == 0 {
        assert(c.drop_last() == m);
        assert(strip_final_newline(c) == m);
        lemma_split_append_line(Seq::<char>::empty(), m);
        assert(Seq::<char>::empty() + m == m);
    } else {
        let w2 = if w.last() == '\n' {
            w.drop_last()
        } else {
            w
        };
        assert(strip_final_newline(c) == m + seq!['\n'] + w2);
        lemma_split_first(m, w2);
    }
}

/// Law: whatever is written can be read. The memo file text written for
/// any notes parses without error (it always starts with a marker line).
pub proof fn lemma_serialized_always_parses(notes: Seq<Seq<char>>)
    ensures
        parse_notes(serialize_notes(notes)) is Some,
{
    if notes.len() > 0 {
        let rest = lemma_serialized_start(notes);
        lemma_normalized_marker_start(rest);
        lemma_parse_fails_iff_content_before_marker(serialize_notes(notes));
    }
}

/// `s` with every newline written as a carriage return-line feed pair.
pub open spec fn with_crlf(s: Seq<char>) -> Seq<char>
    decreases s.len(),
{
    if s.len() == 0 {
        Seq::<char>::empty()
    } else if s[0] == '\n' {
        seq!['\r', '\n'] + with_crlf(s.drop_first())
    } else {
        seq![s[0]] + with_crlf(s.drop_first())
    }
}

/// Text without carriage returns is kept by CRLF-to-LF, and gets back
/// from its CRLF form.
proof fn lemma_crlf_round(s: Seq<char>)
    requires
        forall|i: int| 0 <= i < s.len() ==> s[i] != '\r',
    ensures
        crlf_to_lf(with_crlf(s)) == s,
        crlf_to_lf(s) == s,
    decreases s.len(),
{
    if s.len() > 0 {
        let r = s.drop_first();
        assert forall|i: int| 0 <= i < r.len() implies r[i] != '\r' by {
            assert(r[i] == s[i + 1]);
        }
        lemma_crlf_round(r);
        let w = with_crlf(r);
        if s[0] == '\n' {
            let t = seq!['\r', '\n'] + w;
            assert(t.skip(2) == w);
        } else {
            let t = seq![s[0]] + w;
            assert(t.drop_first() == w);
        }
        assert(s == seq![s[0]] + r);
    }
}

/// Law: a byte order mark and CRLF line ends do not change what a memo
/// file holds. Text without carriage returns that does not start with a
/// byte order mark reads the same with a byte order mark put before it and
/// each newline written as CRLF.
pub proof fn lemma_parse_ignores_bom_and_crlf(s: Seq<char>)
    requires
        forall|i: int| 0 <= i < s.len() ==> s[i] != '\r',
        s.len() == 0 || s[0] != '\u{feff}',
    ensures
        parse_notes(seq!['\u{feff}'] + with_crlf(s)) == parse_notes(s),
{
    lemma_crlf_round(s);
    let b = seq!['\u{feff}'] + with_crlf(s);
    assert(b.drop_first() == with_crlf(s));
    assert(strip_bom(b) == with_crlf(s));
    assert(strip_bom(s) == s);
    assert(normalize_source(b) == normalize_source(s));
}

} // verus!
