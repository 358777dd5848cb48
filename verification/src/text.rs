//! Character-sequence helpers shared by the memo file format and the
//! other text-processing parts of the library: splitting at newlines,
//! joining with newlines, and moving between `str`/`String` and `Vec<char>`.
use vstd::prelude::*;

verus! {

/// The pieces of `s` between newline characters, exactly as
/// `str::split('\n')` yields them: there is always at least one piece,
/// and a newline at either end yields an empty piece there.
pub open spec fn split_lines(s: Seq<char>) -> Seq<Seq<char>>
    decreases s.len(),
{
    if s.len() == 0 {
        seq![Seq::<char>::empty()]
    } else {
        let pieces = split_lines(s.drop_last());
        if s.last() == '\n' {
            pieces.push(Seq::<char>::empty())
        } else {
            pieces.update(pieces.len() - 1, pieces.last().push(s.last()))
        }
    }
}

/// The pieces of `lines` joined with a newline between each two of them,
/// as `[String]::join("\n")` does.
pub open spec fn join_lines(lines: Seq<Seq<char>>) -> Seq<char>
    decreases lines.len(),
{
    if lines.len() == 0 {
        Seq::<char>::empty()
    } else if lines.len() == 1 {
        lines[0]
    } else {
        join_lines(lines.drop_last()) + seq!['\n'] + lines.last()
    }
}

/// `s` holds no newline character.
pub open spec fn no_newline(s: Seq<char>) -> bool {
    forall|i: int| 0 <= i < s.len() ==> s[i] != '\n'
}

/// Every piece of `lines` is free of newline characters.
pub open spec fn all_single_lines(lines: Seq<Seq<char>>) -> bool {
    forall|k: int| 0 <= k < lines.len() ==> no_newline(#[trigger] lines[k])
}

/// The pieces of `s`: at least one, none holding a newline, and the last
/// one a suffix of `s` (so it ends as `s` does when it is not empty).
pub proof fn lemma_split_shape(s: Seq<char>)
    ensures
        split_lines(s).len() >= 1,
        all_single_lines(split_lines(s)),
        split_lines(s).last().len() <= s.len(),
        split_lines(s).last().len() > 0 ==> split_lines(s).last().last() == s.last(),
    decreases s.len(),
{
    if s.len() > 0 {
        lemma_split_shape(s.drop_last());
        let pieces = split_lines(s.drop_last());
        if s.last() != '\n' {
            let np = pieces.update(pieces.len() - 1, pieces.last().push(s.last()));
            assert forall|k: int| 0 <= k < np.len() implies no_newline(#[trigger] np[k]) by {
                if k == np.len() - 1 {
                    assert(np[k] == pieces.last().push(s.last()));
                    assert forall|i: int| 0 <= i < np[k].len() implies np[k][i] != '\n' by {
                        if i < pieces.last().len() {
                            assert(no_newline(pieces[pieces.len() - 1]));
                        }
                    }
                } else {
                    assert(no_newline(pieces[k]));
                }
            }
        } else {
            let np = pieces.push(Seq::<char>::empty());
            assert forall|k: int| 0 <= k < np.len() implies no_newline(#[trigger] np[k]) by {
                if k < pieces.len() {
                    assert(no_newline(pieces[k]));
                }
            }
        }
    }
}

/// Joining extends the joined text when the last line is extended.
pub proof fn lemma_join_extend_last(lines: Seq<Seq<char>>, tail: Seq<char>)
    requires
        lines.len() >= 1,
    ensures
        join_lines(lines.update(lines.len() - 1, lines.last() + tail)) == join_lines(lines) + tail,
{
    let nl = lines.update(lines.len() - 1, lines.last() + tail);
    if lines.len() == 1 {
        assert(nl[0] == lines[0] + tail);
    } else {
        assert(nl.drop_last() == lines.drop_last());
        assert(nl.last() == lines.last() + tail);
        assert(join_lines(lines.drop_last()) + seq!['\n'] + (lines.last() + tail) == (join_lines(
            lines.drop_last(),
        ) + seq!['\n'] + lines.last()) + tail);
    }
}

/// Joining the pieces of `s` gives `s` again.
pub proof fn lemma_join_split(s: Seq<char>)
    ensures
        join_lines(split_lines(s)) == s,
    decreases s.len(),
{
    if s.len() == 0 {
        assert(join_lines(split_lines(s)) == Seq::<char>::empty());
    } else {
        let init = s.drop_last();
        lemma_join_split(init);
        lemma_split_shape(init);
        let pieces = split_lines(init);
        if s.last() == '\n' {
            let np = pieces.push(Seq::<char>::empty());
            assert(np.drop_last() == pieces);
            assert(join_lines(np) == join_lines(pieces) + seq!['\n'] + Seq::<char>::empty());
            assert(s == init + seq!['\n'] + Seq::<char>::empty());
        } else {
            lemma_join_extend_last(pieces, seq![s.last()]);
            assert(pieces.last().push(s.last()) == pieces.last() + seq![s.last()]);
            assert(s == init + seq![s.last()]);
        }
    }
}

/// Splitting text that ends in a newline-free tail extends the last piece.
pub proof fn lemma_split_append_line(a: Seq<char>, tail: Seq<char>)
    requires
        no_newline(tail),
    ensures
        split_lines(a + tail) == split_lines(a).update(
            split_lines(a).len() - 1,
            split_lines(a).last() + tail,
        ),
    decreases tail.len(),
{
    lemma_split_shape(a);
    if tail.len() == 0 {
        assert(a + tail == a);
        assert(split_lines(a).last() + tail == split_lines(a).last());
        assert(split_lines(a).update(split_lines(a).len() - 1, split_lines(a).last())
            == split_lines(a));
    } else {
        let t0 = tail.drop_last();
        assert(no_newline(t0));
        lemma_split_append_line(a, t0);
        assert((a + tail).drop_last() == a + t0);
        assert((a + tail).last() == tail.last());
        assert(tail.last() != '\n');
        let p = split_lines(a);
        let q = p.update(p.len() - 1, p.last() + t0);
        assert(q.last() == p.last() + t0);
        assert((p.last() + t0).push(tail.last()) == p.last() + tail);
        assert(q.update(q.len() - 1, q.last().push(tail.last())) == p.update(
            p.len() - 1,
            p.last() + tail,
        ));
    }
}

/// Joining newline-free lines and splitting again gives the same lines back.
pub proof fn lemma_split_join(lines: Seq<Seq<char>>)
    requires
        lines.len() >= 1,
        all_single_lines(lines),
    ensures
        split_lines(join_lines(lines)) == lines,
    decreases lines.len(),
{
    if lines.len() == 1 {
        assert(no_newline(lines[0]));
        lemma_split_append_line(Seq::<char>::empty(), lines[0]);
        assert(Seq::<char>::empty() + lines[0] == lines[0]);
        assert(split_lines(Seq::<char>::empty()) == seq![Seq::<char>::empty()]);
        assert(Seq::<char>::empty() + lines[0] == lines[0]);
        assert(seq![Seq::<char>::empty()].update(0, Seq::<char>::empty() + lines[0]) == lines);
    } else {
        let init = lines.drop_last();
        assert forall|k: int| 0 <= k < init.len() implies no_newline(#[trigger] init[k]) by {
            assert(init[k] == lines[k]);
            assert(no_newline(lines[k]));
        }
        lemma_split_join(init);
        let a = join_lines(init) + seq!['\n'];
        assert(no_newline(lines[lines.len() - 1]));
        lemma_split_append_line(a, lines.last());
        assert(a.drop_last() == join_lines(init));
        assert(split_lines(a) == init.push(Seq::<char>::empty()));
        let p = init.push(Seq::<char>::empty());
        assert(p.last() + lines.last() == lines.last());
        assert(p.update(p.len() - 1, lines.last()) == lines);
    }
}

/// Joining two non-empty runs of lines puts one newline between them.
pub proof fn lemma_join_append(a: Seq<Seq<char>>, b: Seq<Seq<char>>)
    requires
        a.len() >= 1,
        b.len() >= 1,
    ensures
        join_lines(a + b) == join_lines(a) + seq!['\n'] + join_lines(b),
    decreases b.len(),
{
    if b.len() == 1 {
        assert((a + b).drop_last() == a);
        assert((a + b).last() == b[0]);
    } else {
        lemma_join_append(a, b.drop_last());
        assert((a + b).drop_last() == a + b.drop_last());
        assert((a + b).last() == b.last());
        assert(join_lines(a) + seq!['\n'] + join_lines(b.drop_last()) + seq!['\n'] + b.last()
            == join_lines(a) + seq!['\n'] + (join_lines(b.drop_last()) + seq!['\n'] + b.last()));
    }
}

/// Appends `c` to `text` by calling `String::push`. Trusted: std documents
/// `String::push` as appending the character to the end of the string,
/// and this contract states exactly that of the text's characters.
#[verifier::external_body]
pub(crate) fn push_char(text: &mut String, c: char)
    ensures
        final(text)@ == old(text)@.push(c),
{
    text.push(c);
}

/// The characters of `text`, in order.
pub fn chars_of(text: &str) -> (out: Vec<char>)
    ensures
        out@ == text@,
{
    let mut out: Vec<char> = Vec::new();
    for c in it: text.chars()
        invariant
            out@ == it.seq().take(it.index() as int),
    {
        out.push(c);
    }
    out
}

/// The string made of `chars`, in order.
pub fn string_of(chars: &Vec<char>) -> (out: String)
    ensures
        out@ == chars@,
{
    let mut out = String::new();
    let mut i: usize = 0;
    while i < chars.len()
        invariant
            i <= chars.len(),
            out@ == chars@.take(i as int),
        decreases chars.len() - i,
    {
        push_char(&mut out, chars[i]);
        assert(chars@.take(i + 1) == chars@.take(i as int).push(chars@[i as int]));
        i += 1;
    }
    assert(chars@.take(chars.len() as int) == chars@);
    out
}

/// Splits `chars` at every newline, as `str::split('\n')` does.
pub fn split_chars(chars: &Vec<char>) -> (pieces: Vec<Vec<char>>)
    ensures
        pieces.deep_view() == split_lines(chars@),
{
    let mut pieces: Vec<Vec<char>> = Vec::new();
    let mut current: Vec<char> = Vec::new();
    let mut i: usize = 0;
    while i < chars.len()
        invariant
            i <= chars.len(),
            pieces.deep_view().push(current@) == split_lines(chars@.take(i as int)),
        decreases chars.len() - i,
    {
        let c = chars[i];
        let ghost before = pieces.deep_view().push(current@);
        assert(chars@.take(i + 1).drop_last() == chars@.take(i as int));
        assert(chars@.take(i + 1).last() == c);
        if c == '\n' {
            let done = current;
            let ghost pv = pieces.deep_view();
            let ghost dv = done.deep_view();
            assert(dv =~= done@);
            pieces.push(done);
            current = Vec::new();
            assert(pieces.deep_view() =~= pv.push(dv));
            assert(pieces.deep_view() == before);
        } else {
            current.push(c);
            assert(pieces.deep_view().push(current@) == before.update(
                before.len() - 1,
                before.last().push(c),
            ));
        }
        i += 1;
    }
    assert(chars@.take(chars.len() as int) == chars@);
    let ghost pv = pieces.deep_view();
    let ghost cv = current.deep_view();
    assert(cv =~= current@);
    pieces.push(current);
    assert(pieces.deep_view() =~= pv.push(cv));
    pieces
}

/// Joins `lines` with a newline between each two of them.
pub fn join_chars(lines: &Vec<Vec<char>>) -> (out: Vec<char>)
    ensures
        out@ == join_lines(lines.deep_view()),
{
    let mut out: Vec<char> = Vec::new();
    let mut k: usize = 0;
    while k < lines.len()
        invariant
            k <= lines.len(),
            out@ == join_lines(lines.deep_view().take(k as int)),
        decreases lines.len() - k,
    {
        let ghost before = out@;
        if k > 0 {
            out.push('\n');
        }
        let line = &lines[k];
        let mut j: usize = 0;
        while j < line.len()
            invariant
                j <= line.len(),
                line == &lines[k as int],
                out@ == (if k > 0 {
                    before + seq!['\n']
                } else {
                    before
                }) + line@.take(j as int),
            decreases line.len() - j,
        {
            out.push(line[j]);
            assert(line@.take(j + 1) == line@.take(j as int).push(line@[j as int]));
            j += 1;
        }
        assert(line@.take(line.len() as int) == line@);
        let ghost t = lines.deep_view().take(k + 1);
        assert(t.drop_last() == lines.deep_view().take(k as int));
        assert(t.last() == line@);
        if k == 0 {
            assert(before == Seq::<char>::empty());
            assert(out@ == line@);
        }
        k += 1;
    }
    assert(lines.deep_view().take(lines.len() as int) == lines.deep_view());
    out
}

/// `line` without one final carriage return.
pub open spec fn strip_carriage_return(line: Seq<char>) -> Seq<char> {
    if line.len() > 0 && line.last() == '\r' {
        line.drop_last()
    } else {
        line
    }
}

/// The lines of `s` as `str::lines` yields them: pieces ended by a
/// newline lose that newline and one carriage return before it, a final
/// piece without a newline is kept as it is, and a final newline starts
/// no further line.
pub open spec fn text_lines(s: Seq<char>) -> Seq<Seq<char>> {
    if s.len() == 0 {
        Seq::<Seq<char>>::empty()
    } else {
        let pieces = split_lines(s);
        let ended = pieces.drop_last().map_values(|line: Seq<char>| strip_carriage_return(line));
        if s.last() == '\n' {
            ended
        } else {
            ended.push(pieces.last())
        }
    }
}

/// The lines of `chars`, as `str::lines` yields them.
pub fn lines_of(chars: &Vec<char>) -> (lines: Vec<Vec<char>>)
    ensures
        lines.deep_view() == text_lines(chars@),
{
    let mut lines: Vec<Vec<char>> = Vec::new();
    if chars.len() == 0 {
        assert(lines.deep_view() =~= Seq::<Seq<char>>::empty());
        return lines;
    }
    let pieces = split_chars(chars);
    proof {
        lemma_split_shape(chars@);
    }
    let last = pieces.len() - 1;
    let mut k: usize = 0;
    while k < last
        invariant
            k <= last,
            last + 1 == pieces.len(),
            lines.deep_view() == pieces.deep_view().take(k as int).map_values(|line: Seq<char>| strip_carriage_return(line)),
        decreases last - k,
    {
        let piece = &pieces[k];
        let mut line: Vec<char> = Vec::new();
        let n = if piece.len() > 0 && piece[piece.len() - 1] == '\r' {
            piece.len() - 1
        } else {
            piece.len()
        };
        let mut j: usize = 0;
        while j < n
            invariant
                j <= n <= piece.len(),
                line@ == piece@.take(j as int),
            decreases n - j,
        {
            line.push(piece[j]);
            assert(piece@.take(j + 1) == piece@.take(j as int).push(piece@[j as int]));
            j += 1;
        }
        assert(pieces.deep_view()[k as int] =~= piece@);
        assert(line@ =~= strip_carriage_return(piece@));
        let ghost lv = lines.deep_view();
        let ghost ldv = line.deep_view();
        assert(ldv =~= line@);
        lines.push(line);
        assert(lines.deep_view() =~= lv.push(ldv));
        assert(pieces.deep_view().take(k + 1).map_values(|line: Seq<char>| strip_carriage_return(line)) =~= pieces.deep_view().take(
            k as int,
        ).map_values(|line: Seq<char>| strip_carriage_return(line)).push(strip_carriage_return(pieces.deep_view()[k as int])));
        k += 1;
    }
    assert(pieces.deep_view().take(last as int) =~= pieces.deep_view().drop_last());
    if chars[chars.len() - 1] != '\n' {
        let tail = pieces[last].clone();
        assert(tail@ =~= pieces[last as int]@);
        let ghost lv = lines.deep_view();
        let ghost tdv = tail.deep_view();
        assert(tdv =~= tail@);
        assert(pieces.deep_view().last() =~= tail@);
        lines.push(tail);
        assert(lines.deep_view() =~= lv.push(tdv));
    }
    lines
}

} // verus!
