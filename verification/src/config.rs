//! User settings and their one-line-per-setting text form.
use vstd::prelude::*;
use crate::constants::{DEFAULT_HEIGHT, MAX_HEIGHT, MIN_HEIGHT};
use crate::text::{
    chars_of, lemma_split_append_line, lines_of, no_newline, split_lines, strip_carriage_return,
    string_of, text_lines,
};

verus! {

/// The start of the settings line that holds the memo height.
pub open spec fn height_prefix() -> Seq<char> {
    seq!['h', 'e', 'i', 'g', 'h', 't', ':']
}

/// `c` is one of the ASCII digits.
pub open spec fn is_digit(c: char) -> bool {
    '0' <= c && c <= '9'
}

/// The number that the decimal digits `d` write.
pub open spec fn digits_value(d: Seq<char>) -> nat
    decreases d.len(),
{
    if d.len() == 0 {
        0
    } else {
        digits_value(d.drop_last()) * 10 + (d.last() as nat - '0' as nat) as nat
    }
}

/// Every character of `d` is a digit.
pub open spec fn all_digits(d: Seq<char>) -> bool {
    forall|i: int| 0 <= i < d.len() ==> is_digit(#[trigger] d[i])
}

/// `s` without one leading plus sign.
pub open spec fn unsigned_part(s: Seq<char>) -> Seq<char> {
    if s.len() > 0 && s[0] == '+' {
        s.drop_first()
    } else {
        s
    }
}

/// What `str::parse::<u16>` gives for `s`: an optional plus sign, then one
/// or more ASCII digits whose value fits in a `u16`.
pub open spec fn parse_u16(s: Seq<char>) -> Option<u16> {
    let d = unsigned_part(s);
    if d.len() == 0 || !all_digits(d) || digits_value(d) > u16::MAX {
        None
    } else {
        Some(digits_value(d) as u16)
    }
}

/// The height that one settings line sets, if it is a height line whose
/// value lies within the allowed range.
pub open spec fn line_height(line: Seq<char>) -> Option<u16> {
    if line.len() >= 7 && line.take(7) == height_prefix() {
        match parse_u16(line.skip(7)) {
            Some(v) => if MIN_HEIGHT <= v && v <= MAX_HEIGHT {
                Some(v)
            } else {
                None
            },
            None => None,
        }
    } else {
        None
    }
}

/// The height that settings lines leave: that of the last valid height
/// line, or the default when there is none.
pub open spec fn height_from_lines(lines: Seq<Seq<char>>) -> u16
    decreases lines.len(),
{
    if lines.len() == 0 {
        DEFAULT_HEIGHT
    } else {
        match line_height(lines.last()) {
            Some(v) => v,
            None => height_from_lines(lines.drop_last()),
        }
    }
}

/// The digit character for `d`.
pub open spec fn digit_char(d: nat) -> char {
    seq!['0', '1', '2', '3', '4', '5', '6', '7', '8', '9'][d as int]
}

/// The decimal digits of `n`, without leading zeros.
pub open spec fn decimal_digits(n: nat) -> Seq<char>
    decreases n,
{
    if n < 10 {
        seq![digit_char(n)]
    } else {
        decimal_digits(n / 10).push(digit_char(n % 10))
    }
}

/// The settings text that stores `height`.
pub open spec fn config_source(height: u16) -> Seq<char> {
    height_prefix() + decimal_digits(height as nat) + seq!['\n']
}

/// User settings.
#[derive(Clone, Copy, Debug, PartialEq, Eq, Structural)]
pub struct Config {
    /// The minimum number of text rows of each memo.
    pub default_height: u16,
}

impl Default for Config {
    fn default() -> (config: Self)
        ensures
            config.default_height == DEFAULT_HEIGHT,
    {
        Self { default_height: DEFAULT_HEIGHT }
    }
}

impl Config {
    /// Reads settings text. Every line `height:N` with `N` a number from
    /// the allowed range sets the height; the last one wins, and without
    /// one the height is the default. Other lines are ignored.
    pub fn parse(source: &str) -> (config: Self)
        ensures
            config.default_height == height_from_lines(text_lines(source@)),
            MIN_HEIGHT <= config.default_height <= MAX_HEIGHT,
    {
        proof {
            lemma_height_in_range(text_lines(source@));
        }
        let chars = chars_of(source);
        let lines = lines_of(&chars);
        let mut config = Self::default();
        let mut k: usize = 0;
        while k < lines.len()
            invariant
                k <= lines.len(),
                config.default_height == height_from_lines(lines.deep_view().take(k as int)),
            decreases lines.len() - k,
        {
            assert(lines.deep_view()[k as int] =~= lines[k as int]@);
            assert(lines.deep_view().take(k + 1).drop_last() == lines.deep_view().take(k as int));
            match height_of_line(&lines[k]) {
                Some(value) => {
                    config.default_height = value;
                },
                None => {},
            }
            k += 1;
        }
        assert(lines.deep_view().take(lines.len() as int) == lines.deep_view());
        config
    }

    /// The settings text that stores this configuration.
    pub fn serialize(&self) -> (text: String)
        ensures
            text@ == config_source(self.default_height),
    {
        let mut out = vec!['h', 'e', 'i', 'g', 'h', 't', ':'];
        assert(out@ =~= height_prefix());
        push_decimal(&mut out, self.default_height);
        out.push('\n');
        string_of(&out)
    }
}

/// The height that one settings line sets, if any.
fn height_of_line(line: &Vec<char>) -> (height: Option<u16>)
    ensures
        height == line_height(line@),
{
    if line.len() < 7 || line[0] != 'h' || line[1] != 'e' || line[2] != 'i' || line[3] != 'g'
        || line[4] != 'h' || line[5] != 't' || line[6] != ':' {
        if line.len() >= 7 {
            assert(line@.take(7) != height_prefix()) by {
                if line@.take(7) == height_prefix() {
                    assert(line@.take(7)[0] == line@[0]);
                }
            }
        }
        return None;
    }
    assert(line@.take(7) =~= height_prefix());
    match parse_u16_at(line, 7) {
        Some(value) => if MIN_HEIGHT <= value && value <= MAX_HEIGHT {
            Some(value)
        } else {
            None
        },
        None => None,
    }
}

/// The value of decimal digits grows, or stays, as digits are added.
proof fn lemma_digits_value_prefix(d: Seq<char>, m: int)
    requires
        0 <= m <= d.len(),
        all_digits(d),
    ensures
        digits_value(d.take(m)) <= digits_value(d),
    decreases d.len() - m,
{
    if m < d.len() {
        lemma_digits_value_prefix(d, m + 1);
        let t = d.take(m + 1);
        assert(t.drop_last() == d.take(m));
        assert(is_digit(d[m]));
        assert(t.last() == d[m]);
    } else {
        assert(d.take(m) == d);
    }
}

/// What `str::parse::<u16>` gives for the characters of `chars` from
/// `start` on.
fn parse_u16_at(chars: &Vec<char>, start: usize) -> (value: Option<u16>)
    requires
        start <= chars.len(),
    ensures
        value == parse_u16(chars@.skip(start as int)),
{
    let ghost s = chars@.skip(start as int);
    let begin: usize = if start < chars.len() && chars[start] == '+' {
        start + 1
    } else {
        start
    };
    let ghost d = chars@.subrange(begin as int, chars.len() as int);
    assert(d == unsigned_part(s));
    if begin == chars.len() {
        return None;
    }
    let mut acc: u32 = 0;
    let mut j: usize = begin;
    while j < chars.len()
        invariant
            begin <= j <= chars.len(),
            begin < chars.len(),
            s == chars@.skip(start as int),
            d == chars@.subrange(begin as int, chars.len() as int),
            d == unsigned_part(s),
            acc as nat == digits_value(d.take(j - begin)),
            acc <= 65535,
            forall|i: int| 0 <= i < j - begin ==> is_digit(#[trigger] d[i]),
        decreases chars.len() - j,
    {
        let c = chars[j];
        assert(d[j - begin] == c);
        if !('0' <= c && c <= '9') {
            assert(!is_digit(d[j - begin]));
            return None;
        }
        let digit = (c as u32) - ('0' as u32);
        assert(d.take(j + 1 - begin).drop_last() == d.take(j - begin));
        assert(d.take(j + 1 - begin).last() == c);
        let next = acc * 10 + digit;
        if next > 65535 {
            proof {
                if all_digits(d) {
                    lemma_digits_value_prefix(d, j + 1 - begin);
                }
            }
            return None;
        }
        acc = next;
        j += 1;
    }
    assert(d.take(chars.len() - begin) == d);
    Some(acc as u16)
}

/// The digit character for `d`.
fn digit_char_of(d: u16) -> (c: char)
    requires
        d < 10,
    ensures
        c == digit_char(d as nat),
{
    let digits = ['0', '1', '2', '3', '4', '5', '6', '7', '8', '9'];
    assert(digits@ == seq!['0', '1', '2', '3', '4', '5', '6', '7', '8', '9']);
    digits[d as usize]
}

/// Appends the decimal digits of `n` to `out`.
fn push_decimal(out: &mut Vec<char>, n: u16)
    ensures
        final(out)@ == old(out)@ + decimal_digits(n as nat),
    decreases n,
{
    if n < 10 {
        out.push(digit_char_of(n));
    } else {
        push_decimal(out, n / 10);
        out.push(digit_char_of(n % 10));
        assert(old(out)@ + decimal_digits((n / 10) as nat) + seq![digit_char((n % 10) as nat)]
            == old(out)@ + decimal_digits(n as nat));
    }
}

/// Settings lines always leave a height within the allowed range.
pub proof fn lemma_height_in_range(lines: Seq<Seq<char>>)
    ensures
        MIN_HEIGHT <= height_from_lines(lines) <= MAX_HEIGHT,
    decreases lines.len(),
{
    if lines.len() > 0 {
        lemma_height_in_range(lines.drop_last());
    }
}

/// The digits of a number are digits, write that number, and do not
/// begin with a plus sign.
proof fn lemma_decimal_digits(n: nat)
    ensures
        decimal_digits(n).len() >= 1,
        all_digits(decimal_digits(n)),
        digits_value(decimal_digits(n)) == n,
        decimal_digits(n)[0] != '+',
        no_newline(decimal_digits(n)),
        decimal_digits(n).last() != '\r',
    decreases n,
{
    let digits = seq!['0', '1', '2', '3', '4', '5', '6', '7', '8', '9'];
    assert(forall|d: int| 0 <= d < 10 ==> is_digit(#[trigger] digits[d]) && digits[d] as nat - '0' as nat == d) by {
        assert(digits[0] == '0' && digits[1] == '1' && digits[2] == '2' && digits[3] == '3');
        assert(digits[4] == '4' && digits[5] == '5' && digits[6] == '6' && digits[7] == '7');
        assert(digits[8] == '8' && digits[9] == '9');
    }
    let s = decimal_digits(n);
    if n < 10 {
        assert(s == seq![digits[n as int]]);
        assert(s.drop_last() == Seq::<char>::empty());
        assert(is_digit(digits[n as int]));
        assert(s.last() == digits[n as int]);
        assert(digits_value(s) == digits_value(s.drop_last()) * 10 + (s.last() as nat - '0' as nat) as nat);
    } else {
        lemma_decimal_digits(n / 10);
        let p = decimal_digits(n / 10);
        let d = n % 10;
        assert(s == p.push(digits[d as int]));
        assert(s.drop_last() == p);
        assert(n == (n / 10) * 10 + d);
        assert(is_digit(digits[d as int]));
        assert(s.last() == digits[d as int]);
        assert(digits_value(s) == digits_value(p) * 10 + (s.last() as nat - '0' as nat) as nat);
        assert forall|i: int| 0 <= i < s.len() implies is_digit(#[trigger] s[i]) by {
            if i < p.len() {
                assert(s[i] == p[i]);
            }
        }
        assert forall|i: int| 0 <= i < s.len() implies s[i] != '\n' by {
            assert(is_digit(s[i]));
        }
        assert(s[0] == p[0]);
    }
    assert forall|i: int| 0 <= i < s.len() implies s[i] != '\n' by {
        assert(is_digit(s[i]));
    }
}

/// Law: settings that are written read back the same. For a height in the
/// allowed range, reading the text that `Config::serialize` writes gives
/// that height again.
pub proof fn lemma_parse_serialize_config(height: u16)
    requires
        MIN_HEIGHT <= height <= MAX_HEIGHT,
    ensures
        height_from_lines(text_lines(config_source(height))) == height,
{
    let digits = decimal_digits(height as nat);
    lemma_decimal_digits(height as nat);
    let line = height_prefix() + digits;
    let s = config_source(height);
    assert(s == line.push('\n'));
    assert(no_newline(line)) by {
        assert forall|i: int| 0 <= i < line.len() implies line[i] != '\n' by {
            if i >= 7 {
                assert(line[i] == digits[i - 7]);
            }
        }
    }
    lemma_split_append_line(Seq::<char>::empty(), line);
    assert(Seq::<char>::empty() + line == line);
    assert(split_lines(line) == seq![line]);
    assert(s.drop_last() == line);
    let pieces = split_lines(s);
    assert(pieces == seq![line].push(Seq::<char>::empty()));
    assert(pieces.drop_last() == seq![line]);
    assert(line.last() == digits.last());
    assert(strip_carriage_return(line) == line);
    assert(text_lines(s) == seq![line]);
    assert(seq![line].drop_last() == Seq::<Seq<char>>::empty());
    assert(line.take(7) == height_prefix());
    assert(line.skip(7) == digits);
    assert(unsigned_part(digits) == digits);
}

} // verus!
