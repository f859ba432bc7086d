//! Turning raw text into the lines the layout works on: characters outside
//! the font are replaced by their plain look-alikes, then the text is cut
//! into lines, and each line is trimmed and put in lower case.

use vstd::prelude::*;
use crate::layout::text_of;

verus! {

/// The plain character that stands in for `c`: typographic punctuation
/// becomes its typewriter form, a letter with a diacritic its base letter,
/// and an asterisk the NUL character, which no font draws. Every other
/// character stands for itself.
pub open spec fn substituted(c: char) -> char {
    match c {
        '\u{2026}' => '.',
        ';' => ',',
        '\u{ab}' => '"',
        '\u{bb}' => '"',
        '\u{2014}' => '-',
        '\u{e0}' => 'a',
        '\u{119}' => 'e',
        '\u{e6}' => 'a',
        '\u{e9}' => 'e',
        '\u{f3}' => 'o',
        '\u{142}' => 'l',
        '\u{15b}' => 's',
        '\u{105}' => 'a',
        '\u{17c}' => 'z',
        '\u{17a}' => 'z',
        '\u{107}' => 'c',
        '\u{144}' => 'n',
        '*' => '\0',
        _ => c,
    }
}

/// The lines of a text, as `str::lines` cuts them.
pub uninterp spec fn lines_of(text: Seq<char>) -> Seq<Seq<char>>;

/// A line without its leading and trailing white space, as `str::trim`
/// leaves it.
pub uninterp spec fn trimmed(line: Seq<char>) -> Seq<char>;

/// A line in lower case, as `str::to_lowercase` gives it.
pub uninterp spec fn lowercased(line: Seq<char>) -> Seq<char>;

/// The lines that are laid out for the raw text `contents`.
pub open spec fn normalized(contents: Seq<char>) -> Seq<Seq<char>> {
    let plain = Seq::new(contents.len(), |i: int| substituted(contents[i]));
    let lines = lines_of(plain);
    Seq::new(lines.len(), |i: int| lowercased(trimmed(lines[i])))
}

/// `Iterator::collect` into a `String`: the string made of the given
/// characters, in order.
#[verifier::external_body]
fn string_from_chars(chars: &Vec<char>) -> (text: String)
    ensures
        text@ == chars@,
{
    chars.iter().collect()
}

/// `str::lines`: the lines of `text`, each as a string of its own.
#[verifier::external_body]
fn split_lines(text: &str) -> (lines: Vec<String>)
    ensures
        text_of(lines@) == lines_of(text@),
{
    text.lines().map(String::from).collect()
}

/// `str::trim`: `line` without leading and trailing white space.
#[verifier::external_body]
fn trim_line(line: &str) -> (inner: &str)
    ensures
        inner@ == trimmed(line@),
{
    line.trim()
}

/// `str::to_lowercase`: `line` in lower case.
#[verifier::external_body]
fn lowercase_line(line: &str) -> (lower: String)
    ensures
        lower@ == lowercased(line@),
{
    line.to_lowercase()
}

/// The plain character that stands in for `c`.
pub fn substitute(c: char) -> (plain: char)
    ensures
        plain == substituted(c),
{
    match c {
        '\u{2026}' => '.',
        ';' => ',',
        '\u{ab}' => '"',
        '\u{bb}' => '"',
        '\u{2014}' => '-',
        '\u{e0}' => 'a',
        '\u{119}' => 'e',
        '\u{e6}' => 'a',
        '\u{e9}' => 'e',
        '\u{f3}' => 'o',
        '\u{142}' => 'l',
        '\u{15b}' => 's',
        '\u{105}' => 'a',
        '\u{17c}' => 'z',
        '\u{17a}' => 'z',
        '\u{107}' => 'c',
        '\u{144}' => 'n',
        '*' => '\0',
        _ => c,
    }
}

/// Replaces every character of `contents` by its stand-in.
pub fn substitute_all(contents: &str) -> (plain: String)
    ensures
        plain@ == Seq::new(contents@.len(), |i: int| substituted(contents@[i])),
{
    broadcast use vstd::string::group_string_axioms;

    let mut chars: Vec<char> = Vec::new();
    for c in it: contents.chars()
        invariant
            it.seq() == contents@,
            chars@.len() == it.index(),
            forall|j: int| 0 <= j < it.index() ==> #[trigger] chars@[j] == substituted(contents@[j]),
    {
        chars.push(substitute(c));
    }
    let plain = string_from_chars(&chars);
    assert(plain@ =~= Seq::new(contents@.len(), |i: int| substituted(contents@[i])));
    plain
}

/// The lines that are laid out for the raw text `contents`.
pub fn normalize(contents: &str) -> (lines: Vec<String>)
    ensures
        text_of(lines@) == normalized(contents@),
{
    let plain = substitute_all(contents);
    let raw = split_lines(plain.as_str());
    let ghost cut = lines_of(plain@);
    let mut lines: Vec<String> = Vec::new();
    let mut k: usize = 0;
    while k < raw.len()
        invariant
            k <= raw.len(),
            text_of(raw@) == cut,
            lines@.len() == k,
            forall|j: int| 0 <= j < k ==> (#[trigger] lines@[j])@ == lowercased(trimmed(cut[j])),
        decreases raw.len() - k,
    {
        assert(text_of(raw@)[k as int] == raw@[k as int]@);
        let line = lowercase_line(trim_line(raw[k].as_str()));
        lines.push(line);
        k += 1;
    }
    assert(text_of(raw@).len() == raw@.len());
    assert(text_of(lines@) =~= normalized(contents@));
    lines
}

} // verus!
