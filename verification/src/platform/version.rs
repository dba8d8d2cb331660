//! Reading what a program says of its version.

use crate::path;
use crate::path::FsPath;
use crate::text::chars;
use crate::text::chars::{chars_of, is_decimal_digit, text_of_range};
use crate::text::number;
use crate::text::number::parse_u32;
use crate::text::search;
use crate::text::search::{cut_once, find, is_blank, trimmed, trimmed_start};
use crate::text::split;
use crate::text::split::lines_of;
use vstd::prelude::*;

verus! {

// ---------------------------------------------------------------------------------------------
// How a command ended

/// The three ways a command can end. A program that does not answer in time is there; only one
/// that cannot be started is not.
pub enum Ran {
    Out(String),
    Timeout,
    Failed,
}

/// What a finished command said: what it wrote to its output, or to its error output where
/// that is blank. A failure without a word is a failure.
pub open spec fn said(stdout: Seq<u8>, stderr: Seq<u8>) -> Seq<char> {
    let out = path::lossy_text(stdout);
    if search::trim(out).len() == 0 {
        path::lossy_text(stderr)
    } else {
        out
    }
}

pub fn finished(stdout: Vec<u8>, stderr: Vec<u8>, success: bool) -> (ran: Ran)
    ensures
        match ran {
            Ran::Out(text) => text@ == said(stdout@, stderr@) && (success || search::trim(
                text@,
            ).len() > 0),
            Ran::Timeout => false,
            Ran::Failed => !success && search::trim(said(stdout@, stderr@)).len() == 0,
        },
{
    let mut text = FsPath { raw: stdout }.text();
    if is_blank(text.as_str()) {
        text = FsPath { raw: stderr }.text();
    }
    if success || !is_blank(text.as_str()) {
        Ran::Out(text)
    } else {
        Ran::Failed
    }
}

// ---------------------------------------------------------------------------------------------
// Colours

/// Where in a terminal's colour code a text is.
#[derive(Clone, Copy, PartialEq, Eq, Structural)]
pub enum Mode {
    Text,
    Escape,
    Code,
}

/// What follows a character: an escape character starts a code, a bracket behind it goes on
/// with the code, and an ASCII letter ends it.
pub open spec fn next_mode(mode: Mode, c: char) -> Mode {
    match mode {
        Mode::Text => if c == '\u{1b}' {
            Mode::Escape
        } else {
            Mode::Text
        },
        Mode::Escape => if c == '[' {
            Mode::Code
        } else {
            Mode::Text
        },
        Mode::Code => if chars::is_ascii_letter(c) {
            Mode::Text
        } else {
            Mode::Code
        },
    }
}

pub open spec fn mode_after(s: Seq<char>) -> Mode
    decreases s.len(),
{
    if s.len() == 0 {
        Mode::Text
    } else {
        next_mode(mode_after(s.drop_last()), s.last())
    }
}

/// A text without its colour codes.
pub open spec fn plain_text(s: Seq<char>) -> Seq<char>
    decreases s.len(),
{
    if s.len() == 0 {
        Seq::empty()
    } else {
        let before = plain_text(s.drop_last());
        if mode_after(s.drop_last()) == Mode::Text && s.last() != '\u{1b}' {
            before.push(s.last())
        } else {
            before
        }
    }
}

pub fn strip_ansi(text: &str) -> (out: String)
    ensures
        out@ == plain_text(text@),
{
    let list = chars_of(text);
    let mut out = String::new();
    let mut mode = Mode::Text;
    let mut i: usize = 0;
    while i < list.len()
        invariant
            i <= list@.len(),
            list@ == text@,
            mode == mode_after(text@.take(i as int)),
            out@ == plain_text(text@.take(i as int)),
        decreases list@.len() - i,
    {
        let c = list[i];
        assert(text@.take(i + 1).drop_last() =~= text@.take(i as int));
        mode = match mode {
            Mode::Text => if c == '\u{1b}' {
                Mode::Escape
            } else {
                out.push(c);
                Mode::Text
            },
            Mode::Escape => if c == '[' {
                Mode::Code
            } else {
                Mode::Text
            },
            Mode::Code => if ('a' <= c && c <= 'z') || ('A' <= c && c <= 'Z') {
                Mode::Text
            } else {
                Mode::Code
            },
        };
        i += 1;
    }
    assert(text@.take(i as int) =~= text@);
    out
}

// ---------------------------------------------------------------------------------------------
// Log decoration

/// A line without the groups in square brackets at its start.
pub open spec fn without_groups(s: Seq<char>) -> Seq<char>
    decreases s.len(),
{
    if s.len() > 0 && s[0] == '[' {
        match search::first_at(s, seq![']'], 0) {
            Some(end) => if 0 <= end < s.len() {
                proof {
                    search::trim_start_shortens(s.skip(end + 1));
                }
                without_groups(search::trim_start(s.skip(end + 1)))
            } else {
                s
            },
            None => s,
        }
    } else {
        s
    }
}

/// A short label in lower case, such as programs put before their log lines.
pub open spec fn is_label(s: Seq<char>) -> bool {
    &&& 0 < s.len() <= 12
    &&& forall|i: int| 0 <= i < s.len() ==> ('a' <= #[trigger] s[i] && s[i] <= 'z') || s[i] == '_'
}

/// A line without its log decoration.
pub open spec fn undecorated(line: Seq<char>) -> Seq<char> {
    let rest = without_groups(search::trim_start(line));
    match search::split_once(rest, ":"@) {
        Some((label, tail)) => if is_label(label) {
            search::trim_start(tail)
        } else {
            rest
        },
        None => rest,
    }
}

fn drop_groups(text: String) -> (out: String)
    ensures
        out@ == without_groups(text@),
{
    let mut rest = text;
    loop
        invariant
            without_groups(rest@) == without_groups(text@),
        ensures
            rest@ == without_groups(text@),
        decreases rest@.len(),
    {
        let list = chars_of(rest.as_str());
        if list.len() == 0 || list[0] != '[' {
            break;
        }
        let close: Vec<char> = vec![']'];
        assert(close@ =~= seq![']']);
        match find(list.as_slice(), close.as_slice()) {
            Some(end) => {
                proof {
                    search::first_at_is_first(rest@, seq![']'], 0);
                    search::trim_start_shortens(rest@.skip(end + 1));
                    assert(rest@.skip(end + 1) =~= rest@.subrange(end + 1, rest@.len() as int));
                }
                let total: usize = list.len();
                let behind = text_of_range(list.as_slice(), end + 1, total);
                rest = trimmed_start(behind.as_str());
            },
            None => {
                break;
            },
        }
    }
    rest
}

fn label(text: &str) -> (yes: bool)
    ensures
        yes == is_label(text@),
{
    let list = chars_of(text);
    if list.len() == 0 || list.len() > 12 {
        return false;
    }
    let mut i: usize = 0;
    while i < list.len()
        invariant
            i <= list@.len(),
            list@ == text@,
            forall|k: int|
                0 <= k < i ==> ('a' <= #[trigger] text@[k] && text@[k] <= 'z') || text@[k] == '_',
        decreases list@.len() - i,
    {
        let c = list[i];
        if !(('a' <= c && c <= 'z') || c == '_') {
            assert(text@[i as int] == c);
            return false;
        }
        i += 1;
    }
    true
}

pub fn strip_log_prefix(line: &str) -> (out: String)
    ensures
        out@ == undecorated(line@),
{
    let rest = drop_groups(trimmed_start(line));
    match cut_once(rest.as_str(), ":") {
        Some((before, tail)) => if label(before.as_str()) {
            trimmed_start(tail.as_str())
        } else {
            rest
        },
        None => rest,
    }
}

// ---------------------------------------------------------------------------------------------
// The first line

/// The first line that is not blank, without white space at its ends.
pub open spec fn first_words(lines: Seq<Seq<char>>, fallback: Seq<char>) -> Seq<char>
    decreases lines.len(),
{
    if lines.len() == 0 {
        fallback
    } else if search::trim(lines[0]).len() > 0 {
        search::trim(lines[0])
    } else {
        first_words(lines.skip(1), fallback)
    }
}

/// What fits into one line for the user: the first line that is not blank, without colours and
/// log decoration, and no more than 120 characters of it.
pub open spec fn short_line(text: Seq<char>, fallback: Seq<char>) -> Seq<char> {
    let line = undecorated(first_words(split::lines(plain_text(text)), fallback));
    if line.len() <= 120 {
        line
    } else {
        line.take(120)
    }
}

fn first_of(lines: &Vec<String>, fallback: &str) -> (out: String)
    ensures
        out@ == first_words(chars::texts(lines@), fallback@),
{
    let ghost all = chars::texts(lines@);
    let mut i: usize = 0;
    assert(all.skip(0) =~= all);
    while i < lines.len()
        invariant
            i <= lines@.len(),
            all == chars::texts(lines@),
            first_words(all, fallback@) == first_words(all.skip(i as int), fallback@),
        decreases lines@.len() - i,
    {
        let line = trimmed(lines[i].as_str());
        assert(all.skip(i as int)[0] == lines@[i as int]@);
        if !line.as_str().is_empty() {
            return line;
        }
        assert(all.skip(i as int).skip(1) =~= all.skip(i + 1));
        i += 1;
    }
    fallback.to_owned()
}

pub fn first_line(text: &str, fallback: &str) -> (out: String)
    ensures
        out@ == short_line(text@, fallback@),
{
    let lines = lines_of(strip_ansi(text).as_str());
    let line = strip_log_prefix(first_of(&lines, fallback).as_str());
    let list = chars_of(line.as_str());
    if list.len() <= 120 {
        line
    } else {
        assert(line@.take(120) =~= line@.subrange(0, 120));
        text_of_range(list.as_slice(), 0, 120)
    }
}

// ---------------------------------------------------------------------------------------------
// Version numbers

/// Where the digits that start at `i` end.
pub open spec fn digits_end(s: Seq<char>, i: int) -> int
    decreases s.len() - i,
{
    if 0 <= i < s.len() && chars::is_digit(s[i]) {
        digits_end(s, i + 1)
    } else {
        i
    }
}

/// A run of digits does not end before it starts, nor beyond the text.
pub proof fn digits_end_is_behind(s: Seq<char>, i: int)
    requires
        0 <= i <= s.len(),
    ensures
        i <= digits_end(s, i) <= s.len(),
        i < s.len() && chars::is_digit(s[i]) ==> i < digits_end(s, i),
    decreases s.len() - i,
{
    if i < s.len() && chars::is_digit(s[i]) {
        digits_end_is_behind(s, i + 1);
    }
}

/// The first `major.minor` from position `i` on. A number that is too large for a version ends
/// the search.
pub open spec fn version_from(s: Seq<char>, i: int) -> Option<(nat, nat)>
    decreases s.len() - i,
{
    if i < 0 || i >= s.len() {
        None
    } else if !chars::is_digit(s[i]) {
        version_from(s, i + 1)
    } else {
        proof {
            digits_end_is_behind(s, i);
        }
        let dot = digits_end(s, i);
        if dot >= s.len() || s[dot] != '.' {
            version_from(s, dot)
        } else {
            proof {
                digits_end_is_behind(s, dot + 1);
            }
            let end = digits_end(s, dot + 1);
            match number::parse_at_most(s.subrange(i, dot), u32::MAX as nat) {
                None => None,
                Some(major) => if end == dot + 1 {
                    version_from(s, end)
                } else {
                    match number::parse_at_most(s.subrange(dot + 1, end), u32::MAX as nat) {
                        None => None,
                        Some(minor) => Some((major, minor)),
                    }
                },
            }
        }
    }
}

fn skip_digits(list: &Vec<char>, from: usize) -> (end: usize)
    requires
        from <= list@.len(),
    ensures
        end == digits_end(list@, from as int),
        from <= end <= list@.len(),
{
    let mut i: usize = from;
    while i < list.len() && is_decimal_digit(list[i])
        invariant
            from <= i <= list@.len(),
            digits_end(list@, from as int) == digits_end(list@, i as int),
        decreases list@.len() - i,
    {
        i += 1;
    }
    i
}

/// The first `major.minor` in a text; nothing where it holds no version that can be told.
pub fn gamescope_version(text: &str) -> (version: Option<(u32, u32)>)
    ensures
        match version {
            Some((major, minor)) => version_from(text@, 0) == Some((major as nat, minor as nat)),
            None => version_from(text@, 0) is None,
        },
{
    let list = chars_of(text);
    let mut i: usize = 0;
    while i < list.len()
        invariant
            i <= list@.len(),
            list@ == text@,
            version_from(text@, 0) == version_from(text@, i as int),
        decreases list@.len() - i,
    {
        if !is_decimal_digit(list[i]) {
            i += 1;
            continue;
        }
        proof {
            digits_end_is_behind(text@, i as int);
        }
        let dot = skip_digits(&list, i);
        if dot >= list.len() || list[dot] != '.' {
            i = dot;
            continue;
        }
        let end = skip_digits(&list, dot + 1);
        let major = match parse_u32(text_of_range(list.as_slice(), i, dot).as_str()) {
            Some(major) => major,
            None => {
                return None;
            },
        };
        if end == dot + 1 {
            i = end;
            continue;
        }
        return match parse_u32(text_of_range(list.as_slice(), dot + 1, end).as_str()) {
            Some(minor) => Some((major, minor)),
            None => None,
        };
    }
    None
}

// ---------------------------------------------------------------------------------------------
// What holds of the lines

/// A line for the user never has more than 120 characters.
pub proof fn a_version_line_is_short(text: Seq<char>, fallback: Seq<char>)
    ensures
        short_line(text, fallback).len() <= 120,
{
}

/// A text without escape characters has no colours to lose.
pub proof fn a_plain_text_stays(s: Seq<char>)
    requires
        forall|i: int| 0 <= i < s.len() ==> #[trigger] s[i] != '\u{1b}',
    ensures
        plain_text(s) == s,
        mode_after(s) == Mode::Text,
    decreases s.len(),
{
    if s.len() > 0 {
        assert(s.last() == s[s.len() - 1]);
        a_plain_text_stays(s.drop_last());
        assert(s.drop_last().push(s.last()) =~= s);
    } else {
        assert(plain_text(s) =~= s);
    }
}

proof fn lemma_no_digits(s: Seq<char>, i: int, k: int)
    requires
        0 <= i <= k <= s.len(),
        forall|j: int| i <= j < k ==> !chars::is_digit(#[trigger] s[j]),
    ensures
        version_from(s, i) == version_from(s, k),
    decreases k - i,
{
    if i < k {
        assert(!chars::is_digit(s[i]));
        lemma_no_digits(s, i + 1, k);
    }
}

proof fn lemma_digits_end(s: Seq<char>, i: int, k: int)
    requires
        0 <= i <= k <= s.len(),
        forall|j: int| i <= j < k ==> chars::is_digit(#[trigger] s[j]),
        k == s.len() || !chars::is_digit(s[k]),
    ensures
        digits_end(s, i) == k,
    decreases k - i,
{
    if i < k {
        assert(chars::is_digit(s[i]));
        lemma_digits_end(s, i + 1, k);
    }
}

/// A version that is written as two numbers with a dot between is read back, whatever words stand
/// around it.
pub proof fn a_written_version_is_read_back(
    before: Seq<char>,
    major: u32,
    minor: u32,
    after: Seq<char>,
)
    requires
        forall|i: int| 0 <= i < before.len() ==> !chars::is_digit(#[trigger] before[i]),
        after.len() > 0 ==> !chars::is_digit(after[0]),
    ensures
        version_from(
            before + number::decimal(major as nat).push('.') + number::decimal(minor as nat) + after,
            0,
        ) == Some((major as nat, minor as nat)),
        version_from(before, 0) is None,
{
    let (a, b) = (number::decimal(major as nat), number::decimal(minor as nat));
    number::a_written_number_is_read_back(major as nat, u32::MAX as nat);
    number::a_written_number_is_read_back(minor as nat, u32::MAX as nat);
    let s = before + a.push('.') + b + after;
    let i = before.len() as int;
    let dot = i + a.len();
    let end = dot + 1 + b.len();
    assert forall|j: int| 0 <= j < i implies !chars::is_digit(#[trigger] s[j]) by {
        assert(s[j] == before[j]);
    }
    assert forall|j: int| i <= j < dot implies chars::is_digit(#[trigger] s[j]) by {
        assert(s[j] == a[j - i]);
    }
    assert(s[dot] == '.');
    assert forall|j: int| dot + 1 <= j < end implies chars::is_digit(#[trigger] s[j]) by {
        assert(s[j] == b[j - dot - 1]);
    }
    if after.len() > 0 {
        assert(s[end] == after[0]);
    }
    lemma_no_digits(s, 0, i);
    lemma_digits_end(s, i, dot);
    lemma_digits_end(s, dot + 1, end);
    assert(s[i] == a[0]);
    assert(s.subrange(i, dot) =~= a);
    assert(s.subrange(dot + 1, end) =~= b);
    lemma_no_digits(before, 0, before.len() as int);
}

proof fn lemma_plain_behind(front: Seq<char>, back: Seq<char>)
    requires
        mode_after(front) == Mode::Text,
        forall|i: int| 0 <= i < back.len() ==> #[trigger] back[i] != '\u{1b}',
    ensures
        plain_text(front + back) == plain_text(front) + back,
        mode_after(front + back) == Mode::Text,
    decreases back.len(),
{
    if back.len() > 0 {
        let less = back.drop_last();
        assert((front + back).drop_last() =~= front + less);
        assert forall|i: int| 0 <= i < less.len() implies #[trigger] less[i] != '\u{1b}' by {
            assert(less[i] == back[i]);
        }
        lemma_plain_behind(front, less);
        assert(back[back.len() - 1] != '\u{1b}');
        assert((plain_text(front) + less).push(back.last()) =~= plain_text(front) + back);
    } else {
        assert(front + back =~= front);
        assert(plain_text(front) + back =~= plain_text(front));
    }
}

proof fn lemma_inside_code(front: Seq<char>, code: Seq<char>)
    requires
        mode_after(front) == Mode::Code,
        forall|i: int| 0 <= i < code.len() ==> !chars::is_ascii_letter(#[trigger] code[i]),
    ensures
        plain_text(front + code) == plain_text(front),
        mode_after(front + code) == Mode::Code,
    decreases code.len(),
{
    if code.len() > 0 {
        let less = code.drop_last();
        assert((front + code).drop_last() =~= front + less);
        assert forall|i: int| 0 <= i < less.len() implies !chars::is_ascii_letter(
            #[trigger] less[i],
        ) by {
            assert(less[i] == code[i]);
        }
        lemma_inside_code(front, less);
        assert(!chars::is_ascii_letter(code[code.len() - 1]));
    } else {
        assert(front + code =~= front);
    }
}

/// A colour code leaves no trace: it starts with the escape character and a bracket, and ends with
/// a letter. What stands before it and behind it stays.
pub proof fn a_colour_code_leaves_no_trace(
    before: Seq<char>,
    code: Seq<char>,
    letter: char,
    after: Seq<char>,
)
    requires
        forall|i: int| 0 <= i < before.len() ==> #[trigger] before[i] != '\u{1b}',
        forall|i: int| 0 <= i < code.len() ==> !chars::is_ascii_letter(#[trigger] code[i]),
        chars::is_ascii_letter(letter),
        forall|i: int| 0 <= i < after.len() ==> #[trigger] after[i] != '\u{1b}',
    ensures
        plain_text(before + seq!['\u{1b}', '['] + code + seq![letter] + after) == before + after,
{
    a_plain_text_stays(before);
    let one = before.push('\u{1b}');
    assert(one.drop_last() =~= before);
    let two = one.push('[');
    assert(two.drop_last() =~= one);
    assert(one.last() == '\u{1b}' && two.last() == '[');
    assert(mode_after(one) == Mode::Escape && plain_text(one) == before);
    assert(mode_after(two) == Mode::Code && plain_text(two) == before);
    assert(two =~= before + seq!['\u{1b}', '[']);
    lemma_inside_code(two, code);
    let three = (two + code).push(letter);
    assert(three.drop_last() =~= two + code);
    assert(three =~= two + code + seq![letter]);
    lemma_plain_behind(three, after);
}

/// A line of its own, without colours and decoration, is told as it is, up to 120 characters. Where
/// there is no line at all the fallback is told.
pub proof fn a_plain_line_is_told_as_it_is(line: Seq<char>, fallback: Seq<char>)
    requires
        line.len() > 0,
        search::trim(line) == line,
        line[0] != '[',
        !line.contains('\n'),
        !line.contains('\u{1b}'),
        !search::contains(line, ":"@),
    ensures
        line.len() <= 120 ==> short_line(line, fallback) == line,
        line.len() > 120 ==> short_line(line, fallback) == line.take(120),
        short_line(Seq::empty(), line) == short_line(line, fallback),
{
    assert forall|i: int| 0 <= i < line.len() implies #[trigger] line[i] != '\u{1b}' by {}
    a_plain_text_stays(line);
    split::one_piece_is_itself(line, seq!['\n']);
    split::joined_pieces_come_apart(seq![line], '\n');
    assert(split::split(line, '\n') =~= seq![line]);
    let none = Seq::<Seq<char>>::empty();
    assert(seq![line].drop_last() =~= none);
    assert(none.map_values(|line: Seq<char>| split::without_carriage_return(line)) =~= none);
    assert(split::lines(line) =~= seq![line]);
    assert(first_words(seq![line], fallback) == line);
    search::trimming_takes_the_white_space_away(line);
    assert(search::trim_start(line) == line);
    lemma_nothing_to_cut(line);
    let empty = Seq::<char>::empty();
    assert(plain_text(empty) =~= empty);
    assert(split::split(empty, '\n') =~= seq![empty]);
    assert(seq![empty].drop_last() =~= none);
    assert(split::lines(empty) =~= none);
}

/// A program that writes nothing to its output is heard by its error output.
pub proof fn the_error_output_speaks_for_a_silent_program(out: Seq<u8>, errors: Seq<u8>)
    ensures
        search::trim(path::lossy_text(out)).len() == 0 ==> said(out, errors) == path::lossy_text(
            errors,
        ),
        search::trim(path::lossy_text(out)).len() > 0 ==> said(out, errors) == path::lossy_text(out),
{
}

proof fn lemma_label(label: Seq<char>, line: Seq<char>)
    requires
        0 < label.len() <= 12,
        forall|i: int| 0 <= i < label.len() ==> 'a' <= #[trigger] label[i] <= 'z',
    ensures
        search::split_once(label + ": "@ + line, ":"@) == Some((label, seq![' '] + line)),
{
    reveal_strlit(": ");
    reveal_strlit(":");
    let s = label + ": "@ + line;
    let at = label.len() as int;
    search::first_at_is_first(s, ":"@, 0);
    assert(s.subrange(at, at + 1) =~= ":"@);
    assert(search::occurs_at(s, ":"@, at));
    let first = search::first_at(s, ":"@, 0).unwrap();
    assert(s.subrange(first, first + 1)[0] == ':');
    assert(s[first] == ':');
    if first < at {
        assert(s[first] == label[first]);
    }
    assert(s.take(at) =~= label);
    assert(s.skip(at + 1) =~= seq![' '] + line);
}

/// A short label in small letters is taken off a line.
pub proof fn a_label_is_taken_off(label: Seq<char>, line: Seq<char>)
    requires
        0 < label.len() <= 12,
        forall|i: int| 0 <= i < label.len() ==> 'a' <= #[trigger] label[i] <= 'z',
        line.len() > 0,
        !chars::is_space(line[0]),
    ensures
        undecorated(label + ": "@ + line) == line,
{
    reveal_strlit(": ");
    let s = label + ": "@ + line;
    assert(s[0] == label[0]);
    assert(!chars::is_space(label[0]) && label[0] != '[');
    assert(search::trim_start(s) == s);
    assert(without_groups(s) == s);
    lemma_label(label, line);
    assert(is_label(label));
    let tail = seq![' '] + line;
    assert(tail.skip(1) =~= line);
    assert(tail[0] == ' ' && chars::is_space(' '));
    assert(search::trim_start(line) == line);
    assert(search::trim_start(tail) == line);
}

proof fn lemma_group(group: Seq<char>, line: Seq<char>)
    requires
        !group.contains(']'),
    ensures
        search::first_at(seq!['['] + group + seq![']'] + line, seq![']'], 0) == Some(
            group.len() as int + 1,
        ),
        (seq!['['] + group + seq![']'] + line).skip(group.len() as int + 2) == line,
{
    let s = seq!['['] + group + seq![']'] + line;
    let end = group.len() as int + 1;
    search::first_at_is_first(s, seq![']'], 0);
    assert(s.subrange(end, end + 1) =~= seq![']']);
    assert(search::occurs_at(s, seq![']'], end));
    let found = search::first_at(s, seq![']'], 0).unwrap();
    assert(s.subrange(found, found + 1)[0] == ']');
    assert(s[found] == ']');
    if found < end {
        assert(found > 0);
        assert(s[found] == group[found - 1]);
    }
    assert(s.skip(end + 1) =~= line);
}

proof fn lemma_nothing_to_cut(line: Seq<char>)
    requires
        !search::contains(line, ":"@),
    ensures
        search::split_once(line, ":"@) is None,
{
    search::first_at_is_first(line, ":"@, 0);
}

/// A group in square brackets is taken off a line.
pub proof fn a_group_is_taken_off(group: Seq<char>, line: Seq<char>)
    requires
        !group.contains(']'),
        line.len() > 0,
        !chars::is_space(line[0]),
        line[0] != '[',
        !search::contains(line, ":"@),
    ensures
        undecorated(seq!['['] + group + seq![']'] + line) == line,
{
    let s = seq!['['] + group + seq![']'] + line;
    lemma_group(group, line);
    lemma_nothing_to_cut(line);
    assert(s[0] == '[' && !chars::is_space('['));
    assert(search::trim_start(s) == s);
    assert(search::trim_start(line) == line);
    assert(without_groups(line) == line);
    assert(without_groups(s) == without_groups(line));
}

} // verus!
