//! Cutting a text into pieces, and joining pieces.

use crate::text::chars;
use crate::text::chars::{chars_of, is_whitespace, text_of_range};
use vstd::prelude::*;
use vstd::string::StringExecFns;

verus! {

/// The pieces between the occurrences of `separator`; there is always at least one.
pub open spec fn split(s: Seq<char>, separator: char) -> Seq<Seq<char>>
    decreases s.len(),
{
    if s.len() == 0 {
        seq![Seq::<char>::empty()]
    } else {
        let before = split(s.drop_last(), separator);
        if s.last() == separator {
            before.push(Seq::<char>::empty())
        } else {
            before.drop_last().push(before.last().push(s.last()))
        }
    }
}

/// The longest runs of characters that are no white space.
pub open spec fn words(s: Seq<char>) -> Seq<Seq<char>>
    decreases s.len(),
{
    if s.len() == 0 {
        Seq::empty()
    } else {
        let before = words(s.drop_last());
        if chars::is_space(s.last()) {
            before
        } else if s.len() == 1 || chars::is_space(s[s.len() - 2]) {
            before.push(seq![s.last()])
        } else {
            before.drop_last().push(before.last().push(s.last()))
        }
    }
}

pub open spec fn without_carriage_return(line: Seq<char>) -> Seq<char> {
    if line.len() > 0 && line.last() == '\r' {
        line.drop_last()
    } else {
        line
    }
}

/// The lines of a text. A line ends with a line feed, or with a carriage return and a line
/// feed; the end of the last line may be missing.
pub open spec fn lines(s: Seq<char>) -> Seq<Seq<char>> {
    let pieces = split(s, '\n');
    let ended = pieces.drop_last().map_values(|line: Seq<char>| without_carriage_return(line));
    if pieces.last().len() == 0 {
        ended
    } else {
        ended.push(pieces.last())
    }
}

/// The pieces in a row, with `separator` between two neighbours.
pub open spec fn join(pieces: Seq<Seq<char>>, separator: Seq<char>) -> Seq<char>
    decreases pieces.len(),
{
    if pieces.len() == 0 {
        Seq::empty()
    } else if pieces.len() == 1 {
        pieces[0]
    } else {
        join(pieces.drop_last(), separator) + separator + pieces.last()
    }
}

/// A text has at least one piece, an empty one at worst.
pub proof fn split_has_a_piece(s: Seq<char>, separator: char)
    ensures
        split(s, separator).len() >= 1,
    decreases s.len(),
{
    if s.len() > 0 {
        split_has_a_piece(s.drop_last(), separator);
    }
}

/// No piece holds the separator.
pub proof fn pieces_hold_no_separator(s: Seq<char>, separator: char)
    ensures
        forall|i: int|
            0 <= i < split(s, separator).len() ==> !(#[trigger] split(s, separator)[i]).contains(
                separator,
            ),
    decreases s.len(),
{
    if s.len() > 0 {
        let before = split(s.drop_last(), separator);
        let pieces = split(s, separator);
        pieces_hold_no_separator(s.drop_last(), separator);
        split_has_a_piece(s.drop_last(), separator);
        assert forall|i: int| 0 <= i < pieces.len() implies !(#[trigger] pieces[i]).contains(
            separator,
        ) by {
            let piece = pieces[i];
            if i < before.len() - 1 || (s.last() == separator && i < before.len()) {
                assert(piece == before[i]);
            } else if s.last() != separator {
                assert(!before.last().contains(separator));
                if piece.contains(separator) {
                    let k = piece.index_of(separator);
                    assert(before.last()[k] == separator);
                }
            }
        }
    }
}

proof fn lemma_split_of_two(a: Seq<char>, b: Seq<char>, separator: char)
    ensures
        split(a.push(separator) + b, separator) == split(a, separator) + split(b, separator),
    decreases b.len(),
{
    let whole = a.push(separator) + b;
    if b.len() == 0 {
        assert(whole.drop_last() =~= a);
        assert(split(whole, separator) =~= split(a, separator) + split(b, separator));
    } else {
        let before = split(b.drop_last(), separator);
        lemma_split_of_two(a, b.drop_last(), separator);
        split_has_a_piece(b.drop_last(), separator);
        assert(whole.drop_last() =~= a.push(separator) + b.drop_last());
        assert(whole.last() == b.last());
        assert((split(a, separator) + before).drop_last() =~= split(a, separator)
            + before.drop_last());
        assert((split(a, separator) + before).last() == before.last());
        assert(split(whole, separator) =~= split(a, separator) + split(b, separator));
    }
}

proof fn lemma_split_of_one(s: Seq<char>, separator: char)
    requires
        !s.contains(separator),
    ensures
        split(s, separator) == seq![s],
    decreases s.len(),
{
    if s.len() == 0 {
        assert(s =~= Seq::<char>::empty());
    } else {
        let front = s.drop_last();
        assert(s.contains(s.last()));
        assert(!front.contains(separator)) by {
            if front.contains(separator) {
                let k = front.index_of(separator);
                assert(s[k] == separator);
            }
        }
        lemma_split_of_one(front, separator);
        assert(front.push(s.last()) =~= s);
        assert(split(s, separator) =~= seq![s]);
    }
}

/// Pieces that are joined by a character which none of them holds can be cut apart again.
pub proof fn joined_pieces_come_apart(pieces: Seq<Seq<char>>, separator: char)
    requires
        pieces.len() > 0,
        forall|i: int| 0 <= i < pieces.len() ==> !(#[trigger] pieces[i]).contains(separator),
    ensures
        split(join(pieces, seq![separator]), separator) == pieces,
    decreases pieces.len(),
{
    let last = pieces.last();
    assert(last == pieces[pieces.len() - 1]);
    lemma_split_of_one(last, separator);
    if pieces.len() == 1 {
        assert(pieces =~= seq![last]);
    } else {
        let front = pieces.drop_last();
        assert forall|i: int| 0 <= i < front.len() implies !(#[trigger] front[i]).contains(
            separator,
        ) by {
            assert(front[i] == pieces[i]);
        }
        joined_pieces_come_apart(front, separator);
        let head = join(front, seq![separator]);
        assert(join(pieces, seq![separator]) =~= head.push(separator) + last);
        lemma_split_of_two(head, last, separator);
        assert(front + seq![last] =~= pieces);
    }
}

pub fn split_at_char(text: &str, separator: char) -> (pieces: Vec<String>)
    ensures
        chars::texts(pieces@) == split(text@, separator),
{
    let chars = chars_of(text);
    let mut pieces: Vec<String> = Vec::new();
    let mut current = String::new();
    let mut i: usize = 0;
    assert(chars::texts(pieces@).push(current@) =~= split(text@.take(0), separator));
    while i < chars.len()
        invariant
            i <= chars.len(),
            chars@ == text@,
            chars::texts(pieces@).push(current@) == split(text@.take(i as int), separator),
        decreases chars.len() - i,
    {
        let ghost before = split(text@.take(i as int), separator);
        assert(text@.take(i + 1).drop_last() =~= text@.take(i as int));
        assert(before.last() == current@);
        assert(before.drop_last() =~= chars::texts(pieces@));
        let c = chars[i];
        if c == separator {
            let ghost old_pieces = pieces@;
            pieces.push(current);
            assert(chars::texts(pieces@) =~= chars::texts(old_pieces).push(pieces@.last()@));
            current = String::new();
        } else {
            current.push(c);
        }
        i += 1;
    }
    assert(text@.take(i as int) =~= text@);
    let ghost old_pieces = pieces@;
    pieces.push(current);
    assert(chars::texts(pieces@) =~= chars::texts(old_pieces).push(pieces@.last()@));
    pieces
}

pub fn words_of(text: &str) -> (found: Vec<String>)
    ensures
        chars::texts(found@) == words(text@),
{
    let chars = chars_of(text);
    let mut found: Vec<String> = Vec::new();
    let mut from: usize = 0;
    let mut i: usize = 0;
    let mut inside: bool = false;
    while i < chars.len()
        invariant
            i <= chars.len(),
            from <= i,
            chars@ == text@,
            inside == (i > 0 && !chars::is_space(text@[i - 1])),
            inside ==> from < i && words(text@.take(i as int)) == chars::texts(found@).push(
                text@.subrange(from as int, i as int),
            ),
            !inside ==> words(text@.take(i as int)) == chars::texts(found@),
        decreases chars.len() - i,
    {
        let ghost now = text@.take(i as int);
        let ghost next = text@.take(i + 1);
        assert(next.drop_last() =~= now);
        assert(i > 0 ==> next[next.len() - 2] == text@[i - 1]);
        if is_whitespace(chars[i]) {
            if inside {
                let ghost old_found = found@;
                let piece = text_of_range(chars.as_slice(), from, i);
                found.push(piece);
                assert(chars::texts(found@) =~= chars::texts(old_found).push(piece@));
            }
            inside = false;
        } else {
            if !inside {
                from = i;
                assert(text@.subrange(from as int, i + 1) =~= seq![text@[i as int]]);
            } else {
                assert(text@.subrange(from as int, i + 1) =~= text@.subrange(
                    from as int,
                    i as int,
                ).push(text@[i as int]));
                assert(words(now).drop_last() =~= chars::texts(found@));
            }
            inside = true;
        }
        i += 1;
    }
    assert(text@.take(i as int) =~= text@);
    if inside {
        let ghost old_found = found@;
        let piece = text_of_range(chars.as_slice(), from, i);
        found.push(piece);
        assert(chars::texts(found@) =~= chars::texts(old_found).push(piece@));
    }
    found
}

pub fn lines_of(text: &str) -> (found: Vec<String>)
    ensures
        chars::texts(found@) == lines(text@),
{
    let pieces = split_at_char(text, '\n');
    proof {
        split_has_a_piece(text@, '\n');
    }
    let ghost all = split(text@, '\n');
    assert(all.len() == pieces@.len());
    let ghost ended = all.drop_last().map_values(|line: Seq<char>| without_carriage_return(line));
    let mut found: Vec<String> = Vec::new();
    let last: usize = pieces.len() - 1;
    let mut i: usize = 0;
    while i < last
        invariant
            i <= last,
            last + 1 == pieces@.len(),
            chars::texts(pieces@) == all,
            ended == all.drop_last().map_values(|line: Seq<char>| without_carriage_return(line)),
            chars::texts(found@) == ended.take(i as int),
        decreases last - i,
    {
        let ghost line = all[i as int];
        assert(line == pieces@[i as int]@);
        let chars = chars_of(pieces[i].as_str());
        let n: usize = chars.len();
        let ghost old_found = found@;
        if n > 0 && chars[n - 1] == '\r' {
            let short = text_of_range(chars.as_slice(), 0, n - 1);
            assert(line.subrange(0, n - 1) =~= line.drop_last());
            found.push(short);
        } else {
            found.push(pieces[i].clone());
        }
        assert(found@.last()@ == without_carriage_return(line));
        assert(ended[i as int] == without_carriage_return(line));
        assert(chars::texts(found@) =~= chars::texts(old_found).push(found@.last()@));
        i += 1;
    }
    assert(ended.take(i as int) =~= ended);
    assert(pieces@[i as int]@ == all.last());
    if !pieces[i].as_str().is_empty() {
        let ghost old_found = found@;
        found.push(pieces[i].clone());
        assert(chars::texts(found@) =~= chars::texts(old_found).push(found@.last()@));
    }
    found
}

/// The pieces in a row, with `separator` between two neighbours.
pub fn joined(pieces: &Vec<String>, separator: &str) -> (text: String)
    ensures
        text@ == join(chars::texts(pieces@), separator@),
{
    let mut text = String::new();
    let mut i: usize = 0;
    while i < pieces.len()
        invariant
            i <= pieces.len(),
            text@ == join(chars::texts(pieces@).take(i as int), separator@),
        decreases pieces.len() - i,
    {
        let ghost next = chars::texts(pieces@).take(i + 1);
        assert(next.drop_last() =~= chars::texts(pieces@).take(i as int));
        assert(next.last() == pieces@[i as int]@);
        if i == 0 {
            text = pieces[0].clone();
        } else {
            text.append(separator);
            text.append(pieces[i].as_str());
        }
        i += 1;
    }
    assert(chars::texts(pieces@).take(i as int) =~= chars::texts(pieces@));
    text
}

/// One piece joined is that piece, and no piece is an empty text.
pub proof fn one_piece_is_itself(piece: Seq<char>, separator: Seq<char>)
    ensures
        join(seq![piece], separator) == piece,
        join(Seq::<Seq<char>>::empty(), separator).len() == 0,
{
}

/// Another piece comes behind the others, with the separator between.
pub proof fn pieces_are_joined_one_by_one(
    pieces: Seq<Seq<char>>,
    last: Seq<char>,
    separator: Seq<char>,
)
    requires
        pieces.len() > 0,
    ensures
        join(pieces.push(last), separator) == join(pieces, separator) + separator + last,
{
    assert(pieces.push(last).drop_last() =~= pieces);
}

/// A run of characters without white space is one word, and another one behind a blank is the next
/// word.
pub proof fn words_stand_between_white_space(s: Seq<char>, blank: char, word: Seq<char>)
    requires
        chars::is_space(blank),
        word.len() > 0,
        forall|i: int| 0 <= i < word.len() ==> !chars::is_space(#[trigger] word[i]),
    ensures
        words(word) == seq![word],
        words(s.push(blank) + word) == words(s).push(word),
        words(s.push(blank)) == words(s),
    decreases word.len(),
{
    let whole = s.push(blank) + word;
    let front = word.drop_last();
    assert(s.push(blank).drop_last() =~= s);
    assert(!chars::is_space(word[word.len() - 1]));
    assert(whole.drop_last() =~= s.push(blank) + front);
    assert(whole.last() == word.last());
    if front.len() > 0 {
        assert(forall|i: int| 0 <= i < front.len() ==> front[i] == word[i]);
        words_stand_between_white_space(s, blank, front);
        assert(!chars::is_space(word[word.len() - 2]));
        assert(whole[whole.len() - 2] == word[word.len() - 2]);
        assert(words(s).push(front).drop_last() =~= words(s));
        assert(seq![front].drop_last() =~= Seq::<Seq<char>>::empty());
        assert(front.push(word.last()) =~= word);
        assert(Seq::<Seq<char>>::empty().push(word) =~= seq![word]);
        let before = words(whole.drop_last());
        assert(before == words(s).push(front));
        assert(words(whole) == before.drop_last().push(before.last().push(whole.last())));
    } else {
        assert(front =~= Seq::<char>::empty());
        assert(s.push(blank) + front =~= s.push(blank));
        assert(whole[whole.len() - 2] == blank);
        assert(seq![word.last()] =~= word);
        assert(words(front) =~= Seq::<Seq<char>>::empty());
        assert(words(front).push(seq![word.last()]) =~= seq![word]);
        assert(words(s.push(blank)) == words(s));
        assert(words(whole) == words(whole.drop_last()).push(seq![whole.last()]));
    }
}

/// Lines that are written one behind the other, each with a line feed at its end, are read back;
/// so are they where the last line feed is missing. A carriage return before a line feed belongs to
/// the end of the line.
pub proof fn written_lines_are_read_back(list: Seq<Seq<char>>)
    requires
        list.len() > 0,
        forall|i: int|
            0 <= i < list.len() ==> !(#[trigger] list[i]).contains('\n') && (list[i].len() > 0
                ==> list[i].last() != '\r'),
    ensures
        lines(join(list, seq!['\n']).push('\n')) == list,
        list.last().len() > 0 ==> lines(join(list, seq!['\n'])) == list,
        lines(list[0] + seq!['\r', '\n']) == seq![list[0]],
        lines(Seq::<char>::empty()).len() == 0,
{
    joined_pieces_come_apart(list, '\n');
    let s = join(list, seq!['\n']);
    assert(s.push('\n').drop_last() =~= s);
    let pieces = split(s.push('\n'), '\n');
    assert(pieces =~= list.push(Seq::empty()));
    assert(pieces.drop_last() =~= list);
    assert(list.map_values(|line: Seq<char>| without_carriage_return(line)) =~= list);
    if list.last().len() > 0 {
        let ended = list.drop_last().map_values(|line: Seq<char>| without_carriage_return(line));
        assert(ended =~= list.drop_last());
        assert(list.drop_last().push(list.last()) =~= list);
    }
    let first = list[0];
    let text = first + seq!['\r', '\n'];
    let longer = first.push('\r');
    assert(!longer.contains('\n')) by {
        if longer.contains('\n') {
            let i = longer.index_of('\n');
            assert(i < first.len() ==> longer[i] == first[i]);
        }
    }
    one_piece_is_itself(longer, seq!['\n']);
    joined_pieces_come_apart(seq![longer], '\n');
    assert(text.drop_last() =~= longer);
    assert(split(text, '\n') =~= seq![longer, Seq::<char>::empty()]);
    assert(split(text, '\n').drop_last() =~= seq![longer]);
    assert(longer.drop_last() =~= first);
    assert(lines(text) =~= seq![first]);
    assert(split(Seq::<char>::empty(), '\n') =~= seq![Seq::<char>::empty()]);
}

} // verus!
