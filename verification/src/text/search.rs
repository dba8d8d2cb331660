//! Trimming a text and looking for one text inside another.

use crate::text::chars;
use crate::text::chars::{chars_of, is_whitespace, text_of_range};
use vstd::prelude::*;

verus! {

// ---------------------------------------------------------------------------------------------
// Trimming

pub open spec fn trim_start(s: Seq<char>) -> Seq<char>
    decreases s.len(),
{
    if s.len() > 0 && chars::is_space(s[0]) {
        trim_start(s.skip(1))
    } else {
        s
    }
}

pub open spec fn trim_end(s: Seq<char>) -> Seq<char>
    decreases s.len(),
{
    if s.len() > 0 && chars::is_space(s.last()) {
        trim_end(s.drop_last())
    } else {
        s
    }
}

/// A text without the white space at its two ends.
pub open spec fn trim(s: Seq<char>) -> Seq<char> {
    trim_end(trim_start(s))
}

proof fn lemma_trim_start(s: Seq<char>)
    ensures
        trim_start(s).len() <= s.len(),
        trim_start(s) == s.skip(s.len() - trim_start(s).len()),
        trim_start(s).len() > 0 ==> !chars::is_space(trim_start(s)[0]),
    decreases s.len(),
{
    if s.len() > 0 && chars::is_space(s[0]) {
        lemma_trim_start(s.skip(1));
        assert(s.skip(1).skip(s.len() - 1 - trim_start(s).len()) =~= s.skip(
            s.len() - trim_start(s).len(),
        ));
    } else {
        assert(s.skip(0) =~= s);
    }
}

/// What is left of a text has no more characters than the text.
pub proof fn trim_start_shortens(s: Seq<char>)
    ensures
        trim_start(s).len() <= s.len(),
{
    lemma_trim_start(s);
}

/// A text without the white space at its start.
pub fn trimmed_start(text: &str) -> (out: String)
    ensures
        out@ == trim_start(text@),
{
    let chars = chars_of(text);
    let total: usize = chars.len();
    let mut from: usize = 0;
    assert(text@.skip(0) =~= text@);
    while from < total && is_whitespace(chars[from])
        invariant
            from <= total,
            total == chars@.len(),
            chars@ == text@,
            trim_start(text@) == trim_start(text@.skip(from as int)),
        decreases total - from,
    {
        assert(text@.skip(from as int).skip(1) =~= text@.skip(from + 1));
        from += 1;
    }
    assert(text@.skip(from as int) =~= text@.subrange(from as int, total as int));
    text_of_range(chars.as_slice(), from, total)
}

pub fn trimmed(text: &str) -> (out: String)
    ensures
        out@ == trim(text@),
{
    let chars = chars_of(text);
    let mut from: usize = 0;
    assert(text@.skip(0) =~= text@);
    while from < chars.len() && is_whitespace(chars[from])
        invariant
            from <= chars.len(),
            chars@ == text@,
            trim_start(text@) == trim_start(text@.skip(from as int)),
        decreases chars.len() - from,
    {
        assert(text@.skip(from as int).skip(1) =~= text@.skip(from + 1));
        from += 1;
    }
    let ghost rest = text@.skip(from as int);
    assert(trim_start(rest) == rest);
    let mut to: usize = chars.len();
    assert(rest.take(to - from) =~= rest);
    while from < to && is_whitespace(chars[to - 1])
        invariant
            from <= to <= chars.len(),
            chars@ == text@,
            rest == text@.skip(from as int),
            trim_end(rest) == trim_end(rest.take(to - from)),
        decreases to - from,
    {
        assert(rest.take(to - from).drop_last() =~= rest.take(to - from - 1));
        assert(rest.take(to - from).last() == text@[to - 1]);
        to -= 1;
    }
    assert(rest.take(to - from) =~= text@.subrange(from as int, to as int));
    text_of_range(chars.as_slice(), from, to)
}

/// Whether a text is nothing but white space.
pub fn is_blank(text: &str) -> (yes: bool)
    ensures
        yes == (trim(text@).len() == 0),
{
    let out = trimmed(text);
    out.as_str().is_empty()
}

// ---------------------------------------------------------------------------------------------
// One text inside another

/// `needle` stands in `s` at position `i`.
pub open spec fn occurs_at(s: Seq<char>, needle: Seq<char>, i: int) -> bool {
    0 <= i && i + needle.len() <= s.len() && s.subrange(i, i + needle.len()) == needle
}

pub open spec fn contains(s: Seq<char>, needle: Seq<char>) -> bool {
    exists|i: int| occurs_at(s, needle, i)
}

/// The first position from `from` on at which `needle` stands in `s`.
pub open spec fn first_at(s: Seq<char>, needle: Seq<char>, from: int) -> Option<int>
    decreases s.len() + 1 - from,
{
    if from < 0 || from + needle.len() > s.len() {
        None
    } else if occurs_at(s, needle, from) {
        Some(from)
    } else {
        first_at(s, needle, from + 1)
    }
}

/// What stands before and after the first `separator`.
pub open spec fn split_once(s: Seq<char>, separator: Seq<char>) -> Option<(Seq<char>, Seq<char>)> {
    match first_at(s, separator, 0) {
        Some(i) => Some((s.take(i), s.skip(i + separator.len()))),
        None => None,
    }
}

/// The first position is a position, and no earlier one is.
pub proof fn first_at_is_first(s: Seq<char>, needle: Seq<char>, from: int)
    requires
        0 <= from,
    ensures
        match first_at(s, needle, from) {
            Some(i) => from <= i && occurs_at(s, needle, i) && forall|j: int|
                from <= j < i ==> !occurs_at(s, needle, j),
            None => forall|j: int| from <= j ==> !occurs_at(s, needle, j),
        },
    decreases s.len() + 1 - from,
{
    if from + needle.len() <= s.len() && !occurs_at(s, needle, from) {
        first_at_is_first(s, needle, from + 1);
    }
}

fn stands_at(chars: &[char], needle: &[char], at: usize) -> (yes: bool)
    requires
        at + needle@.len() <= chars@.len(),
    ensures
        yes == occurs_at(chars@, needle@, at as int),
{
    let ghost part = chars@.subrange(at as int, at + needle@.len());
    let total: usize = chars.len();
    let mut i: usize = 0;
    while i < needle.len()
        invariant
            i <= needle@.len(),
            at + needle@.len() <= chars@.len() == total,
            part == chars@.subrange(at as int, at + needle@.len()),
            forall|j: int| 0 <= j < i ==> part[j] == needle@[j],
        decreases needle@.len() - i,
    {
        if chars[at + i] != needle[i] {
            assert(part[i as int] != needle@[i as int]);
            return false;
        }
        i += 1;
    }
    assert(part =~= needle@);
    true
}

/// The first position at which `needle` stands.
pub fn find(chars: &[char], needle: &[char]) -> (at: Option<usize>)
    ensures
        match at {
            Some(i) => first_at(chars@, needle@, 0) == Some(i as int) && i + needle@.len()
                <= chars@.len(),
            None => first_at(chars@, needle@, 0) is None,
        },
{
    if needle.len() > chars.len() {
        return None;
    }
    let last: usize = chars.len() - needle.len();
    let mut i: usize = 0;
    while i <= last
        invariant
            i <= last + 1,
            last + needle@.len() == chars@.len(),
            first_at(chars@, needle@, 0) == first_at(chars@, needle@, i as int),
        decreases last + 1 - i,
    {
        if stands_at(chars, needle, i) {
            return Some(i);
        }
        if i == last {
            assert(first_at(chars@, needle@, i + 1) is None);
            return None;
        }
        i += 1;
    }
    None
}

pub fn has_text(text: &str, needle: &str) -> (yes: bool)
    ensures
        yes == contains(text@, needle@),
{
    let chars = chars_of(text);
    let inner = chars_of(needle);
    proof {
        first_at_is_first(text@, needle@, 0);
    }
    match find(chars.as_slice(), inner.as_slice()) {
        Some(i) => {
            assert(occurs_at(text@, needle@, i as int));
            true
        },
        None => {
            assert forall|i: int| !occurs_at(text@, needle@, i) by {
                if 0 <= i {
                }
            }
            false
        },
    }
}

pub fn has_char(text: &str, c: char) -> (yes: bool)
    ensures
        yes == text@.contains(c),
{
    let chars = chars_of(text);
    let mut i: usize = 0;
    while i < chars.len()
        invariant
            i <= chars.len(),
            chars@ == text@,
            forall|j: int| 0 <= j < i ==> text@[j] != c,
        decreases chars.len() - i,
    {
        if chars[i] == c {
            assert(text@[i as int] == c);
            return true;
        }
        i += 1;
    }
    false
}

/// What stands before and after the first `separator`.
pub fn cut_once(text: &str, separator: &str) -> (cut: Option<(String, String)>)
    ensures
        match cut {
            Some((left, right)) => split_once(text@, separator@) == Some((left@, right@)),
            None => split_once(text@, separator@) is None,
        },
{
    let chars = chars_of(text);
    let inner = chars_of(separator);
    let total: usize = chars.len();
    match find(chars.as_slice(), inner.as_slice()) {
        Some(i) => {
            let left = text_of_range(chars.as_slice(), 0, i);
            let right = text_of_range(chars.as_slice(), i + inner.len(), total);
            assert(text@.subrange(0, i as int) =~= text@.take(i as int));
            assert(text@.subrange(i + separator@.len(), text@.len() as int) =~= text@.skip(
                i + separator@.len(),
            ));
            Some((left, right))
        },
        None => None,
    }
}

pub fn starts_with(text: &str, prefix: &str) -> (yes: bool)
    ensures
        yes == prefix@.is_prefix_of(text@),
{
    let chars = chars_of(text);
    let head = chars_of(prefix);
    if head.len() > chars.len() {
        return false;
    }
    stands_at(chars.as_slice(), head.as_slice(), 0)
}

/// What follows `prefix`, where the text starts with it.
pub fn without_prefix(text: &str, prefix: &str) -> (rest: Option<String>)
    ensures
        match rest {
            Some(rest) => prefix@.is_prefix_of(text@) && rest@ == text@.skip(prefix@.len() as int),
            None => !prefix@.is_prefix_of(text@),
        },
{
    if !starts_with(text, prefix) {
        return None;
    }
    let chars = chars_of(text);
    let head = chars_of(prefix);
    assert(text@.subrange(prefix@.len() as int, text@.len() as int) =~= text@.skip(
        prefix@.len() as int,
    ));
    Some(text_of_range(chars.as_slice(), head.len(), chars.len()))
}

// ---------------------------------------------------------------------------------------------
// What holds of trimming and looking

/// A text contains another exactly where it is the other one with something before and after it.
pub proof fn what_is_contained_stands_inside(before: Seq<char>, needle: Seq<char>, after: Seq<char>, s: Seq<char>)
    ensures
        contains(before + needle + after, needle),
        contains(s, needle) ==> exists|i: int|
            0 <= i && i + needle.len() <= s.len() && s == #[trigger] s.take(i) + needle + s.skip(
                i + needle.len(),
            ),
{
    let whole = before + needle + after;
    let at = before.len() as int;
    assert(whole.subrange(at, at + needle.len()) =~= needle);
    assert(occurs_at(whole, needle, at));
    if contains(s, needle) {
        let i = choose|i: int| occurs_at(s, needle, i);
        assert(s =~= s.take(i) + needle + s.skip(i + needle.len()));
    }
}

/// Splitting takes a text apart at its first separator: the two pieces and the separator make up
/// the text, and the separator does not occur earlier. A text without it is not split.
pub proof fn a_split_text_is_its_two_pieces(s: Seq<char>, separator: Seq<char>)
    ensures
        match split_once(s, separator) {
            Some((front, back)) => s == front + separator + back && forall|i: int|
                0 <= i < front.len() ==> !occurs_at(s, separator, i),
            None => !contains(s, separator),
        },
{
    first_at_is_first(s, separator, 0);
    match first_at(s, separator, 0) {
        Some(i) => {
            assert(s =~= s.take(i) + separator + s.skip(i + separator.len()));
        },
        None => {
            if contains(s, separator) {
                let i = choose|i: int| occurs_at(s, separator, i);
                assert(occurs_at(s, separator, i));
            }
        },
    }
}

proof fn lemma_trim_end(s: Seq<char>)
    ensures
        trim_end(s).len() <= s.len(),
        trim_end(s) == s.take(trim_end(s).len() as int),
        trim_end(s).len() > 0 ==> !chars::is_space(trim_end(s).last()),
        forall|i: int| trim_end(s).len() <= i < s.len() ==> chars::is_space(#[trigger] s[i]),
    decreases s.len(),
{
    if s.len() > 0 && chars::is_space(s.last()) {
        let front = s.drop_last();
        lemma_trim_end(front);
        let n = trim_end(s).len() as int;
        assert(front.take(n) =~= s.take(n));
        assert forall|i: int| n <= i < s.len() implies chars::is_space(#[trigger] s[i]) by {
            if i < front.len() {
                assert(front[i] == s[i]);
            }
        }
    } else {
        assert(s.take(s.len() as int) =~= s);
    }
}

proof fn lemma_trim_front(s: Seq<char>)
    ensures
        forall|i: int| 0 <= i < s.len() - trim_start(s).len() ==> chars::is_space(#[trigger] s[i]),
    decreases s.len(),
{
    if s.len() > 0 && chars::is_space(s[0]) {
        lemma_trim_front(s.skip(1));
        lemma_trim_start(s.skip(1));
        assert forall|i: int| 0 <= i < s.len() - trim_start(s).len() implies chars::is_space(
            #[trigger] s[i],
        ) by {
            if i > 0 {
                assert(s.skip(1)[i - 1] == s[i]);
            }
        }
    }
}

/// Trimming takes away white space and nothing else: what is left starts and ends with something
/// else, and only white space stood around it.
pub proof fn trimming_takes_the_white_space_away(s: Seq<char>)
    ensures
        trim(s).len() > 0 ==> !chars::is_space(trim(s)[0]) && !chars::is_space(trim(s).last()),
        exists|i: int|
            0 <= i && i + trim(s).len() <= s.len() && trim(s) == #[trigger] s.subrange(
                i,
                i + trim(s).len(),
            ) && (forall|k: int| 0 <= k < i ==> chars::is_space(#[trigger] s[k])) && (forall|k: int|
                i + trim(s).len() <= k < s.len() ==> chars::is_space(#[trigger] s[k])),
{
    let middle = trim_start(s);
    lemma_trim_start(s);
    lemma_trim_front(s);
    lemma_trim_end(middle);
    let i = s.len() - middle.len();
    let own = trim(s);
    assert(own =~= s.subrange(i, i + own.len()));
    if own.len() > 0 {
        assert(own[0] == middle[0]);
    }
    assert forall|k: int| i + own.len() <= k < s.len() implies chars::is_space(#[trigger] s[k]) by {
        assert(middle[k - i] == s[k]);
    }
}

} // verus!
