//! Characters, and the way between a text and its characters.

use vstd::prelude::*;

verus! {

// ---------------------------------------------------------------------------------------------
// Characters

/// The characters with the Unicode property `White_Space`.
pub open spec fn is_space(c: char) -> bool {
    let n = c as u32;
    ||| 0x9 <= n <= 0xd
    ||| n == 0x20
    ||| n == 0x85
    ||| n == 0xa0
    ||| n == 0x1680
    ||| 0x2000 <= n <= 0x200a
    ||| n == 0x2028
    ||| n == 0x2029
    ||| n == 0x202f
    ||| n == 0x205f
    ||| n == 0x3000
}

pub open spec fn is_digit(c: char) -> bool {
    '0' <= c <= '9'
}

pub open spec fn is_ascii_letter(c: char) -> bool {
    ('a' <= c <= 'z') || ('A' <= c <= 'Z')
}

/// The lower-case form of an ASCII letter; every other character stays as it is.
pub open spec fn ascii_lower(c: char) -> char {
    if 'A' <= c <= 'Z' {
        (c as u32 + 32) as char
    } else {
        c
    }
}

pub open spec fn ascii_lower_text(s: Seq<char>) -> Seq<char> {
    Seq::new(s.len(), |i: int| ascii_lower(s[i]))
}

/// What `char::is_alphanumeric` answers.
pub uninterp spec fn char_is_alphanumeric(c: char) -> bool;

/// What `char::to_lowercase` yields, as a run of characters.
pub uninterp spec fn char_to_lowercase(c: char) -> Seq<char>;

/// What `str::to_lowercase` returns.
pub uninterp spec fn str_to_lowercase(s: Seq<char>) -> Seq<char>;

/// A letter or a digit. ASCII is spelled out; beyond it Unicode decides.
pub open spec fn is_alnum(c: char) -> bool {
    if (c as u32) < 128 {
        is_digit(c) || is_ascii_letter(c)
    } else {
        char_is_alphanumeric(c)
    }
}

/// The lower-case form of one character. ASCII is spelled out; beyond it Unicode decides.
pub open spec fn lower_char(c: char) -> Seq<char> {
    if (c as u32) < 128 {
        seq![ascii_lower(c)]
    } else {
        char_to_lowercase(c)
    }
}

pub open spec fn all_ascii(s: Seq<char>) -> bool {
    forall|i: int| 0 <= i < s.len() ==> (#[trigger] s[i] as u32) < 128
}

/// The lower-case form of a text. ASCII is spelled out; beyond it Unicode decides.
pub open spec fn lower_text(s: Seq<char>) -> Seq<char> {
    if all_ascii(s) {
        ascii_lower_text(s)
    } else {
        str_to_lowercase(s)
    }
}

/// The characters of a text that may be missing.
pub open spec fn text_view(text: Option<String>) -> Option<Seq<char>> {
    match text {
        Some(text) => Some(text@),
        None => None,
    }
}

/// The characters of a borrowed text that may be missing.
pub open spec fn str_view(text: Option<&str>) -> Option<Seq<char>> {
    match text {
        Some(text) => Some(text@),
        None => None,
    }
}

/// `String::push` appends one character and keeps what was there.
pub assume_specification[ String::push ](grown: &mut String, c: char)
    ensures
        final(grown)@ == old(grown)@.push(c),
;

/// `==` of the standard library on two `str` values: it compares their characters.
#[verifier::external_body]
pub(crate) fn same_text(a: &str, b: &str) -> (same: bool)
    ensures
        same == (a@ == b@),
{
    a == b
}

/// `char::is_alphanumeric`: the answer depends on the character alone.
#[verifier::external_body]
fn unicode_alphanumeric(c: char) -> (yes: bool)
    ensures
        yes == char_is_alphanumeric(c),
{
    c.is_alphanumeric()
}

/// `char::to_lowercase`: the characters it yields depend on the character alone.
#[verifier::external_body]
fn unicode_lowercase(c: char) -> (lower: Vec<char>)
    ensures
        lower@ == char_to_lowercase(c),
{
    c.to_lowercase().collect()
}

/// `str::to_lowercase`: the text it returns depends on the given text alone.
#[verifier::external_body]
fn unicode_lowercase_text(text: &str) -> (lower: String)
    ensures
        lower@ == str_to_lowercase(text@),
{
    text.to_lowercase()
}

pub fn is_whitespace(c: char) -> (yes: bool)
    ensures
        yes == is_space(c),
{
    let n: u32 = c as u32;
    (0x9 <= n && n <= 0xd) || n == 0x20 || n == 0x85 || n == 0xa0 || n == 0x1680 || (0x2000 <= n
        && n <= 0x200a) || n == 0x2028 || n == 0x2029 || n == 0x202f || n == 0x205f || n == 0x3000
}

pub fn is_decimal_digit(c: char) -> (yes: bool)
    ensures
        yes == is_digit(c),
{
    '0' <= c && c <= '9'
}

pub fn is_letter_or_digit(c: char) -> (yes: bool)
    ensures
        yes == is_alnum(c),
{
    if (c as u32) < 128 {
        ('0' <= c && c <= '9') || ('a' <= c && c <= 'z') || ('A' <= c && c <= 'Z')
    } else {
        unicode_alphanumeric(c)
    }
}

/// The ASCII characters by their number.
pub fn ascii_char(n: u8) -> (c: char)
    requires
        n < 128,
    ensures
        c as u32 == n,
{
    n as char
}

pub fn to_ascii_lower(c: char) -> (lower: char)
    ensures
        lower == ascii_lower(c),
{
    if 'A' <= c && c <= 'Z' {
        ascii_char((c as u32 + 32) as u8)
    } else {
        c
    }
}

pub fn to_lower(c: char) -> (lower: Vec<char>)
    ensures
        lower@ == lower_char(c),
{
    if (c as u32) < 128 {
        let mut lower: Vec<char> = Vec::new();
        lower.push(to_ascii_lower(c));
        lower
    } else {
        unicode_lowercase(c)
    }
}

// ---------------------------------------------------------------------------------------------
// Texts and their characters

/// The characters of each text.
pub open spec fn texts(list: Seq<String>) -> Seq<Seq<char>> {
    list.map_values(|text: String| text@)
}

/// The characters of a text, one by one.
pub fn chars_of(text: &str) -> (chars: Vec<char>)
    ensures
        chars@ == text@,
{
    let mut chars: Vec<char> = Vec::new();
    for c in it: text.chars()
        invariant
            chars@ == it.seq().take(it.index()),
            it.seq() == text@,
    {
        chars.push(c);
    }
    chars
}

/// The text that a part of a run of characters spells.
pub fn text_of_range(chars: &[char], from: usize, to: usize) -> (text: String)
    requires
        from <= to <= chars@.len(),
    ensures
        text@ == chars@.subrange(from as int, to as int),
{
    let mut text = String::new();
    let mut i: usize = from;
    while i < to
        invariant
            from <= i <= to <= chars@.len(),
            text@ == chars@.subrange(from as int, i as int),
        decreases to - i,
    {
        text.push(chars[i]);
        i += 1;
    }
    text
}

/// A copy of a list of texts.
pub fn copy_texts(list: &Vec<String>) -> (copy: Vec<String>)
    ensures
        texts(copy@) == texts(list@),
{
    let mut copy: Vec<String> = Vec::new();
    let mut i: usize = 0;
    while i < list.len()
        invariant
            i <= list.len(),
            copy@.len() == i,
            forall|j: int| 0 <= j < i ==> (#[trigger] copy@[j])@ == list@[j]@,
        decreases list.len() - i,
    {
        copy.push(list[i].clone());
        i += 1;
    }
    copy
}

/// Whether a list of texts holds a text.
pub fn list_has(list: &Vec<String>, text: &str) -> (yes: bool)
    ensures
        yes == texts(list@).contains(text@),
{
    let mut i: usize = 0;
    while i < list.len()
        invariant
            i <= list.len(),
            forall|j: int| 0 <= j < i ==> (#[trigger] list@[j])@ != text@,
        decreases list.len() - i,
    {
        if same_text(list[i].as_str(), text) {
            assert(texts(list@)[i as int] == text@);
            return true;
        }
        i += 1;
    }
    assert forall|j: int| 0 <= j < texts(list@).len() implies #[trigger] texts(list@)[j] != text@ by {
        assert(list@[j]@ != text@);
    }
    false
}

/// The lower-case form of a text.
pub fn lowercase(text: &str) -> (lower: String)
    ensures
        lower@ == lower_text(text@),
{
    let chars = chars_of(text);
    let mut lower = String::new();
    let mut i: usize = 0;
    while i < chars.len()
        invariant
            i <= chars.len(),
            chars@ == text@,
            lower@ == ascii_lower_text(text@.take(i as int)),
            all_ascii(text@.take(i as int)),
        decreases chars.len() - i,
    {
        if chars[i] as u32 >= 128 {
            assert(!all_ascii(text@)) by {
                assert(text@[i as int] as u32 >= 128);
            }
            return unicode_lowercase_text(text);
        }
        lower.push(to_ascii_lower(chars[i]));
        assert(ascii_lower_text(text@.take(i + 1)) =~= ascii_lower_text(text@.take(i as int)).push(
            ascii_lower(text@[i as int]),
        ));
        i += 1;
    }
    assert(text@.take(i as int) =~= text@);
    lower
}

/// A text with its ASCII letters in lower case.
pub fn ascii_lowercase(text: &str) -> (out: String)
    ensures
        out@ == ascii_lower_text(text@),
{
    let list = chars_of(text);
    let mut out = String::new();
    let mut i: usize = 0;
    while i < list.len()
        invariant
            i <= list@.len(),
            list@ == text@,
            out@ == ascii_lower_text(text@.take(i as int)),
        decreases list@.len() - i,
    {
        out.push(to_ascii_lower(list[i]));
        assert(ascii_lower_text(text@.take(i + 1)) =~= ascii_lower_text(
            text@.take(i as int),
        ).push(ascii_lower(text@[i as int])));
        i += 1;
    }
    assert(text@.take(i as int) =~= text@);
    out
}

/// Whether two texts are the same up to the case of ASCII letters.
pub fn same_ignoring_ascii_case(a: &str, b: &str) -> (same: bool)
    ensures
        same == (ascii_lower_text(a@) == ascii_lower_text(b@)),
{
    let left = chars_of(a);
    let right = chars_of(b);
    if left.len() != right.len() {
        assert(ascii_lower_text(a@).len() != ascii_lower_text(b@).len());
        return false;
    }
    let mut i: usize = 0;
    while i < left.len()
        invariant
            i <= left.len() == right.len(),
            left@ == a@,
            right@ == b@,
            forall|j: int| 0 <= j < i ==> ascii_lower(a@[j]) == ascii_lower(b@[j]),
        decreases left.len() - i,
    {
        if to_ascii_lower(left[i]) != to_ascii_lower(right[i]) {
            assert(ascii_lower_text(a@)[i as int] != ascii_lower_text(b@)[i as int]);
            return false;
        }
        i += 1;
    }
    assert(ascii_lower_text(a@) =~= ascii_lower_text(b@));
    true
}

// ---------------------------------------------------------------------------------------------
// What holds of characters

/// A text in lower case has as many characters as before, no capital of the alphabet is left in
/// it, and what was none is as it was. Doing it twice is doing it once.
pub proof fn lower_case_keeps_the_length(s: Seq<char>)
    ensures
        ascii_lower_text(s).len() == s.len(),
        forall|i: int|
            0 <= i < s.len() ==> !('A' <= #[trigger] ascii_lower_text(s)[i] <= 'Z') && (!('A' <= s[i]
                <= 'Z') ==> ascii_lower_text(s)[i] == s[i]) && ('A' <= s[i] <= 'Z'
                ==> ascii_lower_text(s)[i] as u32 == s[i] as u32 + 32),
        ascii_lower_text(ascii_lower_text(s)) == ascii_lower_text(s),
{
    assert(ascii_lower_text(ascii_lower_text(s)) =~= ascii_lower_text(s));
}

/// Blanks, tabs and line ends are white space, and letters, digits and signs are none.
pub proof fn what_white_space_is(c: char)
    ensures
        is_space(' ') && is_space('\t') && is_space('\n') && is_space('\r'),
        is_digit(c) || is_ascii_letter(c) ==> !is_space(c),
        '!' <= c <= '~' ==> !is_space(c),
        is_digit(c) || is_ascii_letter(c) ==> is_alnum(c),
        ' ' <= c <= '~' && !is_digit(c) && !is_ascii_letter(c) ==> !is_alnum(c),
{
}

} // verus!
