//! Picking a path with the file dialog of the desktop.
//!
//! The dialog answers with a URI; what is worked out here is the path behind it.

use crate::path::FsPath;
use crate::text::chars::{chars_of, text_of_range};
use crate::text::search::without_prefix;
use vstd::prelude::*;
use vstd::utf8::*;

verus! {

/// What the user is asked for.
#[derive(Clone, Copy, Debug, PartialEq, Eq, Structural)]
pub enum Want {
    /// A directory: that of a game, a wine prefix, a place for saves.
    Folder,
    /// A Windows program.
    Exe,
}

/// One question to the user.
pub struct Request {
    pub want: Want,
    /// The title of the dialog: it says what is being picked.
    pub title: String,
    /// Where the dialog opens.
    pub start: Option<FsPath>,
}

impl Request {
    pub fn folder(title: String, start: Option<FsPath>) -> (request: Request)
        ensures
            request == (Request { want: Want::Folder, title, start }),
    {
        Request { want: Want::Folder, title, start }
    }

    pub fn exe(title: String, start: Option<FsPath>) -> (request: Request)
        ensures
            request == (Request { want: Want::Exe, title, start }),
    {
        Request { want: Want::Exe, title, start }
    }
}

// ---------------------------------------------------------------------------------------------
// Percent escapes

pub const PERCENT: u8 = 37;

pub const PLUS: u8 = 43;

/// The value of a hexadecimal digit.
pub open spec fn hex_digit(byte: u8) -> Option<int> {
    if 48 <= byte <= 57 {
        Some(byte - 48)
    } else if 65 <= byte <= 70 {
        Some(byte - 55)
    } else if 97 <= byte <= 102 {
        Some(byte - 87)
    } else {
        None
    }
}

/// The number that the two characters of an escape spell: two hexadecimal digits, or a plus
/// sign and one.
pub open spec fn hex_pair(a: u8, b: u8) -> Option<int> {
    match (hex_digit(a), hex_digit(b)) {
        (Some(high), Some(low)) => Some(high * 16 + low),
        (None, Some(low)) => if a == PLUS {
            Some(low)
        } else {
            None
        },
        _ => None,
    }
}

/// The bytes that an escaped text stands for.
pub open spec fn unescaped(bytes: Seq<u8>) -> Option<Seq<u8>>
    decreases bytes.len(),
{
    if bytes.len() == 0 {
        Some(Seq::empty())
    } else if bytes[0] != PERCENT {
        match unescaped(bytes.skip(1)) {
            Some(rest) => Some(seq![bytes[0]] + rest),
            None => None,
        }
    } else if bytes.len() < 3 {
        None
    } else {
        match (hex_pair(bytes[1], bytes[2]), unescaped(bytes.skip(3))) {
            (Some(value), Some(rest)) => Some(seq![value as u8] + rest),
            _ => None,
        }
    }
}

/// The text that an escaped text stands for. One whose bytes are no UTF-8 stands for none.
pub open spec fn unescaped_text(text: Seq<char>) -> Option<Seq<u8>> {
    match unescaped(encode_utf8(text)) {
        Some(bytes) => if valid_utf8(bytes) {
            Some(bytes)
        } else {
            None
        },
        None => None,
    }
}

/// The first position of a slash from a position on.
pub open spec fn first_slash(s: Seq<char>, from: int) -> Option<int>
    decreases s.len() - from,
{
    if from < 0 || from >= s.len() {
        None
    } else if s[from] == '/' {
        Some(from)
    } else {
        first_slash(s, from + 1)
    }
}

/// The path behind a `file` URI. A host name between `file://` and the path does not count.
pub open spec fn path_behind(uri: Seq<char>) -> Option<Seq<u8>> {
    if !"file://"@.is_prefix_of(uri) {
        None
    } else {
        let rest = uri.skip("file://"@.len() as int);
        match first_slash(rest, 0) {
            Some(i) => unescaped_text(rest.skip(i)),
            None => None,
        }
    }
}

/// `String::from_utf8`: it gives a text exactly where the bytes are UTF-8, and the text is the
/// one that the bytes encode.
#[verifier::external_body]
fn utf8_text(bytes: Vec<u8>) -> (text: Option<String>)
    ensures
        match text {
            Some(text) => valid_utf8(bytes@) && encode_utf8(text@) == bytes@,
            None => !valid_utf8(bytes@),
        },
{
    String::from_utf8(bytes).ok()
}

fn hex_value(byte: u8) -> (value: Option<u8>)
    ensures
        match value {
            Some(value) => hex_digit(byte) == Some(value as int) && value < 16,
            None => hex_digit(byte) is None,
        },
{
    if 48 <= byte && byte <= 57 {
        Some(byte - 48)
    } else if 65 <= byte && byte <= 70 {
        Some(byte - 55)
    } else if 97 <= byte && byte <= 102 {
        Some(byte - 87)
    } else {
        None
    }
}

fn pair_value(a: u8, b: u8) -> (value: Option<u8>)
    ensures
        match value {
            Some(value) => hex_pair(a, b) == Some(value as int),
            None => hex_pair(a, b) is None,
        },
{
    match (hex_value(a), hex_value(b)) {
        (Some(high), Some(low)) => Some(high * 16 + low),
        (None, Some(low)) => if a == PLUS {
            Some(low)
        } else {
            None
        },
        _ => None,
    }
}

/// The text that an escaped text stands for.
pub fn percent_decode(encoded: &str) -> (out: Option<String>)
    ensures
        match out {
            Some(out) => unescaped_text(encoded@) == Some(encode_utf8(out@)),
            None => unescaped_text(encoded@) is None,
        },
{
    let bytes = encoded.as_bytes();
    let ghost all = bytes@;
    let n: usize = bytes.len();
    let mut out: Vec<u8> = Vec::new();
    let mut i: usize = 0;
    assert(all.skip(0) =~= all);
    proof {
        match unescaped(all) {
            Some(rest) => assert(out@ + rest =~= rest),
            None => {},
        }
    }
    while i < n
        invariant
            i <= n == all.len(),
            all == bytes@,
            all == encode_utf8(encoded@),
            unescaped(all) == match unescaped(all.skip(i as int)) {
                Some(rest) => Some(out@ + rest),
                None => None,
            },
        decreases n - i,
    {
        let ghost here = all.skip(i as int);
        let ghost before = out@;
        assert(here[0] == all[i as int]);
        if bytes[i] != PERCENT {
            out.push(bytes[i]);
            assert(here.skip(1) =~= all.skip(i + 1));
            i += 1;
        } else {
            if n - i < 3 {
                return None;
            }
            assert(here[1] == all[i + 1] && here[2] == all[i + 2]);
            assert(here.skip(3) =~= all.skip(i + 3));
            match pair_value(bytes[i + 1], bytes[i + 2]) {
                Some(value) => {
                    out.push(value);
                },
                None => {
                    return None;
                },
            }
            i += 3;
        }
        proof {
            match unescaped(all.skip(i as int)) {
                Some(rest) => assert(before + (seq![out@.last()] + rest) =~= out@ + rest),
                None => {},
            }
        }
    }
    assert(all.skip(i as int) =~= Seq::<u8>::empty());
    assert(out@ + Seq::<u8>::empty() =~= out@);
    utf8_text(out)
}

/// The path behind a `file` URI.
pub fn uri_to_path(uri: &str) -> (path: Option<FsPath>)
    ensures
        match path {
            Some(path) => path_behind(uri@) == Some(path@),
            None => path_behind(uri@) is None,
        },
{
    let rest = match without_prefix(uri, "file://") {
        Some(rest) => rest,
        None => {
            return None;
        },
    };
    let chars = chars_of(rest.as_str());
    let n: usize = chars.len();
    let mut i: usize = 0;
    while i < n && chars[i] != '/'
        invariant
            i <= n == chars@.len(),
            chars@ == rest@,
            first_slash(rest@, 0) == first_slash(rest@, i as int),
        decreases n - i,
    {
        i += 1;
    }
    if i >= n {
        return None;
    }
    let encoded = text_of_range(chars.as_slice(), i, n);
    assert(rest@.subrange(i as int, n as int) =~= rest@.skip(i as int));
    match percent_decode(encoded.as_str()) {
        Some(text) => Some(FsPath::from_text(text.as_str())),
        None => None,
    }
}

// ---------------------------------------------------------------------------------------------
// What holds of URIs

proof fn lemma_plain_bytes(bytes: Seq<u8>)
    requires
        !bytes.contains(PERCENT),
    ensures
        unescaped(bytes) == Some(bytes),
    decreases bytes.len(),
{
    if bytes.len() > 0 {
        assert(bytes.contains(bytes[0]));
        let rest = bytes.skip(1);
        assert(!rest.contains(PERCENT)) by {
            if rest.contains(PERCENT) {
                let k = rest.index_of(PERCENT);
                assert(bytes[k + 1] == PERCENT);
            }
        }
        lemma_plain_bytes(rest);
        assert(seq![bytes[0]] + rest =~= bytes);
    } else {
        assert(bytes =~= Seq::<u8>::empty());
    }
}

/// The bytes of two texts in a row are the bytes of the one and then those of the other.
proof fn lemma_bytes_of_two(a: Seq<char>, b: Seq<char>)
    ensures
        encode_utf8(a + b) == encode_utf8(a) + encode_utf8(b),
    decreases a.len(),
{
    if a.len() == 0 {
        assert(a + b =~= b);
        assert(encode_utf8(a) + encode_utf8(b) =~= encode_utf8(b));
    } else {
        let rest = a.drop_first();
        lemma_bytes_of_two(rest, b);
        assert((a + b).drop_first() =~= rest + b);
        assert(encode_utf8(a + b) =~= encode_utf8(a) + encode_utf8(b));
    }
}

/// Only a percent sign has the byte of a percent sign.
proof fn lemma_percent_byte(c: char)
    requires
        c != '%',
    ensures
        !encode_scalar(c as u32).contains(PERCENT),
{
    let n = c as u32;
    char_is_scalar(c);
    assert(n <= 0x7f ==> (n & 0x7f) as u8 == n) by (bit_vector);
    assert((0xc0 | ((n >> 6) & 0x1f) as u8) >= 0x80) by (bit_vector);
    assert((0xe0 | ((n >> 12) & 0x0f) as u8) >= 0x80) by (bit_vector);
    assert((0xf0 | ((n >> 18) & 0x7) as u8) >= 0x80) by (bit_vector);
    assert((0x80 | (n & 0x3f) as u8) >= 0x80) by (bit_vector);
    assert((0x80 | ((n >> 6) & 0x3f) as u8) >= 0x80) by (bit_vector);
    assert((0x80 | ((n >> 12) & 0x3f) as u8) >= 0x80) by (bit_vector);
    let bytes = encode_scalar(n);
    assert forall|i: int| 0 <= i < bytes.len() implies #[trigger] bytes[i] != PERCENT by {}
}

proof fn lemma_no_percent_byte(text: Seq<char>)
    requires
        !text.contains('%'),
    ensures
        !encode_utf8(text).contains(PERCENT),
    decreases text.len(),
{
    if text.len() > 0 {
        let rest = text.drop_first();
        assert(text.contains(text[0]));
        assert(!rest.contains('%')) by {
            if rest.contains('%') {
                let k = rest.index_of('%');
                assert(text[k + 1] == '%');
            }
        }
        lemma_percent_byte(text[0]);
        lemma_no_percent_byte(rest);
        let (first, others) = (encode_scalar(text[0] as u32), encode_utf8(rest));
        if encode_utf8(text).contains(PERCENT) {
            let k = encode_utf8(text).index_of(PERCENT);
            if k < first.len() {
                assert(first[k] == PERCENT);
            } else {
                assert(others[k - first.len()] == PERCENT);
            }
        }
    }
}

proof fn lemma_unescaped_of_two(a: Seq<u8>, b: Seq<u8>)
    requires
        unescaped(a) is Some,
    ensures
        unescaped(a + b) == match unescaped(b) {
            Some(rest) => Some(unescaped(a).unwrap() + rest),
            None => None,
        },
    decreases a.len(),
{
    let whole = a + b;
    if a.len() == 0 {
        assert(whole =~= b);
        if unescaped(b) is Some {
            assert(Seq::<u8>::empty() + unescaped(b).unwrap() =~= unescaped(b).unwrap());
        }
    } else {
        let n: int = if a[0] == PERCENT {
            3
        } else {
            1
        };
        assert(whole.skip(n) =~= a.skip(n) + b);
        assert(whole[0] == a[0]);
        if a[0] == PERCENT {
            assert(whole[1] == a[1] && whole[2] == a[2]);
        }
        lemma_unescaped_of_two(a.skip(n), b);
        if unescaped(b) is Some {
            let (own, rest) = (unescaped(a.skip(n)).unwrap(), unescaped(b).unwrap());
            let first = seq![unescaped(a).unwrap()[0]];
            assert(first + (own + rest) =~= (first + own) + rest);
        }
    }
}

/// A text without a percent sign stands for itself.
pub proof fn a_plain_text_stands_for_itself(text: Seq<char>)
    requires
        !text.contains('%'),
    ensures
        unescaped_text(text) == Some(encode_utf8(text)),
{
    lemma_no_percent_byte(text);
    lemma_plain_bytes(encode_utf8(text));
    encode_utf8_valid_utf8(text);
}

/// Escapes are read piece by piece: two texts in a row stand for what the one stands for,
/// followed by what the other stands for.
pub proof fn escapes_are_read_piece_by_piece(a: Seq<char>, b: Seq<char>)
    requires
        unescaped_text(a) is Some,
        unescaped_text(b) is Some,
    ensures
        unescaped_text(a + b) == Some(unescaped_text(a).unwrap() + unescaped_text(b).unwrap()),
{
    lemma_bytes_of_two(a, b);
    lemma_unescaped_of_two(encode_utf8(a), encode_utf8(b));
    valid_utf8_concat(unescaped_text(a).unwrap(), unescaped_text(b).unwrap());
}

/// A byte is written at a position: a percent sign and two hexadecimal digits, in small letters
/// or in capitals.
pub open spec fn is_escape_at(escaped: Seq<u8>, at: int, byte: u8) -> bool {
    &&& escaped[at] == PERCENT
    &&& hex_digit(escaped[at + 1]) == Some(byte as int / 16)
    &&& hex_digit(escaped[at + 2]) == Some(byte as int % 16)
}

/// Every byte is written as an escape, one behind the other.
pub open spec fn is_escape_of(escaped: Seq<u8>, bytes: Seq<u8>) -> bool {
    &&& escaped.len() == 3 * bytes.len()
    &&& forall|i: int| 0 <= i < bytes.len() ==> is_escape_at(escaped, 3 * i, #[trigger] bytes[i])
}

proof fn lemma_escape(escaped: Seq<u8>, bytes: Seq<u8>)
    requires
        is_escape_of(escaped, bytes),
    ensures
        unescaped(escaped) == Some(bytes),
    decreases bytes.len(),
{
    if bytes.len() == 0 {
        assert(bytes =~= Seq::<u8>::empty());
    } else {
        let (later, rest) = (escaped.skip(3), bytes.skip(1));
        let first = bytes[0];
        assert(is_escape_at(escaped, 0, first));
        assert forall|i: int| 0 <= i < rest.len() implies is_escape_at(
            later,
            3 * i,
            #[trigger] rest[i],
        ) by {
            assert(rest[i] == bytes[i + 1]);
            assert(is_escape_at(escaped, 3 * (i + 1), bytes[i + 1]));
        }
        lemma_escape(later, rest);
        assert(hex_pair(escaped[1], escaped[2]) == Some(first as int));
        assert(seq![first] + rest =~= bytes);
    }
}

/// Escaping is undone: a text in which every byte of another one is escaped stands for that one.
pub proof fn escaping_is_undone(escaped: Seq<char>, text: Seq<char>)
    requires
        is_escape_of(encode_utf8(escaped), encode_utf8(text)),
    ensures
        unescaped_text(escaped) == Some(encode_utf8(text)),
{
    lemma_escape(encode_utf8(escaped), encode_utf8(text));
    encode_utf8_valid_utf8(text);
}

/// A path without a percent sign is its own escaped form: the URI `file://` followed by it
/// leads to it.
pub proof fn a_plain_uri_leads_to_its_path(path: Seq<char>)
    requires
        path.len() > 0,
        path[0] == '/',
        !path.contains('%'),
    ensures
        path_behind("file://"@ + path) == Some(encode_utf8(path)),
{
    let uri = "file://"@ + path;
    let n = "file://"@.len() as int;
    assert(uri.skip(n) =~= path);
    assert("file://"@.is_prefix_of(uri)) by {
        assert(uri.subrange(0, n) =~= "file://"@);
    }
    assert(first_slash(path, 0) == Some(0int));
    assert(path.skip(0) =~= path);
    a_plain_text_stands_for_itself(path);
}

/// Only a URI of the scheme `file` leads to a path.
pub proof fn another_scheme_leads_nowhere(uri: Seq<char>)
    requires
        !"file://"@.is_prefix_of(uri),
    ensures
        path_behind(uri) is None,
{
}

/// A path behind a URI is readable: its bytes are UTF-8.
pub proof fn a_path_behind_a_uri_is_text(uri: Seq<char>)
    ensures
        match path_behind(uri) {
            Some(path) => valid_utf8(path),
            None => true,
        },
{
}

/// An escape is a percent sign and the two hexadecimal digits of a byte, in capitals or in small
/// letters.
pub proof fn an_escape_is_two_digits(byte: u8, rest: Seq<u8>)
    requires
        unescaped(rest) is Some,
    ensures
        ({
            let (high, low) = (byte as int / 16, byte as int % 16);
            let capital = |n: int|
                (if n < 10 {
                    48 + n
                } else {
                    55 + n
                }) as u8;
            let small = |n: int|
                (if n < 10 {
                    48 + n
                } else {
                    87 + n
                }) as u8;
            let decoded = Some(seq![byte] + unescaped(rest).unwrap());
            &&& unescaped(seq![37u8, capital(high), capital(low)] + rest) == decoded
            &&& unescaped(seq![37u8, small(high), small(low)] + rest) == decoded
            &&& byte < 16 ==> unescaped(seq![37u8, 43u8, small(low)] + rest) == decoded
        }),
{
    let (high, low) = (byte as int / 16, byte as int % 16);
    let capital = |n: int|
        (if n < 10 {
            48 + n
        } else {
            55 + n
        }) as u8;
    let small = |n: int|
        (if n < 10 {
            48 + n
        } else {
            87 + n
        }) as u8;
    let one = seq![37u8, capital(high), capital(low)] + rest;
    let two = seq![37u8, small(high), small(low)] + rest;
    let three = seq![37u8, 43u8, small(low)] + rest;
    assert(one.skip(3) =~= rest);
    assert(two.skip(3) =~= rest);
    assert(three.skip(3) =~= rest);
    assert(hex_pair(one[1], one[2]) == Some(byte as int));
    assert(hex_pair(two[1], two[2]) == Some(byte as int));
    assert(byte < 16 ==> hex_pair(three[1], three[2]) == Some(byte as int));
}

/// A percent sign that no two digits follow makes a text unreadable.
pub proof fn a_lone_percent_sign_cannot_be_read(bytes: Seq<u8>)
    requires
        bytes.len() > 0,
        bytes[0] == 37,
        bytes.len() < 3 || !(48 <= bytes[2] <= 57 || 65 <= bytes[2] <= 70 || 97 <= bytes[2] <= 102),
    ensures
        unescaped(bytes) is None,
{
}

proof fn lemma_first_slash(s: Seq<char>, i: int, from: int)
    requires
        0 <= from <= i < s.len(),
        s[i] == '/',
        forall|k: int| 0 <= k < i ==> #[trigger] s[k] != '/',
    ensures
        first_slash(s, from) == Some(i),
    decreases i - from,
{
    if from < i {
        assert(s[from] != '/');
        lemma_first_slash(s, i, from + 1);
    }
}

/// A host name between `file://` and the path makes no difference.
pub proof fn a_host_makes_no_difference(host: Seq<char>, path: Seq<char>)
    requires
        !host.contains('/'),
        path.len() > 0,
        path[0] == '/',
        !path.contains('%'),
    ensures
        path_behind("file://"@ + host + path) == Some(encode_utf8(path)),
{
    reveal_strlit("file://");
    let uri = "file://"@ + host + path;
    assert("file://"@.is_prefix_of(uri)) by {
        assert(uri.subrange(0, 7) =~= "file://"@);
    }
    let rest = uri.skip(7);
    assert(rest =~= host + path);
    assert forall|k: int| 0 <= k < host.len() implies #[trigger] rest[k] != '/' by {
        assert(rest[k] == host[k]);
    }
    assert(rest[host.len() as int] == path[0]);
    lemma_first_slash(rest, host.len() as int, 0);
    assert(rest.skip(host.len() as int) =~= path);
    a_plain_text_stands_for_itself(path);
}

} // verus!
