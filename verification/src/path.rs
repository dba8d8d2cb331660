//! File system paths: their bytes, and the parts those bytes name.
//!
//! A path is kept as it was written. Two paths are the same place when their parts are the
//! same: repeated and trailing separators do not count, and neither does a `.` that does not
//! stand at the very start.

use vstd::prelude::*;
use vstd::utf8::*;

verus! {

pub const SLASH: u8 = 47;

pub const DOT: u8 = 46;

/// One part of a path.
pub enum Part<N> {
    /// The `/` that an absolute path starts with.
    Root,
    /// A `.` at the start of a relative path.
    Here,
    /// A `..`.
    Up,
    /// The name of a file or a directory.
    Name(N),
}

/// A path as it was written.
pub struct FsPath {
    pub raw: Vec<u8>,
}

impl View for FsPath {
    type V = Seq<u8>;

    open spec fn view(&self) -> Seq<u8> {
        self.raw@
    }
}

// ---------------------------------------------------------------------------------------------
// The parts of a path

/// What stands between the separators.
pub open spec fn segments(p: Seq<u8>) -> Seq<Seq<u8>>
    decreases p.len(),
{
    if p.len() == 0 {
        seq![Seq::<u8>::empty()]
    } else {
        let before = segments(p.drop_last());
        if p.last() == SLASH {
            before.push(Seq::<u8>::empty())
        } else {
            before.drop_last().push(before.last().push(p.last()))
        }
    }
}

/// The part that a segment is, given whether it is the first one.
pub open spec fn part_of(segment: Seq<u8>, first: bool) -> Option<Part<Seq<u8>>> {
    if segment.len() == 0 {
        None
    } else if segment == seq![DOT] {
        if first {
            Some(Part::Here)
        } else {
            None
        }
    } else if segment == seq![DOT, DOT] {
        Some(Part::Up)
    } else {
        Some(Part::Name(segment))
    }
}

pub open spec fn parts_of_segments(segments: Seq<Seq<u8>>) -> Seq<Part<Seq<u8>>>
    decreases segments.len(),
{
    if segments.len() == 0 {
        Seq::empty()
    } else {
        let before = parts_of_segments(segments.drop_last());
        match part_of(segments.last(), segments.len() == 1) {
            Some(part) => before.push(part),
            None => before,
        }
    }
}

pub open spec fn is_absolute(p: Seq<u8>) -> bool {
    p.len() > 0 && p[0] == SLASH
}

/// The parts of a path.
pub open spec fn parts(p: Seq<u8>) -> Seq<Part<Seq<u8>>> {
    if is_absolute(p) {
        seq![Part::<Seq<u8>>::Root] + parts_of_segments(segments(p))
    } else {
        parts_of_segments(segments(p))
    }
}

/// Two paths name the same place.
pub open spec fn same_path(a: Seq<u8>, b: Seq<u8>) -> bool {
    parts(a) == parts(b)
}

/// `prefix` is `p` or a directory above it.
pub open spec fn path_starts_with(p: Seq<u8>, prefix: Seq<u8>) -> bool {
    parts(prefix).is_prefix_of(parts(p))
}

// ---------------------------------------------------------------------------------------------
// Building paths

pub open spec fn join_path(a: Seq<u8>, b: Seq<u8>) -> Seq<u8> {
    if is_absolute(b) {
        b
    } else if a.len() > 0 && a.last() != SLASH {
        a.push(SLASH) + b
    } else {
        a + b
    }
}

pub open spec fn part_bytes(part: Part<Seq<u8>>) -> Seq<u8> {
    match part {
        Part::Root => seq![SLASH],
        Part::Here => seq![DOT],
        Part::Up => seq![DOT, DOT],
        Part::Name(name) => name,
    }
}

/// The shortest start of a path, of `n` bytes or more, that has the given parts.
pub open spec fn start_with_parts(p: Seq<u8>, list: Seq<Part<Seq<u8>>>, n: int) -> Seq<u8>
    decreases p.len() - n,
{
    if n >= p.len() || parts(p.take(n)) == list {
        p.take(n)
    } else {
        start_with_parts(p, list, n + 1)
    }
}

/// A path without the separators, and the dots between them, that it ends in.
pub open spec fn trimmed(p: Seq<u8>) -> Seq<u8> {
    start_with_parts(p, parts(p), 0)
}

/// The shortest end of a path, with the bytes from `i` on at most, that has the given parts.
pub open spec fn end_with_parts(p: Seq<u8>, list: Seq<Part<Seq<u8>>>, i: int) -> Seq<u8>
    decreases i,
{
    if i <= 0 || parts(p.skip(i)) == list {
        p.skip(i)
    } else {
        end_with_parts(p, list, i - 1)
    }
}

/// What is left of a path behind its first `n` parts, as the path spells it.
pub open spec fn remainder(p: Seq<u8>, n: int) -> Seq<u8> {
    let own = trimmed(p);
    if n <= 0 {
        own
    } else {
        end_with_parts(own, parts(p).skip(n), own.len() as int)
    }
}

/// The directory a path stands in, as the path spells it. A root and an empty path have none.
pub open spec fn parent_of(p: Seq<u8>) -> Option<Seq<u8>> {
    let list = parts(p);
    if list.len() == 0 || list.last() is Root {
        None
    } else {
        Some(start_with_parts(p, list.drop_last(), 0))
    }
}

/// The last part, where it is a name.
pub open spec fn file_name_of(p: Seq<u8>) -> Option<Seq<u8>> {
    let list = parts(p);
    if list.len() > 0 {
        match list.last() {
            Part::Name(name) => Some(name),
            _ => None,
        }
    } else {
        None
    }
}

/// The position of the last dot of a name, where it has one.
pub open spec fn last_dot(name: Seq<u8>) -> Option<int>
    decreases name.len(),
{
    if name.len() == 0 {
        None
    } else if name.last() == DOT {
        Some(name.len() - 1)
    } else {
        last_dot(name.drop_last())
    }
}

/// A name without its extension. A leading dot starts no extension.
pub open spec fn stem(name: Seq<u8>) -> Seq<u8> {
    match last_dot(name) {
        Some(i) => if i > 0 {
            name.take(i)
        } else {
            name
        },
        None => name,
    }
}

pub open spec fn extension(name: Seq<u8>) -> Option<Seq<u8>> {
    match last_dot(name) {
        Some(i) => if i > 0 {
            Some(name.skip(i + 1))
        } else {
            None
        },
        None => None,
    }
}

/// The path in the same directory with another name.
pub open spec fn with_file_name(p: Seq<u8>, name: Seq<u8>) -> Seq<u8> {
    let directory = if file_name_of(p) is Some {
        parent_of(p).unwrap()
    } else {
        p
    };
    join_path(directory, name)
}

/// The path with another extension in the place of its own, or with none where it is empty; a
/// path without a name stays as it is.
pub open spec fn with_extension(p: Seq<u8>, ext: Seq<u8>) -> Seq<u8> {
    match file_name_of(p) {
        Some(name) => {
            let own = trimmed(p);
            let start = own.take(own.len() - name.len() + stem(name).len());
            if ext.len() == 0 {
                start
            } else {
                start.push(DOT) + ext
            }
        },
        None => p,
    }
}

// ---------------------------------------------------------------------------------------------
// Facts

proof fn lemma_segments_not_empty(p: Seq<u8>)
    ensures
        segments(p).len() >= 1,
    decreases p.len(),
{
    if p.len() > 0 {
        lemma_segments_not_empty(p.drop_last());
    }
}

proof fn lemma_segments_of_two(a: Seq<u8>, b: Seq<u8>)
    ensures
        segments(a.push(SLASH) + b) == segments(a) + segments(b),
    decreases b.len(),
{
    let whole = a.push(SLASH) + b;
    if b.len() == 0 {
        assert(whole.drop_last() =~= a);
        assert(segments(whole) =~= segments(a) + segments(b));
    } else {
        lemma_segments_of_two(a, b.drop_last());
        lemma_segments_not_empty(b.drop_last());
        assert(whole.drop_last() =~= a.push(SLASH) + b.drop_last());
        assert(whole.last() == b.last());
        let before = segments(b.drop_last());
        assert((segments(a) + before).drop_last() =~= segments(a) + before.drop_last());
        assert((segments(a) + before).last() == before.last());
        assert(segments(whole) =~= segments(a) + segments(b));
    }
}

/// A run of parts without a leading `.`.
pub open spec fn without_here(list: Seq<Part<Seq<u8>>>) -> Seq<Part<Seq<u8>>> {
    if list.len() > 0 && list[0] is Here {
        list.skip(1)
    } else {
        list
    }
}

proof fn lemma_parts_of_two(a: Seq<Seq<u8>>, b: Seq<Seq<u8>>)
    requires
        a.len() >= 1,
        b.len() >= 1,
    ensures
        parts_of_segments(a + b) == parts_of_segments(a) + without_here(parts_of_segments(b)),
    decreases b.len(),
{
    let whole = a + b;
    assert(whole.drop_last() =~= a + b.drop_last());
    assert(whole.last() == b.last());
    if b.len() == 1 {
        assert(b.drop_last() =~= Seq::<Seq<u8>>::empty());
        assert(a + b.drop_last() =~= a);
        assert(parts_of_segments(b.drop_last()) =~= Seq::<Part<Seq<u8>>>::empty());
        assert(parts_of_segments(whole) =~= parts_of_segments(a) + without_here(
            parts_of_segments(b),
        ));
    } else {
        lemma_parts_of_two(a, b.drop_last());
        let before = parts_of_segments(b.drop_last());
        match part_of(b.last(), false) {
            Some(part) => {
                assert(!(part is Here));
                assert(without_here(before.push(part)) =~= without_here(before).push(part));
            },
            None => {},
        }
        assert(parts_of_segments(whole) =~= parts_of_segments(a) + without_here(
            parts_of_segments(b),
        ));
    }
}

proof fn lemma_no_root_in_segments(s: Seq<Seq<u8>>)
    ensures
        forall|i: int|
            0 <= i < parts_of_segments(s).len() ==> !(#[trigger] parts_of_segments(s)[i] is Root),
        forall|i: int|
            1 <= i < parts_of_segments(s).len() ==> !(#[trigger] parts_of_segments(s)[i] is Here),
    decreases s.len(),
{
    if s.len() > 0 {
        lemma_no_root_in_segments(s.drop_last());
        if s.len() == 1 {
            assert(parts_of_segments(s.drop_last()).len() == 0);
        }
    }
}

/// A `/` stands only at the start of a path, and so does a `.`.
pub proof fn parts_start(p: Seq<u8>)
    ensures
        forall|i: int| 1 <= i < parts(p).len() ==> !(#[trigger] parts(p)[i] is Root),
        forall|i: int| 1 <= i < parts(p).len() ==> !(#[trigger] parts(p)[i] is Here),
        is_absolute(p) <==> parts(p).len() > 0 && parts(p)[0] is Root,
{
    lemma_no_root_in_segments(segments(p));
    if is_absolute(p) {
        lemma_first_segment_empty(p);
        lemma_parts_of_absolute(segments(p));
    }
}

proof fn lemma_first_segment_empty(p: Seq<u8>)
    requires
        is_absolute(p),
    ensures
        segments(p).len() >= 2,
        segments(p)[0].len() == 0,
    decreases p.len(),
{
    lemma_segments_not_empty(p.drop_last());
    if p.len() == 1 {
        assert(p.drop_last() =~= Seq::<u8>::empty());
    } else {
        lemma_first_segment_empty(p.drop_last());
    }
}

proof fn lemma_parts_of_absolute(s: Seq<Seq<u8>>)
    requires
        s.len() >= 1,
        s[0].len() == 0,
    ensures
        forall|i: int|
            0 <= i < parts_of_segments(s).len() ==> !(#[trigger] parts_of_segments(s)[i] is Here),
    decreases s.len(),
{
    if s.len() > 1 {
        lemma_parts_of_absolute(s.drop_last());
    } else {
        assert(parts_of_segments(s.drop_last()).len() == 0);
    }
}

/// An empty path has no parts.
pub proof fn parts_of_nothing()
    ensures
        parts_of_segments(segments(Seq::<u8>::empty())) == Seq::<Part<Seq<u8>>>::empty(),
        parts(Seq::<u8>::empty()) == Seq::<Part<Seq<u8>>>::empty(),
{
    let only = segments(Seq::<u8>::empty());
    assert(only.drop_last() =~= Seq::<Seq<u8>>::empty());
    assert(parts_of_segments(only.drop_last()) =~= Seq::<Part<Seq<u8>>>::empty());
    assert(part_of(only.last(), true) is None);
}

/// Joining a relative path appends its parts, a leading `.` aside.
pub proof fn parts_of_join(a: Seq<u8>, b: Seq<u8>)
    requires
        a.len() > 0,
        !is_absolute(b),
    ensures
        parts(join_path(a, b)) == parts(a) + without_here(parts(b)),
{
    lemma_segments_not_empty(b);
    if a.last() != SLASH {
        lemma_segments_not_empty(a);
        lemma_segments_of_two(a, b);
        lemma_parts_of_two(segments(a), segments(b));
        assert(is_absolute(join_path(a, b)) == is_absolute(a));
    } else {
        let front = a.drop_last();
        assert(front.push(SLASH) =~= a);
        assert(front.push(SLASH) + Seq::<u8>::empty() =~= a);
        lemma_segments_not_empty(front);
        lemma_segments_of_two(front, b);
        lemma_segments_of_two(front, Seq::empty());
        lemma_parts_of_two(segments(front), segments(b));
        lemma_parts_of_two(segments(front), segments(Seq::<u8>::empty()));
        parts_of_nothing();
        assert(parts_of_segments(segments(a)) =~= parts_of_segments(segments(front)));
        assert(join_path(a, b) =~= front.push(SLASH) + b);
        assert(is_absolute(join_path(a, b)) == is_absolute(a));
    }
    assert(parts(join_path(a, b)) =~= parts(a) + without_here(parts(b)));
}

/// The path `/` has one part.
pub proof fn parts_of_root()
    ensures
        parts(seq![SLASH]) == seq![Part::<Seq<u8>>::Root],
{
    assert(is_parts(seq![Part::<Seq<u8>>::Root]));
    lemma_one_part(Part::Root);
}

/// A name that can stand between two separators and is neither `.` nor `..`.
pub open spec fn is_name(name: Seq<u8>) -> bool {
    name.len() > 0 && !name.contains(SLASH) && name != seq![DOT] && name != seq![DOT, DOT]
}

/// A run of parts that some path has.
pub open spec fn is_parts(list: Seq<Part<Seq<u8>>>) -> bool {
    forall|i: int|
        0 <= i < list.len() ==> match #[trigger] list[i] {
            Part::Root => i == 0,
            Part::Here => i == 0,
            Part::Up => true,
            Part::Name(name) => is_name(name),
        }
}

proof fn lemma_segments_hold_no_slash(p: Seq<u8>)
    ensures
        forall|i: int| 0 <= i < segments(p).len() ==> !(#[trigger] segments(p)[i]).contains(SLASH),
    decreases p.len(),
{
    if p.len() > 0 {
        let before = segments(p.drop_last());
        lemma_segments_hold_no_slash(p.drop_last());
        lemma_segments_not_empty(p.drop_last());
        assert forall|i: int| 0 <= i < segments(p).len() implies !(#[trigger] segments(
            p,
        )[i]).contains(SLASH) by {
            let piece = segments(p)[i];
            if i < before.len() - 1 || (p.last() == SLASH && i < before.len()) {
                assert(piece == before[i]);
            } else if p.last() != SLASH {
                assert(!before.last().contains(SLASH));
                if piece.contains(SLASH) {
                    let k = piece.index_of(SLASH);
                    assert(before.last()[k] == SLASH);
                }
            }
        }
    }
}

proof fn lemma_names_of_segments(s: Seq<Seq<u8>>)
    requires
        forall|i: int| 0 <= i < s.len() ==> !(#[trigger] s[i]).contains(SLASH),
    ensures
        forall|i: int|
            0 <= i < parts_of_segments(s).len() ==> match #[trigger] parts_of_segments(s)[i] {
                Part::Name(name) => is_name(name),
                _ => true,
            },
    decreases s.len(),
{
    if s.len() > 0 {
        lemma_names_of_segments(s.drop_last());
        assert(!s.last().contains(SLASH));
    }
}

/// The parts of a path are a run of parts that some path has.
pub proof fn parts_are_parts(p: Seq<u8>)
    ensures
        is_parts(parts(p)),
{
    parts_start(p);
    lemma_segments_hold_no_slash(p);
    lemma_names_of_segments(segments(p));
    let list = parts(p);
    let inner = parts_of_segments(segments(p));
    assert forall|i: int| 0 <= i < list.len() implies match #[trigger] list[i] {
        Part::Root => i == 0,
        Part::Here => i == 0,
        Part::Up => true,
        Part::Name(name) => is_name(name),
    } by {
        if is_absolute(p) {
            if i > 0 {
                assert(list[i] == inner[i - 1]);
            }
        } else {
            assert(list[i] == inner[i]);
        }
    }
}

proof fn lemma_one_segment(name: Seq<u8>)
    requires
        !name.contains(SLASH),
    ensures
        segments(name) == seq![name],
    decreases name.len(),
{
    if name.len() > 0 {
        assert forall|i: int| 0 <= i < name.drop_last().len() implies name.drop_last()[i]
            != SLASH by {
            assert(name.contains(name[i]));
        }
        lemma_one_segment(name.drop_last());
        assert(name.contains(name.last()));
        assert(name.drop_last().push(name.last()) =~= name);
        assert(segments(name) =~= seq![name]);
    } else {
        assert(name =~= Seq::<u8>::empty());
    }
}

proof fn lemma_one_part(part: Part<Seq<u8>>)
    requires
        is_parts(seq![part]),
    ensures
        parts(part_bytes(part)) == seq![part],
        is_absolute(part_bytes(part)) == (part is Root),
        part_bytes(part).len() > 0,
{
    let bytes = part_bytes(part);
    let list = seq![part];
    assert(list[0] == part);
    match part {
        Part::Root => {
            parts_of_nothing();
            assert(bytes =~= Seq::<u8>::empty().push(SLASH) + Seq::<u8>::empty());
            lemma_segments_of_two(Seq::empty(), Seq::empty());
            lemma_segments_not_empty(Seq::empty());
            lemma_parts_of_two(segments(Seq::<u8>::empty()), segments(Seq::<u8>::empty()));
            assert(parts(bytes) =~= seq![part]);
        },
        _ => {
            assert(!bytes.contains(SLASH)) by {
                if bytes.contains(SLASH) {
                    let k = bytes.index_of(SLASH);
                    assert(bytes[k] == SLASH);
                }
            }
            assert(!is_absolute(bytes)) by {
                if is_absolute(bytes) {
                    assert(bytes.contains(bytes[0]));
                }
            }
            lemma_one_segment(bytes);
            let only = segments(bytes);
            assert(only.drop_last() =~= Seq::<Seq<u8>>::empty());
            assert(parts_of_segments(only.drop_last()) =~= Seq::<Part<Seq<u8>>>::empty());
            assert(seq![DOT, DOT] != seq![DOT]) by {
                assert(seq![DOT, DOT].len() != seq![DOT].len());
            }
            assert(part_of(only.last(), true) == Some(part));
            assert(parts(bytes) =~= seq![part]);
        },
    }
}

// ---------------------------------------------------------------------------------------------
// Starts of paths

/// The last segment of a path starts here.
pub open spec fn last_starts_at(p: Seq<u8>, i: int) -> bool {
    &&& 0 <= i <= p.len()
    &&& forall|k: int| i <= k < p.len() ==> #[trigger] p[k] != SLASH
    &&& i == 0 || p[i - 1] == SLASH
}

/// A path whose last segment starts at `i` ends in a part, is a lone root, or is empty.
pub open spec fn is_settled(p: Seq<u8>, i: int) -> bool {
    p.len() == 0 || (p.len() == 1 && is_absolute(p)) || part_of(p.skip(i), i == 0) is Some
}

/// What is before the last segment of a path: the root keeps its separator.
pub open spec fn before_last(p: Seq<u8>, i: int) -> Seq<u8> {
    if i <= 1 {
        p.take(i)
    } else {
        p.take(i - 1)
    }
}

/// The parts of a path are those before its last segment, and the part that this segment is.
proof fn lemma_last_segment(p: Seq<u8>, i: int)
    requires
        last_starts_at(p, i),
    ensures
        parts(p) == match part_of(p.skip(i), i == 0) {
            Some(part) => parts(before_last(p, i)).push(part),
            None => parts(before_last(p, i)),
        },
{
    let last = p.skip(i);
    assert(!last.contains(SLASH)) by {
        if last.contains(SLASH) {
            let k = last.index_of(SLASH);
            assert(p[i + k] == SLASH);
        }
    }
    lemma_one_segment(last);
    parts_of_nothing();
    if i == 0 {
        assert(last =~= p);
        assert(p.take(0) =~= Seq::<u8>::empty());
        assert(!is_absolute(p));
        assert(segments(p).drop_last() =~= Seq::<Seq<u8>>::empty());
        assert(parts_of_segments(segments(p).drop_last()) =~= Seq::<Part<Seq<u8>>>::empty());
    } else {
        let front = p.take(i - 1);
        assert(front.push(SLASH) + last =~= p);
        lemma_segments_of_two(front, last);
        lemma_segments_not_empty(front);
        assert(segments(p) =~= segments(front).push(last));
        assert(segments(p).drop_last() =~= segments(front));
        if i == 1 {
            parts_of_root();
            assert(front =~= Seq::<u8>::empty());
            assert(p.take(1) =~= seq![SLASH]);
        }
        assert(parts(p) =~= match part_of(last, false) {
            Some(part) => parts(before_last(p, i)).push(part),
            None => parts(before_last(p, i)),
        });
    }
}

/// A start of a path has no more parts than the path.
proof fn lemma_starts_have_fewer_parts(p: Seq<u8>, n: int)
    requires
        0 <= n <= p.len(),
    ensures
        parts(p.take(n)).len() <= parts(p).len(),
    decreases p.len() - n,
{
    if n == p.len() {
        assert(p.take(n) =~= p);
    } else {
        let front = p.drop_last();
        assert(front.take(n) =~= p.take(n));
        lemma_starts_have_fewer_parts(front, n);
        lemma_segments_not_empty(front);
        let before = segments(front);
        let after = segments(p);
        if p.last() == SLASH {
            assert(after.drop_last() =~= before);
        } else {
            assert(after.drop_last() =~= before.drop_last());
            let (old_last, new_last) = (before.last(), after.last());
            assert(new_last.len() == old_last.len() + 1);
            if part_of(old_last, before.len() == 1) is Some {
                assert(new_last.len() >= 2);
                assert(part_of(new_last, before.len() == 1) is Some) by {
                    assert(seq![DOT].len() == 1);
                }
            }
            if front.len() == 0 {
                assert(!is_absolute(p));
            }
        }
    }
}

/// A path that ends in a part has its parts only as a whole.
proof fn lemma_no_shorter_start(p: Seq<u8>, i: int, n: int)
    requires
        last_starts_at(p, i),
        part_of(p.skip(i), i == 0) is Some,
        0 <= n < p.len(),
    ensures
        parts(p.take(n)) != parts(p),
{
    lemma_last_segment(p, i);
    if n < i {
        let front = p.take(i);
        assert(last_starts_at(front, i));
        lemma_last_segment(front, i);
        assert(front.skip(i) =~= Seq::<u8>::empty());
        assert(before_last(front, i) =~= before_last(p, i));
        assert(front.take(n) =~= p.take(n));
        lemma_starts_have_fewer_parts(front, n);
    } else {
        let front = p.take(n);
        assert(last_starts_at(front, i));
        lemma_last_segment(front, i);
        assert(before_last(front, i) =~= before_last(p, i));
        let (short, long) = (front.skip(i), p.skip(i));
        assert(short.len() < long.len());
        assert(seq![DOT].len() == 1 && seq![DOT, DOT].len() == 2);
        let base = parts(before_last(p, i));
        match part_of(short, i == 0) {
            Some(part) => {
                assert(part != part_of(long, i == 0).unwrap());
                assert(base.push(part).last() == part);
                assert(parts(p).last() == part_of(long, i == 0).unwrap());
            },
            None => {},
        }
    }
}

/// The shortest start is the one that no shorter one comes before.
proof fn lemma_shortest(p: Seq<u8>, list: Seq<Part<Seq<u8>>>, from: int, n: int)
    requires
        0 <= from <= n <= p.len(),
        parts(p.take(n)) == list,
        forall|k: int| from <= k < n ==> parts(#[trigger] p.take(k)) != list,
    ensures
        start_with_parts(p, list, from) == p.take(n),
    decreases n - from,
{
    if from < n {
        assert(parts(p.take(from)) != list);
        lemma_shortest(p, list, from + 1, n);
    }
}

/// A start that ends in a part, or is a lone root, or is empty, is the shortest with its parts.
proof fn lemma_shortest_start(p: Seq<u8>, n: int, i: int)
    requires
        0 <= n <= p.len(),
        last_starts_at(p.take(n), i),
        is_settled(p.take(n), i),
    ensures
        start_with_parts(p, parts(p.take(n)), 0) == p.take(n),
{
    let own = p.take(n);
    assert forall|k: int| 0 <= k < n implies parts(#[trigger] p.take(k)) != parts(own) by {
        assert(own.take(k) =~= p.take(k));
        if n == 1 && is_absolute(p) {
            parts_of_nothing();
            parts_of_root();
            assert(own =~= seq![SLASH]);
            assert(p.take(k) =~= Seq::<u8>::empty());
        } else {
            lemma_no_shorter_start(own, i, k);
        }
    }
    lemma_shortest(p, parts(own), 0, n);
}

/// The shortest start is a start, and it has the parts that were asked for as soon as some
/// start has them.
proof fn lemma_start_is_a_start(p: Seq<u8>, list: Seq<Part<Seq<u8>>>, from: int, n: int)
    requires
        0 <= from <= n <= p.len(),
        parts(p.take(n)) == list,
    ensures
        ({
            let start = start_with_parts(p, list, from);
            &&& from <= start.len() <= n
            &&& start == p.take(start.len() as int)
            &&& parts(start) == list
            &&& forall|k: int| from <= k < start.len() ==> parts(#[trigger] p.take(k)) != list
        }),
    decreases n - from,
{
    if parts(p.take(from)) != list {
        lemma_start_is_a_start(p, list, from + 1, n);
    }
}

/// Where the last segment of a path starts.
spec fn last_start(p: Seq<u8>) -> int
    decreases p.len(),
{
    if p.len() == 0 || p.last() == SLASH {
        p.len() as int
    } else {
        last_start(p.drop_last())
    }
}

proof fn lemma_last_start(p: Seq<u8>)
    ensures
        last_starts_at(p, last_start(p)),
    decreases p.len(),
{
    if p.len() > 0 && p.last() != SLASH {
        let front = p.drop_last();
        lemma_last_start(front);
        let i = last_start(p);
        assert forall|k: int| i <= k < p.len() implies #[trigger] p[k] != SLASH by {
            if k < front.len() {
                assert(front[k] == p[k]);
            }
        }
        if i > 0 {
            assert(front[i - 1] == p[i - 1]);
        }
    }
}

/// Some start of a path has all its parts but the last one, where it has a last one that is no
/// root.
proof fn lemma_some_parent(p: Seq<u8>) -> (n: int)
    requires
        parts(p).len() > 0,
        !(parts(p).last() is Root),
    ensures
        0 <= n <= p.len(),
        parts(p.take(n)) == parts(p).drop_last(),
    decreases p.len(),
{
    let i = last_start(p);
    lemma_last_start(p);
    lemma_last_segment(p, i);
    let front = before_last(p, i);
    match part_of(p.skip(i), i == 0) {
        Some(part) => {
            assert(parts(p).drop_last() =~= parts(front));
            front.len() as int
        },
        None => {
            if front.len() == p.len() {
                assert(front =~= p);
                parts_of_nothing();
                parts_of_root();
                assert(i == 0 || p =~= seq![SLASH]);
                assert(false);
            }
            let n = lemma_some_parent(front);
            assert(front.take(n) =~= p.take(n));
            n
        },
    }
}

proof fn lemma_no_root_in_segment(segment: Seq<u8>, first: bool)
    ensures
        part_of(segment, first) matches Some(part) ==> !(part is Root),
{
}

/// A path that ends in a part, which is a name, ends in the bytes of that name.
proof fn lemma_ends_in_its_name(p: Seq<u8>, i: int)
    requires
        last_starts_at(p, i),
        is_settled(p, i),
        file_name_of(p) is Some,
    ensures
        file_name_of(p) == Some(p.skip(i)),
        stem(p.skip(i)).len() <= p.len() - i,
{
    lemma_last_segment(p, i);
    parts_of_nothing();
    parts_of_root();
    if p.len() == 0 {
        assert(p =~= Seq::<u8>::empty());
    } else if p.len() == 1 && is_absolute(p) {
        assert(p =~= seq![SLASH]);
    }
    lemma_dot_is_inside(p.skip(i));
}

proof fn lemma_dot_is_inside(name: Seq<u8>)
    ensures
        last_dot(name) matches Some(i) ==> 0 <= i < name.len(),
    decreases name.len(),
{
    if name.len() > 0 {
        lemma_dot_is_inside(name.drop_last());
    }
}

/// The directory that a path stands in is a start of it, and it has all parts but the last.
pub proof fn a_parent_is_a_start(p: Seq<u8>)
    requires
        parent_of(p) is Some,
    ensures
        parent_of(p).unwrap().is_prefix_of(p),
        parts(parent_of(p).unwrap()) == parts(p).drop_last(),
{
    let n = lemma_some_parent(p);
    lemma_start_is_a_start(p, parts(p).drop_last(), 0, n);
    let dir = parent_of(p).unwrap();
    assert(dir =~= p.subrange(0, dir.len() as int));
}

/// A path that is a mere name has that name.
pub proof fn a_name_is_its_file_name(name: Seq<u8>)
    requires
        is_name(name),
    ensures
        file_name_of(name) == Some(name),
{
    let part = Part::<Seq<u8>>::Name(name);
    let one = seq![part];
    assert(one[0] == part);
    assert(is_parts(one));
    lemma_one_part(part);
}

/// A name in the directory of a path stands in that directory, spelled in the same way.
pub proof fn a_neighbour_has_the_same_parent(p: Seq<u8>, name: Seq<u8>)
    requires
        parent_of(p) is Some,
        is_name(name),
    ensures
        parent_of(join_path(parent_of(p).unwrap(), name)) == parent_of(p),
        file_name_of(join_path(parent_of(p).unwrap(), name)) == Some(name),
{
    let dir = parent_of(p).unwrap();
    let list = parts(p).drop_last();
    let whole = join_path(dir, name);
    let n = lemma_some_parent(p);
    lemma_start_is_a_start(p, list, 0, n);
    let part = Part::<Seq<u8>>::Name(name);
    let one = seq![part];
    assert(one[0] == part);
    assert(is_parts(one));
    lemma_one_part(part);
    if dir.len() == 0 {
        parts_of_nothing();
        assert(dir =~= Seq::<u8>::empty());
        assert(whole =~= name);
        assert(parts(whole).drop_last() =~= list);
        assert(whole.take(0) =~= dir);
    } else {
        parts_of_join(dir, name);
        assert(without_here(one) =~= one);
        assert(parts(whole) =~= list.push(part));
        assert(parts(whole).drop_last() =~= list);
        assert(whole.take(dir.len() as int) =~= dir);
    }
    assert forall|k: int| 0 <= k < dir.len() implies parts(#[trigger] whole.take(k)) != list by {
        assert(whole.take(k) =~= p.take(k));
    }
    lemma_shortest(whole, list, 0, dir.len() as int);
}

// ---------------------------------------------------------------------------------------------
// Ends of paths

/// The parts of a path that stands behind others: neither a separator nor a dot at its start
/// counts.
pub open spec fn inner_parts(p: Seq<u8>) -> Seq<Part<Seq<u8>>> {
    without_here(parts_of_segments(segments(p)))
}

/// The part that a segment behind others is, if it is one.
pub open spec fn inner_part(segment: Seq<u8>) -> Seq<Part<Seq<u8>>> {
    match part_of(segment, false) {
        Some(part) => seq![part],
        None => Seq::empty(),
    }
}

/// The first segment of a path ends here.
pub open spec fn first_ends_at(p: Seq<u8>, e: int) -> bool {
    &&& 0 <= e <= p.len()
    &&& forall|k: int| 0 <= k < e ==> #[trigger] p[k] != SLASH
    &&& e == p.len() || p[e] == SLASH
}

/// What is behind the first segment.
pub open spec fn behind_first(p: Seq<u8>, e: int) -> Seq<u8> {
    if e < p.len() {
        p.skip(e + 1)
    } else {
        Seq::empty()
    }
}

proof fn lemma_first_segment(p: Seq<u8>, e: int)
    requires
        first_ends_at(p, e),
    ensures
        inner_parts(p) == inner_part(p.take(e)) + inner_parts(behind_first(p, e)),
        parts_of_segments(segments(p)) == (match part_of(p.take(e), true) {
            Some(part) => seq![part],
            None => Seq::empty(),
        }) + inner_parts(behind_first(p, e)),
{
    let first = p.take(e);
    assert(!first.contains(SLASH)) by {
        if first.contains(SLASH) {
            let k = first.index_of(SLASH);
            assert(p[k] == SLASH);
        }
    }
    lemma_one_segment(first);
    parts_of_nothing();
    let one = seq![first];
    assert(one.drop_last() =~= Seq::<Seq<u8>>::empty());
    assert(parts_of_segments(one.drop_last()) =~= Seq::<Part<Seq<u8>>>::empty());
    let own = match part_of(first, true) {
        Some(part) => seq![part],
        None => Seq::<Part<Seq<u8>>>::empty(),
    };
    assert(parts_of_segments(one) =~= own);
    let rest = behind_first(p, e);
    let others = inner_parts(rest);
    lemma_no_root_in_segments(segments(rest));
    assert(without_here(others) =~= others) by {
        let all = parts_of_segments(segments(rest));
        if others.len() > 0 && others[0] is Here {
            if all[0] is Here {
                assert(others[0] == all[1]);
            }
        }
    }
    if e < p.len() {
        assert(first.push(SLASH) + rest =~= p);
        lemma_segments_of_two(first, rest);
        lemma_segments_not_empty(rest);
        lemma_parts_of_two(one, segments(rest));
    } else {
        assert(p =~= first);
        assert(others =~= Seq::<Part<Seq<u8>>>::empty());
        assert(own + others =~= own);
    }
    assert(seq![DOT].len() == 1 && seq![DOT, DOT].len() == 2);
    assert(without_here(own + others) =~= inner_part(first) + others);
}

/// A path that starts with a part, neither a separator nor a dot, has its inner parts.
proof fn lemma_starts_with_part(p: Seq<u8>, e: int)
    requires
        first_ends_at(p, e),
        part_of(p.take(e), false) is Some,
    ensures
        parts(p) == inner_parts(p),
        parts(p).len() > 0,
        parts(p)[0] == part_of(p.take(e), false).unwrap(),
{
    lemma_first_segment(p, e);
    assert(e > 0);
    assert(!is_absolute(p));
    assert(part_of(p.take(e), true) == part_of(p.take(e), false));
}

spec fn first_end(p: Seq<u8>) -> int
    decreases p.len(),
{
    if p.len() == 0 || p[0] == SLASH {
        0
    } else {
        1 + first_end(p.skip(1))
    }
}

proof fn lemma_first_end(p: Seq<u8>)
    ensures
        first_ends_at(p, first_end(p)),
    decreases p.len(),
{
    if p.len() > 0 && p[0] != SLASH {
        let rest = p.skip(1);
        lemma_first_end(rest);
        let e = first_end(p);
        assert forall|k: int| 0 <= k < e implies #[trigger] p[k] != SLASH by {
            if k > 0 {
                assert(rest[k - 1] == p[k]);
            }
        }
        if e < p.len() {
            assert(rest[e - 1] == p[e]);
        }
    }
}

proof fn lemma_first_end_is_unique(p: Seq<u8>, a: int, b: int)
    requires
        first_ends_at(p, a),
        first_ends_at(p, b),
    ensures
        a == b,
{
    if a < b {
        assert(p[a] != SLASH);
    }
    if b < a {
        assert(p[b] != SLASH);
    }
}

/// An end of a path has no more inner parts than the path.
proof fn lemma_ends_have_fewer_parts(p: Seq<u8>, k: int)
    requires
        0 <= k <= p.len(),
    ensures
        inner_parts(p.skip(k)).len() <= inner_parts(p).len(),
    decreases k,
{
    if k == 0 {
        assert(p.skip(0) =~= p);
    } else {
        let rest = p.skip(1);
        assert(rest.skip(k - 1) =~= p.skip(k));
        lemma_ends_have_fewer_parts(rest, k - 1);
        if p[0] == SLASH {
            assert(first_ends_at(p, 0));
            lemma_first_segment(p, 0);
            assert(behind_first(p, 0) =~= rest);
        } else {
            let e = first_end(p);
            lemma_first_end(p);
            lemma_first_segment(p, e);
            assert(first_ends_at(rest, e - 1)) by {
                assert forall|j: int| 0 <= j < e - 1 implies #[trigger] rest[j] != SLASH by {
                    assert(rest[j] == p[j + 1]);
                }
            }
            lemma_first_segment(rest, e - 1);
            assert(behind_first(rest, e - 1) =~= behind_first(p, e));
            let (long, short) = (p.take(e), rest.take(e - 1));
            assert(short =~= long.skip(1));
            assert(seq![DOT].len() == 1);
            if part_of(short, false) is Some {
                assert(long.len() >= 2);
            }
        }
    }
}

/// A path that starts with a part has its parts only as a whole: no end of it has them.
proof fn lemma_no_shorter_end(p: Seq<u8>, e: int, k: int)
    requires
        first_ends_at(p, e),
        part_of(p.take(e), false) is Some,
        0 < k <= p.len(),
    ensures
        parts(p.skip(k)) != parts(p),
{
    lemma_starts_with_part(p, e);
    let own = p.skip(k);
    let first = part_of(p.take(e), false).unwrap();
    assert(seq![DOT].len() == 1 && seq![DOT, DOT].len() == 2);
    if k < e {
        assert(first_ends_at(own, e - k)) by {
            assert forall|j: int| 0 <= j < e - k implies #[trigger] own[j] != SLASH by {
                assert(own[j] == p[j + k]);
            }
        }
        lemma_first_segment(own, e - k);
        let short = own.take(e - k);
        assert(short.len() < p.take(e).len());
        assert(own[0] == p[k]);
        assert(part_of(short, true) is Some);
        assert(parts(own)[0] == part_of(short, true).unwrap());
        assert(part_of(short, true).unwrap() != first);
    } else if k == e {
        if e == p.len() {
            parts_of_nothing();
            assert(own =~= Seq::<u8>::empty());
        } else {
            assert(own[0] == p[e]);
            assert(parts(own)[0] is Root);
        }
    } else {
        let rest = behind_first(p, e);
        assert(rest.skip(k - e - 1) =~= own);
        lemma_first_segment(p, e);
        lemma_ends_have_fewer_parts(rest, k - e - 1);
        let all = parts_of_segments(segments(own));
        if parts(own) == parts(p) {
            lemma_no_root_in_segments(segments(own));
            assert(!is_absolute(own)) by {
                if is_absolute(own) {
                    assert(parts(own)[0] is Root);
                }
            }
            assert(parts(own) == all);
            assert(!(all[0] is Here));
            assert(inner_parts(own) == all);
        }
    }
}

proof fn lemma_shortest_end(p: Seq<u8>, list: Seq<Part<Seq<u8>>>, from: int, i: int)
    requires
        0 <= i <= from <= p.len(),
        parts(p.skip(i)) == list,
        forall|k: int| i < k <= from ==> parts(#[trigger] p.skip(k)) != list,
    ensures
        end_with_parts(p, list, from) == p.skip(i),
    decreases from - i,
{
    if from > i {
        assert(parts(p.skip(from)) != list);
        lemma_shortest_end(p, list, from - 1, i);
    }
}

/// An end that starts with a part, or is empty, is the shortest with its parts.
proof fn lemma_shortest_end_here(p: Seq<u8>, i: int, e: int)
    requires
        0 <= i <= p.len(),
        first_ends_at(p.skip(i), e),
        i == p.len() || part_of(p.skip(i).take(e), false) is Some,
    ensures
        end_with_parts(p, parts(p.skip(i)), p.len() as int) == p.skip(i),
        parts(p.skip(i)) == inner_parts(p.skip(i)),
{
    let own = p.skip(i);
    if i < p.len() {
        lemma_starts_with_part(own, e);
        assert forall|k: int| i < k <= p.len() implies parts(#[trigger] p.skip(k)) != parts(own) by {
            assert(own.skip(k - i) =~= p.skip(k));
            lemma_no_shorter_end(own, e, k - i);
        }
    } else {
        parts_of_nothing();
        assert(own =~= Seq::<u8>::empty());
    }
    lemma_shortest_end(p, parts(own), p.len() as int, i);
}

/// Where the parts behind the first ones of a path start, and how many of the parts from there on
/// are still to be passed over.
spec fn entrance(p: Seq<u8>, n: int) -> (int, int) {
    if is_absolute(p) {
        (1, n - 1)
    } else {
        let e = first_end(p);
        if p.take(e) == seq![DOT] {
            (if e < p.len() {
                e + 1
            } else {
                e
            }, n - 1)
        } else {
            (0, n)
        }
    }
}

proof fn lemma_entrance(p: Seq<u8>, n: int)
    requires
        0 < n <= parts(p).len(),
    ensures
        ({
            let (i, left) = entrance(p, n);
            &&& 0 <= i <= p.len()
            &&& 0 <= left <= inner_parts(p.skip(i)).len()
            &&& parts(p).skip(n) == inner_parts(p.skip(i)).skip(left)
        }),
{
    lemma_first_end(p);
    let e = first_end(p);
    lemma_first_segment(p, e);
    parts_of_nothing();
    let (i, left) = entrance(p, n);
    if is_absolute(p) {
        assert(e == 0);
        assert(behind_first(p, 0) =~= p.skip(1));
        assert(p.take(0) =~= Seq::<u8>::empty());
        assert(parts(p) =~= seq![Part::<Seq<u8>>::Root] + inner_parts(p.skip(1)));
    } else if p.take(e) == seq![DOT] {
        assert(p.skip(i) =~= behind_first(p, e));
        assert(parts(p) =~= seq![Part::<Seq<u8>>::Here] + inner_parts(p.skip(i)));
    } else {
        assert(p.skip(0) =~= p);
        assert(parts(p) =~= inner_parts(p)) by {
            if e == 0 {
                assert(p =~= Seq::<u8>::empty());
            }
        }
    }
    assert(parts(p).skip(n) =~= inner_parts(p.skip(i)).skip(left));
}

/// Some end of a path has its inner parts but for the first ones.
proof fn lemma_some_end(p: Seq<u8>, n: int) -> (i: int)
    requires
        0 <= n <= inner_parts(p).len(),
    ensures
        0 <= i <= p.len(),
        parts(p.skip(i)) == inner_parts(p).skip(n),
    decreases p.len(),
{
    let e = first_end(p);
    lemma_first_end(p);
    lemma_first_segment(p, e);
    parts_of_nothing();
    let rest = behind_first(p, e);
    let others = inner_parts(rest);
    match part_of(p.take(e), false) {
        Some(part) => {
            lemma_starts_with_part(p, e);
            if n == 0 {
                assert(p.skip(0) =~= p);
                assert(inner_parts(p).skip(0) =~= inner_parts(p));
                0
            } else {
                assert(inner_parts(p).skip(n) =~= others.skip(n - 1));
                if e < p.len() {
                    let i = lemma_some_end(rest, n - 1);
                    assert(rest.skip(i) =~= p.skip(e + 1 + i));
                    e + 1 + i
                } else {
                    assert(p.skip(e) =~= Seq::<u8>::empty());
                    assert(others =~= Seq::<Part<Seq<u8>>>::empty());
                    assert(others.skip(n - 1) =~= others);
                    e
                }
            }
        },
        None => {
            assert(inner_parts(p) =~= others);
            if e < p.len() {
                let i = lemma_some_end(rest, n);
                assert(rest.skip(i) =~= p.skip(e + 1 + i));
                e + 1 + i
            } else {
                assert(p.skip(e) =~= Seq::<u8>::empty());
                assert(others =~= Seq::<Part<Seq<u8>>>::empty());
                assert(others.skip(n) =~= others);
                e
            }
        },
    }
}

proof fn lemma_end_is_an_end(p: Seq<u8>, list: Seq<Part<Seq<u8>>>, from: int, i: int)
    requires
        0 <= i <= from <= p.len(),
        parts(p.skip(i)) == list,
    ensures
        parts(end_with_parts(p, list, from)) == list,
    decreases from - i,
{
    if parts(p.skip(from)) != list {
        lemma_end_is_an_end(p, list, from - 1, i);
    }
}

/// Trimming a path keeps its parts.
pub proof fn a_trimmed_path_has_the_same_parts(p: Seq<u8>)
    ensures
        parts(trimmed(p)) == parts(p),
{
    assert(p.take(p.len() as int) =~= p);
    lemma_start_is_a_start(p, parts(p), 0, p.len() as int);
}

/// What is left behind the first parts of a path has the other parts, and it is no absolute
/// path.
pub proof fn a_remainder_has_the_other_parts(p: Seq<u8>, n: int)
    requires
        0 < n <= parts(p).len(),
    ensures
        parts(remainder(p, n)) == parts(p).skip(n),
        !is_absolute(remainder(p, n)),
        without_here(parts(p).skip(n)) == parts(p).skip(n),
{
    let own = trimmed(p);
    let list = parts(p).skip(n);
    a_trimmed_path_has_the_same_parts(p);
    lemma_entrance(own, n);
    let (start, left) = entrance(own, n);
    let inner = own.skip(start);
    let i = lemma_some_end(inner, left);
    assert(inner.skip(i) =~= own.skip(start + i));
    lemma_end_is_an_end(own, list, own.len() as int, start + i);
    parts_start(p);
    parts_start(remainder(p, n));
    if list.len() > 0 {
        assert(list[0] == parts(p)[n]);
    }
}

// ---------------------------------------------------------------------------------------------
// The order of paths

pub open spec fn bytes_before(a: Seq<u8>, b: Seq<u8>) -> bool
    decreases a.len(),
{
    if b.len() == 0 {
        false
    } else if a.len() == 0 {
        true
    } else if a[0] != b[0] {
        a[0] < b[0]
    } else {
        bytes_before(a.skip(1), b.skip(1))
    }
}

pub open spec fn part_rank(part: Part<Seq<u8>>) -> int {
    match part {
        Part::Root => 0,
        Part::Here => 1,
        Part::Up => 2,
        Part::Name(_) => 3,
    }
}

/// `/` comes before `.`, that before `..`, and that before every name; names go by their bytes.
pub open spec fn part_before(a: Part<Seq<u8>>, b: Part<Seq<u8>>) -> bool {
    match (a, b) {
        (Part::Name(x), Part::Name(y)) => bytes_before(x, y),
        _ => part_rank(a) < part_rank(b),
    }
}

/// Paths are ordered by their first different part; a directory comes before what it holds.
pub open spec fn parts_before(a: Seq<Part<Seq<u8>>>, b: Seq<Part<Seq<u8>>>) -> bool
    decreases a.len(),
{
    if b.len() == 0 {
        false
    } else if a.len() == 0 {
        true
    } else if a[0] != b[0] {
        part_before(a[0], b[0])
    } else {
        parts_before(a.skip(1), b.skip(1))
    }
}

proof fn lemma_bytes_total(a: Seq<u8>, b: Seq<u8>)
    ensures
        a == b ==> !bytes_before(a, b),
        a != b ==> bytes_before(a, b) != bytes_before(b, a),
    decreases a.len(),
{
    if a.len() > 0 && b.len() > 0 && a[0] == b[0] {
        lemma_bytes_total(a.skip(1), b.skip(1));
        if a.skip(1) == b.skip(1) {
            assert(a =~= seq![a[0]] + a.skip(1));
            assert(b =~= seq![b[0]] + b.skip(1));
        }
    } else if a.len() == 0 && b.len() == 0 {
        assert(a =~= b);
    }
}

proof fn lemma_bytes_transitive(a: Seq<u8>, b: Seq<u8>, c: Seq<u8>)
    requires
        bytes_before(a, b),
        bytes_before(b, c),
    ensures
        bytes_before(a, c),
    decreases a.len(),
{
    if a.len() > 0 && b.len() > 0 && c.len() > 0 && a[0] == b[0] && b[0] == c[0] {
        lemma_bytes_transitive(a.skip(1), b.skip(1), c.skip(1));
    }
}

proof fn lemma_part_total(a: Part<Seq<u8>>, b: Part<Seq<u8>>)
    ensures
        a == b ==> !part_before(a, b),
        a != b ==> part_before(a, b) != part_before(b, a),
{
    match (a, b) {
        (Part::Name(x), Part::Name(y)) => lemma_bytes_total(x, y),
        _ => {},
    }
}

proof fn lemma_part_transitive(a: Part<Seq<u8>>, b: Part<Seq<u8>>, c: Part<Seq<u8>>)
    requires
        part_before(a, b),
        part_before(b, c),
    ensures
        part_before(a, c),
{
    match (a, b, c) {
        (Part::Name(x), Part::Name(y), Part::Name(z)) => lemma_bytes_transitive(x, y, z),
        _ => {},
    }
}

/// Of two different runs of parts exactly one comes first.
pub proof fn path_order_is_total(a: Seq<Part<Seq<u8>>>, b: Seq<Part<Seq<u8>>>)
    ensures
        a == b ==> !parts_before(a, b),
        a != b ==> parts_before(a, b) != parts_before(b, a),
    decreases a.len(),
{
    if a.len() > 0 && b.len() > 0 {
        lemma_part_total(a[0], b[0]);
        if a[0] == b[0] {
            path_order_is_total(a.skip(1), b.skip(1));
            if a.skip(1) == b.skip(1) {
                assert(a =~= seq![a[0]] + a.skip(1));
                assert(b =~= seq![b[0]] + b.skip(1));
            }
        }
    } else if a.len() == 0 && b.len() == 0 {
        assert(a =~= b);
    }
}

/// What comes before a run of parts comes before everything behind it.
pub proof fn path_order_is_transitive(
    a: Seq<Part<Seq<u8>>>,
    b: Seq<Part<Seq<u8>>>,
    c: Seq<Part<Seq<u8>>>,
)
    requires
        parts_before(a, b),
        parts_before(b, c),
    ensures
        parts_before(a, c),
    decreases a.len(),
{
    if a.len() > 0 && b.len() > 0 && c.len() > 0 {
        if a[0] == b[0] && b[0] == c[0] {
            path_order_is_transitive(a.skip(1), b.skip(1), c.skip(1));
        } else if a[0] != b[0] && b[0] != c[0] {
            lemma_part_transitive(a[0], b[0], c[0]);
            if a[0] == c[0] {
                lemma_part_total(a[0], b[0]);
            }
        }
    }
}

// ---------------------------------------------------------------------------------------------
// Operations

pub open spec fn part_view(part: Part<Vec<u8>>) -> Part<Seq<u8>> {
    match part {
        Part::Root => Part::Root,
        Part::Here => Part::Here,
        Part::Up => Part::Up,
        Part::Name(name) => Part::Name(name@),
    }
}

pub open spec fn parts_view(list: Seq<Part<Vec<u8>>>) -> Seq<Part<Seq<u8>>> {
    list.map_values(|part: Part<Vec<u8>>| part_view(part))
}

/// What `String::from_utf8_lossy` makes of bytes.
pub uninterp spec fn lossy_text(bytes: Seq<u8>) -> Seq<char>;

/// `String::from_utf8_lossy`: the text depends on the bytes alone, and bytes that are UTF-8
/// are read as the text that they encode.
#[verifier::external_body]
fn lossy(bytes: &[u8]) -> (text: String)
    ensures
        text@ == lossy_text(bytes@),
        valid_utf8(bytes@) ==> encode_utf8(text@) == bytes@,
{
    String::from_utf8_lossy(bytes).into_owned()
}

/// `Vec::push` of each byte in turn.
pub fn push_bytes(to: &mut Vec<u8>, bytes: &[u8])
    ensures
        final(to)@ == old(to)@ + bytes@,
{
    let ghost start = to@;
    let mut i: usize = 0;
    while i < bytes.len()
        invariant
            i <= bytes@.len(),
            to@ == start + bytes@.take(i as int),
        decreases bytes@.len() - i,
    {
        to.push(bytes[i]);
        assert(bytes@.take(i + 1) =~= bytes@.take(i as int).push(bytes@[i as int]));
        i += 1;
    }
    assert(bytes@.take(i as int) =~= bytes@);
}

pub fn copy_bytes(bytes: &[u8]) -> (copy: Vec<u8>)
    ensures
        copy@ == bytes@,
{
    let mut copy: Vec<u8> = Vec::new();
    push_bytes(&mut copy, bytes);
    copy
}

pub fn same_bytes(a: &[u8], b: &[u8]) -> (same: bool)
    ensures
        same == (a@ == b@),
{
    if a.len() != b.len() {
        return false;
    }
    let mut i: usize = 0;
    while i < a.len()
        invariant
            i <= a@.len() == b@.len(),
            forall|j: int| 0 <= j < i ==> a@[j] == b@[j],
        decreases a@.len() - i,
    {
        if a[i] != b[i] {
            return false;
        }
        i += 1;
    }
    assert(a@ =~= b@);
    true
}

fn bytes_come_before(a: &[u8], b: &[u8]) -> (yes: bool)
    ensures
        yes == bytes_before(a@, b@),
{
    let mut i: usize = 0;
    assert(a@.skip(0) =~= a@);
    assert(b@.skip(0) =~= b@);
    while i < a.len() && i < b.len() && a[i] == b[i]
        invariant
            i <= a@.len(),
            i <= b@.len(),
            bytes_before(a@, b@) == bytes_before(a@.skip(i as int), b@.skip(i as int)),
        decreases a@.len() - i,
    {
        assert(a@.skip(i as int).skip(1) =~= a@.skip(i + 1));
        assert(b@.skip(i as int).skip(1) =~= b@.skip(i + 1));
        i += 1;
    }
    if i >= b.len() {
        false
    } else if i >= a.len() {
        true
    } else {
        a[i] < b[i]
    }
}

fn same_part(a: &Part<Vec<u8>>, b: &Part<Vec<u8>>) -> (same: bool)
    ensures
        same == (part_view(*a) == part_view(*b)),
{
    match (a, b) {
        (Part::Root, Part::Root) => true,
        (Part::Here, Part::Here) => true,
        (Part::Up, Part::Up) => true,
        (Part::Name(x), Part::Name(y)) => same_bytes(x.as_slice(), y.as_slice()),
        _ => false,
    }
}

fn part_number(part: &Part<Vec<u8>>) -> (rank: u8)
    ensures
        rank == part_rank(part_view(*part)),
{
    match part {
        Part::Root => 0,
        Part::Here => 1,
        Part::Up => 2,
        Part::Name(_) => 3,
    }
}

fn part_comes_before(a: &Part<Vec<u8>>, b: &Part<Vec<u8>>) -> (yes: bool)
    ensures
        yes == part_before(part_view(*a), part_view(*b)),
{
    match (a, b) {
        (Part::Name(x), Part::Name(y)) => bytes_come_before(x.as_slice(), y.as_slice()),
        _ => part_number(a) < part_number(b),
    }
}

/// Whether two runs of parts are the same.
pub fn same_parts(a: &Vec<Part<Vec<u8>>>, b: &Vec<Part<Vec<u8>>>) -> (same: bool)
    ensures
        same == (parts_view(a@) == parts_view(b@)),
{
    if a.len() != b.len() {
        assert(parts_view(a@).len() != parts_view(b@).len());
        return false;
    }
    let mut i: usize = 0;
    while i < a.len()
        invariant
            i <= a@.len() == b@.len(),
            forall|j: int| 0 <= j < i ==> part_view(a@[j]) == part_view(b@[j]),
        decreases a@.len() - i,
    {
        if !same_part(&a[i], &b[i]) {
            assert(parts_view(a@)[i as int] != parts_view(b@)[i as int]);
            return false;
        }
        i += 1;
    }
    assert(parts_view(a@) =~= parts_view(b@));
    true
}

/// Whether one run of parts starts with another.
pub fn parts_start_with(list: &Vec<Part<Vec<u8>>>, prefix: &Vec<Part<Vec<u8>>>) -> (yes: bool)
    ensures
        yes == parts_view(prefix@).is_prefix_of(parts_view(list@)),
{
    if prefix.len() > list.len() {
        return false;
    }
    let mut i: usize = 0;
    while i < prefix.len()
        invariant
            i <= prefix@.len() <= list@.len(),
            forall|j: int| 0 <= j < i ==> part_view(prefix@[j]) == part_view(list@[j]),
        decreases prefix@.len() - i,
    {
        if !same_part(&prefix[i], &list[i]) {
            assert(parts_view(prefix@)[i as int] != parts_view(list@).subrange(
                0,
                prefix@.len() as int,
            )[i as int]);
            return false;
        }
        i += 1;
    }
    assert(parts_view(list@).subrange(0, prefix@.len() as int) =~= parts_view(prefix@));
    true
}

pub fn parts_come_before(a: &Vec<Part<Vec<u8>>>, b: &Vec<Part<Vec<u8>>>) -> (yes: bool)
    ensures
        yes == parts_before(parts_view(a@), parts_view(b@)),
{
    let ghost x = parts_view(a@);
    let ghost y = parts_view(b@);
    let mut i: usize = 0;
    assert(x.skip(0) =~= x);
    assert(y.skip(0) =~= y);
    while i < a.len() && i < b.len() && same_part(&a[i], &b[i])
        invariant
            i <= a@.len(),
            i <= b@.len(),
            x == parts_view(a@),
            y == parts_view(b@),
            parts_before(x, y) == parts_before(x.skip(i as int), y.skip(i as int)),
        decreases a@.len() - i,
    {
        assert(x[i as int] == part_view(a@[i as int]));
        assert(y[i as int] == part_view(b@[i as int]));
        assert(x.skip(i as int).skip(1) =~= x.skip(i + 1));
        assert(y.skip(i as int).skip(1) =~= y.skip(i + 1));
        i += 1;
    }
    if i >= b.len() {
        false
    } else if i >= a.len() {
        true
    } else {
        part_comes_before(&a[i], &b[i])
    }
}

fn part_of_segment(segment: Vec<u8>, first: bool) -> (part: Option<Part<Vec<u8>>>)
    ensures
        match part {
            Some(part) => part_of(segment@, first) == Some(part_view(part)),
            None => part_of(segment@, first) is None,
        },
{
    let n: usize = segment.len();
    if n == 0 {
        return None;
    }
    if n == 1 && segment[0] == DOT {
        assert(segment@ =~= seq![DOT]);
        return if first {
            Some(Part::Here)
        } else {
            None
        };
    }
    assert(segment@ != seq![DOT]) by {
        if segment@ == seq![DOT] {
            assert(segment@.len() == 1 && segment@[0] == DOT);
        }
    }
    if n == 2 && segment[0] == DOT && segment[1] == DOT {
        assert(segment@ =~= seq![DOT, DOT]);
        return Some(Part::Up);
    }
    assert(segment@ != seq![DOT, DOT]) by {
        if segment@ == seq![DOT, DOT] {
            assert(segment@.len() == 2 && segment@[0] == DOT && segment@[1] == DOT);
        }
    }
    Some(Part::Name(segment))
}

impl FsPath {
    /// The path that a text spells.
    pub fn from_text(text: &str) -> (path: FsPath)
        ensures
            path@ == encode_utf8(text@),
    {
        FsPath { raw: copy_bytes(text.as_bytes()) }
    }

    pub fn from_bytes(raw: Vec<u8>) -> (path: FsPath)
        ensures
            path@ == raw@,
    {
        FsPath { raw }
    }

    pub fn empty() -> (path: FsPath)
        ensures
            path@ == Seq::<u8>::empty(),
    {
        FsPath { raw: Vec::new() }
    }

    pub fn copy(&self) -> (path: FsPath)
        ensures
            path@ == self@,
    {
        FsPath { raw: copy_bytes(self.raw.as_slice()) }
    }

    pub fn is_empty(&self) -> (yes: bool)
        ensures
            yes == (self@.len() == 0),
    {
        self.raw.len() == 0
    }

    /// The text to show for the path. Bytes that are no UTF-8 show as replacement characters.
    pub fn text(&self) -> (text: String)
        ensures
            text@ == lossy_text(self@),
            valid_utf8(self@) ==> encode_utf8(text@) == self@,
    {
        lossy(self.raw.as_slice())
    }

    pub fn absolute(&self) -> (yes: bool)
        ensures
            yes == is_absolute(self@),
    {
        self.raw.len() > 0 && self.raw[0] == SLASH
    }

    /// The parts of the path.
    pub fn parts(&self) -> (list: Vec<Part<Vec<u8>>>)
        ensures
            parts_view(list@) == parts(self@),
    {
        let mut list: Vec<Part<Vec<u8>>> = Vec::new();
        if self.absolute() {
            list.push(Part::Root);
        }
        let ghost head = parts_view(list@);
        assert(head =~= if is_absolute(self@) {
            seq![Part::<Seq<u8>>::Root]
        } else {
            Seq::empty()
        });
        let mut current: Vec<u8> = Vec::new();
        let mut first: bool = true;
        let ghost mut done: Seq<Seq<u8>> = Seq::empty();
        let mut i: usize = 0;
        assert(segments(self@.take(0)) =~= done.push(current@));
        assert(parts_view(list@) =~= head + parts_of_segments(done));
        while i < self.raw.len()
            invariant
                i <= self@.len(),
                segments(self@.take(i as int)) == done.push(current@),
                first == (done.len() == 0),
                parts_view(list@) == head + parts_of_segments(done),
            decreases self@.len() - i,
        {
            assert(self@.take(i + 1).drop_last() =~= self@.take(i as int));
            assert(done.push(current@).drop_last() =~= done);
            let byte = self.raw[i];
            if byte == SLASH {
                let ghost next = done.push(current@);
                let ghost before = list@;
                assert(next.drop_last() =~= done);
                match part_of_segment(current, first) {
                    Some(part) => {
                        list.push(part);
                        assert(parts_view(list@) =~= parts_view(before).push(part_view(part)));
                        assert(parts_view(list@) =~= head + parts_of_segments(next));
                    },
                    None => {},
                }
                proof {
                    done = next;
                }
                first = false;
                current = Vec::new();
            } else {
                current.push(byte);
            }
            i += 1;
        }
        assert(self@.take(i as int) =~= self@);
        let ghost next = done.push(current@);
        assert(next.drop_last() =~= done);
        let ghost before = list@;
        match part_of_segment(current, first) {
            Some(part) => {
                list.push(part);
                assert(parts_view(list@) =~= parts_view(before).push(part_view(part)));
                assert(parts_view(list@) =~= head + parts_of_segments(next));
            },
            None => {},
        }
        assert(parts_view(list@) =~= parts(self@));
        list
    }

    /// Whether two paths name the same place.
    pub fn same(&self, other: &FsPath) -> (yes: bool)
        ensures
            yes == same_path(self@, other@),
    {
        let a = self.parts();
        let b = other.parts();
        same_parts(&a, &b)
    }

    /// Whether `prefix` is this path or a directory above it.
    pub fn starts_with(&self, prefix: &FsPath) -> (yes: bool)
        ensures
            yes == path_starts_with(self@, prefix@),
            yes == parts(prefix@).is_prefix_of(parts(self@)),
    {
        let a = self.parts();
        let b = prefix.parts();
        parts_start_with(&a, &b)
    }

    /// The path of `other` as seen from this directory.
    pub fn join(&self, other: &FsPath) -> (path: FsPath)
        ensures
            path@ == join_path(self@, other@),
    {
        if other.absolute() {
            return other.copy();
        }
        let mut raw = copy_bytes(self.raw.as_slice());
        let n: usize = raw.len();
        if n > 0 && raw[n - 1] != SLASH {
            raw.push(SLASH);
        }
        push_bytes(&mut raw, other.raw.as_slice());
        FsPath { raw }
    }


    /// Where the last segment of the first `end` bytes starts.
    fn segment_start(&self, end: usize) -> (at: usize)
        requires
            end <= self@.len(),
        ensures
            last_starts_at(self@.take(end as int), at as int),
    {
        let mut at: usize = end;
        while at > 0 && self.raw[at - 1] != SLASH
            invariant
                at <= end <= self@.len(),
                forall|k: int| at <= k < end ==> #[trigger] self@[k] != SLASH,
            decreases at,
        {
            at -= 1;
        }
        at
    }

    /// Whether the first `n` bytes, whose last segment starts at `i`, end in a part, are a lone
    /// root, or are none.
    fn ends_in_part(&self, n: usize, i: usize) -> (yes: bool)
        requires
            n <= self@.len(),
            last_starts_at(self@.take(n as int), i as int),
        ensures
            yes == is_settled(self@.take(n as int), i as int),
    {
        if n == 0 || (n == 1 && self.raw[0] == SLASH) {
            return true;
        }
        let last = bytes_range(self.raw.as_slice(), i, n);
        assert(last@ =~= self@.take(n as int).skip(i as int));
        part_of_segment(last, i == 0).is_some()
    }

    /// How long the shortest start is that has the parts of the first `end` bytes, and where its
    /// last segment starts.
    fn trimmed_to(&self, end: usize) -> (out: (usize, usize))
        requires
            end <= self@.len(),
        ensures
            out.0 <= end,
            parts(self@.take(out.0 as int)) == parts(self@.take(end as int)),
            start_with_parts(self@, parts(self@.take(end as int)), 0) == self@.take(out.0 as int),
            last_starts_at(self@.take(out.0 as int), out.1 as int),
            is_settled(self@.take(out.0 as int), out.1 as int),
    {
        let mut n: usize = end;
        let mut i: usize = self.segment_start(n);
        while !self.ends_in_part(n, i)
            invariant
                n <= end <= self@.len(),
                parts(self@.take(n as int)) == parts(self@.take(end as int)),
                last_starts_at(self@.take(n as int), i as int),
            decreases n,
        {
            let ghost own = self@.take(n as int);
            // The segment is empty, or a dot between separators.
            let cut: usize = if i <= 1 {
                i
            } else {
                i - 1
            };
            proof {
                lemma_last_segment(own, i as int);
                assert(before_last(own, i as int) =~= self@.take(cut as int));
                assert(own.skip(i as int).len() == n - i);
                assert(own[0] == self@[0]);
            }
            n = cut;
            i = self.segment_start(n);
        }
        proof {
            lemma_shortest_start(self@, n as int, i as int);
        }
        (n, i)
    }

    /// The directory the path stands in, as the path spells it.
    pub fn parent(&self) -> (path: Option<FsPath>)
        ensures
            match path {
                Some(path) => parent_of(self@) == Some(path@),
                None => parent_of(self@) is None,
            },
    {
        let len: usize = self.raw.len();
        assert(self@.take(len as int) =~= self@);
        let (n, i) = self.trimmed_to(len);
        let ghost own = self@.take(n as int);
        if n == 0 {
            proof {
                parts_of_nothing();
                assert(own =~= Seq::<u8>::empty());
            }
            return None;
        }
        if n == 1 && self.raw[0] == SLASH {
            proof {
                parts_of_root();
                assert(own =~= seq![SLASH]);
            }
            return None;
        }
        proof {
            lemma_last_segment(own, i as int);
            lemma_no_root_in_segment(own.skip(i as int), i == 0);
        }
        let cut: usize = if i <= 1 {
            i
        } else {
            i - 1
        };
        assert(before_last(own, i as int) =~= self@.take(cut as int));
        assert(parts(self@).drop_last() =~= parts(self@.take(cut as int)));
        let (m, _) = self.trimmed_to(cut);
        let raw = bytes_range(self.raw.as_slice(), 0, m);
        assert(raw@ =~= self@.take(m as int));
        Some(FsPath { raw })
    }

    /// Where the segment of the first `end` bytes that starts at `at` ends.
    fn segment_end(&self, at: usize, end: usize) -> (e: usize)
        requires
            at <= end <= self@.len(),
        ensures
            at <= e <= end,
            first_ends_at(self@.take(end as int).skip(at as int), e - at),
    {
        let ghost own = self@.take(end as int).skip(at as int);
        let mut e: usize = at;
        while e < end && self.raw[e] != SLASH
            invariant
                at <= e <= end <= self@.len(),
                own == self@.take(end as int).skip(at as int),
                forall|k: int| 0 <= k < e - at ==> #[trigger] own[k] != SLASH,
            decreases end - e,
        {
            assert(own[e - at] == self@[e as int]);
            e += 1;
        }
        if e < end {
            assert(own[e - at] == self@[e as int]);
        }
        e
    }

    /// Whether the segment between two positions is a part of a path, when it stands behind
    /// others.
    fn is_inner_part(&self, at: usize, e: usize) -> (yes: bool)
        requires
            at <= e <= self@.len(),
        ensures
            yes == (part_of(self@.subrange(at as int, e as int), false) is Some),
    {
        part_of_segment(bytes_range(self.raw.as_slice(), at, e), false).is_some()
    }

    /// What is left behind the first `n` parts, as the path spells it.
    pub fn remainder(&self, n: usize) -> (path: FsPath)
        requires
            n <= parts(self@).len(),
        ensures
            path@ == remainder(self@, n as int),
    {
        let len: usize = self.raw.len();
        assert(self@.take(len as int) =~= self@);
        let (m, _) = self.trimmed_to(len);
        let ghost own = self@.take(m as int);
        assert(own == trimmed(self@));
        if n == 0 {
            let raw = bytes_range(self.raw.as_slice(), 0, m);
            assert(raw@ =~= own);
            return FsPath { raw };
        }
        let ghost list = parts(self@).skip(n as int);
        proof {
            lemma_entrance(own, n as int);
            lemma_first_end(own);
        }
        let mut i: usize = 0;
        let mut left: usize = n;
        if m > 0 && self.raw[0] == SLASH {
            assert(own[0] == self@[0]);
            i = 1;
            left = n - 1;
        } else {
            let e = self.segment_end(0, m);
            proof {
                assert(own.skip(0) =~= own);
                lemma_first_end_is_unique(own, e as int, first_end(own));
                if m > 0 {
                    assert(own[0] == self@[0]);
                }
            }
            if e == 1 && self.raw[0] == DOT {
                assert(own.take(1) =~= seq![DOT]);
                i = if e < m {
                    2
                } else {
                    1
                };
                left = n - 1;
            } else {
                assert(own.take(e as int) != seq![DOT]) by {
                    if own.take(e as int) == seq![DOT] {
                        assert(own.take(e as int).len() == 1 && own.take(e as int)[0] == DOT);
                    }
                }
            }
        }
        let mut e: usize = self.segment_end(i, m);
        assert(own.skip(i as int).take(e - i) =~= self@.subrange(i as int, e as int));
        while i < m && !(left == 0 && self.is_inner_part(i, e))
            invariant
                i <= m <= self@.len(),
                i <= e <= m,
                own == self@.take(m as int),
                first_ends_at(own.skip(i as int), e - i),
                own.skip(i as int).take(e - i) == self@.subrange(i as int, e as int),
                left <= inner_parts(own.skip(i as int)).len(),
                list == inner_parts(own.skip(i as int)).skip(left as int),
            decreases m - i,
        {
            let ghost here = own.skip(i as int);
            proof {
                lemma_first_segment(here, e - i);
            }
            let next: usize = if e < m {
                e + 1
            } else {
                e
            };
            proof {
                assert(behind_first(here, e - i) =~= own.skip(next as int));
            }
            if self.is_inner_part(i, e) {
                assert(inner_parts(here).skip(left as int) =~= inner_parts(
                    own.skip(next as int),
                ).skip(left - 1));
                left -= 1;
            } else {
                assert(inner_parts(here) =~= inner_parts(own.skip(next as int)));
            }
            assert(i < next) by {
                if e == i {
                    assert(here.len() == m - i);
                }
            }
            i = next;
            e = self.segment_end(i, m);
            assert(own.skip(i as int).take(e - i) =~= self@.subrange(i as int, e as int));
        }
        proof {
            if i == m {
                parts_of_nothing();
                assert(own.skip(i as int) =~= Seq::<u8>::empty());
            }
            lemma_shortest_end_here(own, i as int, e - i);
            assert(list =~= inner_parts(own.skip(i as int)));
        }
        let raw = bytes_range(self.raw.as_slice(), i, m);
        assert(raw@ =~= own.skip(i as int));
        FsPath { raw }
    }

    /// The last part, where it is a name.
    pub fn file_name(&self) -> (name: Option<Vec<u8>>)
        ensures
            match name {
                Some(name) => file_name_of(self@) == Some(name@),
                None => file_name_of(self@) is None,
            },
    {
        let list = self.parts();
        let n: usize = list.len();
        if n == 0 {
            return None;
        }
        assert(parts(self@).last() == part_view(list@[n - 1]));
        match &list[n - 1] {
            Part::Name(name) => Some(copy_bytes(name.as_slice())),
            _ => None,
        }
    }

    pub fn with_file_name(&self, name: &FsPath) -> (path: FsPath)
        ensures
            path@ == with_file_name(self@, name@),
    {
        match self.file_name() {
            Some(_) => match self.parent() {
                Some(directory) => directory.join(name),
                None => self.join(name),
            },
            None => self.join(name),
        }
    }

    pub fn with_extension(&self, ext: &str) -> (path: FsPath)
        ensures
            path@ == with_extension(self@, encode_utf8(ext@)),
    {
        let name = match self.file_name() {
            Some(name) => name,
            None => {
                return self.copy();
            },
        };
        let len: usize = self.raw.len();
        assert(self@.take(len as int) =~= self@);
        let (n, i) = self.trimmed_to(len);
        let ghost own = self@.take(n as int);
        proof {
            lemma_last_segment(own, i as int);
            lemma_ends_in_its_name(own, i as int);
        }
        let stem = stem_of(name.as_slice());
        let end: usize = i + stem.len();
        let mut raw = bytes_range(self.raw.as_slice(), 0, end);
        assert(raw@ =~= own.take(own.len() - name@.len() + stem@.len()));
        let bytes = ext.as_bytes();
        if bytes.len() > 0 {
            raw.push(DOT);
            push_bytes(&mut raw, bytes);
        }
        FsPath { raw }
    }
}

fn find_last_dot(name: &[u8]) -> (at: Option<usize>)
    ensures
        match at {
            Some(i) => last_dot(name@) == Some(i as int) && i < name@.len(),
            None => last_dot(name@) is None,
        },
{
    let mut n: usize = name.len();
    assert(name@.take(n as int) =~= name@);
    while n > 0
        invariant
            n <= name@.len(),
            last_dot(name@) == last_dot(name@.take(n as int)),
        decreases n,
    {
        assert(name@.take(n as int).last() == name@[n - 1]);
        assert(name@.take(n as int).drop_last() =~= name@.take(n - 1));
        if name[n - 1] == DOT {
            return Some(n - 1);
        }
        n -= 1;
    }
    None
}

fn bytes_range(bytes: &[u8], from: usize, to: usize) -> (copy: Vec<u8>)
    requires
        from <= to <= bytes@.len(),
    ensures
        copy@ == bytes@.subrange(from as int, to as int),
{
    let mut copy: Vec<u8> = Vec::new();
    let mut i: usize = from;
    while i < to
        invariant
            from <= i <= to <= bytes@.len(),
            copy@ == bytes@.subrange(from as int, i as int),
        decreases to - i,
    {
        copy.push(bytes[i]);
        i += 1;
    }
    copy
}

/// A name without its extension.
pub fn stem_of(name: &[u8]) -> (out: Vec<u8>)
    ensures
        out@ == stem(name@),
{
    match find_last_dot(name) {
        Some(i) => if i > 0 {
            assert(name@.subrange(0, i as int) =~= name@.take(i as int));
            bytes_range(name, 0, i)
        } else {
            copy_bytes(name)
        },
        None => copy_bytes(name),
    }
}

pub fn extension_of(name: &[u8]) -> (out: Option<Vec<u8>>)
    ensures
        match out {
            Some(out) => extension(name@) == Some(out@),
            None => extension(name@) is None,
        },
{
    let n: usize = name.len();
    match find_last_dot(name) {
        Some(i) => if i > 0 {
            assert(name@.subrange(i + 1, n as int) =~= name@.skip(i + 1));
            Some(bytes_range(name, i + 1, n))
        } else {
            None
        },
        None => None,
    }
}

/// The extension of a name is what follows its last dot, and its stem what stands before it; a
/// name without a dot, or with none but a leading one, has no extension.
pub proof fn an_extension_follows_the_last_dot(front: Seq<u8>, back: Seq<u8>)
    requires
        !back.contains(DOT),
    ensures
        front.len() > 0 ==> extension(front.push(DOT) + back) == Some(back) && stem(
            front.push(DOT) + back,
        ) == front,
        extension(back) is None,
        stem(back) == back,
        extension(seq![DOT] + back) is None,
        stem(seq![DOT] + back) == seq![DOT] + back,
{
    lemma_last_dot(front, back);
    lemma_last_dot(Seq::empty(), back);
    assert(Seq::<u8>::empty().push(DOT) + back =~= seq![DOT] + back);
    let whole = front.push(DOT) + back;
    assert(whole.take(front.len() as int) =~= front);
    assert(whole.skip((front.len() + 1) as int) =~= back);
}

proof fn lemma_last_dot(front: Seq<u8>, back: Seq<u8>)
    requires
        !back.contains(DOT),
    ensures
        last_dot(front.push(DOT) + back) == Some(front.len() as int),
        last_dot(back) is None,
    decreases back.len(),
{
    let whole = front.push(DOT) + back;
    if back.len() == 0 {
        assert(whole =~= front.push(DOT));
    } else {
        assert(back[back.len() - 1] == back.last());
        assert(back.last() != DOT);
        let less = back.drop_last();
        assert(!less.contains(DOT)) by {
            if less.contains(DOT) {
                let k = less.index_of(DOT);
                assert(back[k] == DOT);
            }
        }
        lemma_last_dot(front, less);
        assert(whole.drop_last() =~= front.push(DOT) + less);
    }
}

/// Another extension takes the place of what follows the last dot of the name; the directory and
/// what stands before the dot stay. An empty extension takes the dot away as well, and a name
/// without an extension gets one.
pub proof fn another_extension_takes_the_place_of_the_old_one(
    p: Seq<u8>,
    directory: Seq<u8>,
    front: Seq<u8>,
    back: Seq<u8>,
    ext: Seq<u8>,
)
    requires
        front.len() > 0,
        !back.contains(DOT),
        !front.contains(DOT),
    ensures
        file_name_of(p) == Some(front.push(DOT) + back) && trimmed(p) == directory + (front.push(
            DOT,
        ) + back) ==> with_extension(p, ext) == if ext.len() > 0 {
            (directory + front).push(DOT) + ext
        } else {
            directory + front
        },
        file_name_of(p) == Some(front) && trimmed(p) == directory + front && ext.len() > 0
            ==> with_extension(p, ext) == (directory + front).push(DOT) + ext,
        file_name_of(p) is None ==> with_extension(p, ext) == p,
{
    an_extension_follows_the_last_dot(front, back);
    an_extension_follows_the_last_dot(back, front);
    let name = front.push(DOT) + back;
    assert((directory + name).take((directory.len() + front.len()) as int) =~= directory + front);
    assert((directory + front).take((directory.len() + front.len()) as int) =~= directory + front);
}

/// Another name takes the place of the last one, in the same directory.
pub proof fn another_name_stands_in_the_same_directory(p: Seq<u8>, name: Seq<u8>)
    requires
        file_name_of(p) is Some,
        parent_of(p) is Some,
        is_name(name),
    ensures
        parent_of(with_file_name(p, name)) == parent_of(p),
        file_name_of(with_file_name(p, name)) == Some(name),
{
    a_neighbour_has_the_same_parent(p, name);
}

/// Names are ordered by their bytes: the first difference decides, and a name comes before its
/// continuations.
pub proof fn names_are_ordered_by_their_bytes(
    common: Seq<u8>,
    a: Seq<u8>,
    b: Seq<u8>,
    x: u8,
    y: u8,
)
    requires
        x < y,
    ensures
        bytes_before(common + seq![x] + a, common + seq![y] + b),
        !bytes_before(common + seq![y] + b, common + seq![x] + a),
        b.len() > 0 ==> bytes_before(common, common + b),
        !bytes_before(common + b, common),
        part_before(Part::Name(common + seq![x] + a), Part::Name(common + seq![y] + b)),
    decreases common.len(),
{
    if common.len() > 0 {
        let rest = common.skip(1);
        names_are_ordered_by_their_bytes(rest, a, b, x, y);
        assert((common + seq![x] + a).skip(1) =~= rest + seq![x] + a);
        assert((common + seq![y] + b).skip(1) =~= rest + seq![y] + b);
        assert((common + b).skip(1) =~= rest + b);
    } else {
        assert(common + b =~= b);
        assert((common + seq![x] + a)[0] == x);
        assert((common + seq![y] + b)[0] == y);
    }
}

/// Paths are ordered by their first different part, and a directory comes before what it holds. Of
/// different kinds of parts the root comes first, then `.`, then `..`, and names come last.
pub proof fn paths_are_ordered_by_their_parts(
    common: Seq<Part<Seq<u8>>>,
    a: Seq<Part<Seq<u8>>>,
    b: Seq<Part<Seq<u8>>>,
    name: Seq<u8>,
)
    ensures
        a.len() > 0 && b.len() > 0 && a[0] != b[0] ==> parts_before(common + a, common + b)
            == part_before(a[0], b[0]),
        b.len() > 0 ==> parts_before(common, common + b),
        !parts_before(common + b, common),
        part_before(Part::Root, Part::Here),
        part_before(Part::Here, Part::Up),
        part_before(Part::Root, Part::Up),
        part_before(Part::Root, Part::Name(name)),
        part_before(Part::Here, Part::Name(name)),
        part_before(Part::Up, Part::Name(name)),
        !part_before(Part::Name(name), Part::Root),
        !part_before(Part::Name(name), Part::Here),
        !part_before(Part::Name(name), Part::Up),
    decreases common.len(),
{
    if common.len() > 0 {
        let rest = common.skip(1);
        paths_are_ordered_by_their_parts(rest, a, b, name);
        assert((common + a).skip(1) =~= rest + a);
        assert((common + b).skip(1) =~= rest + b);
    } else {
        assert(common + a =~= a);
        assert(common + b =~= b);
    }
}

} // verus!
