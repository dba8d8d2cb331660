//! The mount table of Linux: `/proc/self/mountinfo`, and device numbers.

use crate::mount::table::{Mount, MountTable};
use crate::path;
use crate::path::FsPath;
use crate::text::chars;
use crate::text::number;
use crate::text::number::parse_u64;
use crate::text::search;
use crate::text::search::cut_once;
use crate::text::split;
use crate::text::split::{lines_of, words_of};
use vstd::prelude::*;
use vstd::utf8::*;

verus! {

// ---------------------------------------------------------------------------------------------
// Escapes

pub const BACKSLASH: u8 = 92;

pub open spec fn is_octal(byte: u8) -> bool {
    48 <= byte <= 55
}

pub open spec fn octal_value(a: u8, b: u8, c: u8) -> int {
    (a - 48) * 64 + (b - 48) * 8 + (c - 48)
}

/// The bytes that a field stands for: a backslash and three octal digits are one byte. A
/// backslash without them, or with a number that is no byte, makes the field unreadable.
pub open spec fn decoded(field: Seq<u8>) -> Option<Seq<u8>>
    decreases field.len(),
{
    if field.len() == 0 {
        Some(Seq::empty())
    } else if field[0] != BACKSLASH {
        match decoded(field.skip(1)) {
            Some(rest) => Some(seq![field[0]] + rest),
            None => None,
        }
    } else if field.len() < 4 || !is_octal(field[1]) || !is_octal(field[2]) || !is_octal(field[3])
        || octal_value(field[1], field[2], field[3]) > 255 {
        None
    } else {
        match decoded(field.skip(4)) {
            Some(rest) => Some(
                seq![octal_value(field[1], field[2], field[3]) as u8] + rest,
            ),
            None => None,
        }
    }
}

pub fn decode(field: &str) -> (out: Option<FsPath>)
    ensures
        match out {
            Some(out) => decoded(encode_utf8(field@)) == Some(out@),
            None => decoded(encode_utf8(field@)) is None,
        },
{
    let bytes = field.as_bytes();
    let ghost all = bytes@;
    let n: usize = bytes.len();
    let mut out: Vec<u8> = Vec::new();
    let mut i: usize = 0;
    assert(all.skip(0) =~= all);
    assert(decoded(all) == match decoded(all.skip(0)) {
        Some(rest) => Some(out@ + rest),
        None => None,
    }) by {
        match decoded(all) {
            Some(rest) => assert(out@ + rest =~= rest),
            None => {},
        }
    }
    while i < n
        invariant
            i <= n == all.len(),
            all == bytes@,
            all == encode_utf8(field@),
            decoded(all) == match decoded(all.skip(i as int)) {
                Some(rest) => Some(out@ + rest),
                None => None,
            },
        decreases n - i,
    {
        let ghost here = all.skip(i as int);
        assert(here[0] == all[i as int]);
        let ghost before = out@;
        if bytes[i] == BACKSLASH {
            if n - i < 4 {
                return None;
            }
            let (a, b, c) = (bytes[i + 1], bytes[i + 2], bytes[i + 3]);
            assert(here[1] == a && here[2] == b && here[3] == c);
            if a < 48 || a > 55 || b < 48 || b > 55 || c < 48 || c > 55 {
                return None;
            }
            let value: u16 = (a - 48) as u16 * 64 + (b - 48) as u16 * 8 + (c - 48) as u16;
            if value > 255 {
                return None;
            }
            out.push(value as u8);
            assert(here.skip(4) =~= all.skip(i + 4));
            i += 4;
        } else {
            out.push(bytes[i]);
            assert(here.skip(1) =~= all.skip(i + 1));
            i += 1;
        }
        proof {
            match decoded(all.skip(i as int)) {
                Some(rest) => assert(before + (seq![out@.last()] + rest) =~= out@ + rest),
                None => {},
            }
        }
    }
    assert(all.skip(i as int) =~= Seq::<u8>::empty());
    assert(out@ + Seq::<u8>::empty() =~= out@);
    Some(FsPath { raw: out })
}

// ---------------------------------------------------------------------------------------------
// Lines

/// What one line says, before anything is known about the disk.
pub struct MountLine {
    pub device: String,
    pub root: FsPath,
    pub point: FsPath,
    pub source: FsPath,
}

pub struct Line {
    pub device: Seq<char>,
    pub root: Seq<u8>,
    pub point: Seq<u8>,
    pub source: Seq<u8>,
}

impl View for MountLine {
    type V = Line;

    open spec fn view(&self) -> Line {
        Line {
            device: self.device@,
            root: self.root@,
            point: self.point@,
            source: self.source@,
        }
    }
}

/// The third, fourth and fifth word before ` - ` are the device, the root and the mount point;
/// the second word after it is the source. Lines without these, and lines whose root or point
/// is not absolute, say nothing.
pub open spec fn line_says(line: Seq<char>) -> Option<Line> {
    match search::split_once(line, " - "@) {
        None => None,
        Some((left, right)) => {
            let fields = split::words(left);
            let after = split::words(right);
            if fields.len() < 5 || after.len() < 2 {
                None
            } else {
                match (
                    decoded(encode_utf8(fields[3])),
                    decoded(encode_utf8(fields[4])),
                    decoded(encode_utf8(after[1])),
                ) {
                    (Some(root), Some(point), Some(source)) => if path::is_absolute(root)
                        && path::is_absolute(point) {
                        Some(Line { device: fields[2], root, point, source })
                    } else {
                        None
                    },
                    _ => None,
                }
            }
        },
    }
}

/// What the lines say, in their order.
pub open spec fn lines_say(lines: Seq<Seq<char>>) -> Seq<Line>
    decreases lines.len(),
{
    if lines.len() == 0 {
        Seq::empty()
    } else {
        let before = lines_say(lines.drop_last());
        match line_says(lines.last()) {
            Some(line) => before.push(line),
            None => before,
        }
    }
}

pub fn parse_line(line: &str) -> (out: Option<MountLine>)
    ensures
        match out {
            Some(out) => line_says(line@) == Some(out@),
            None => line_says(line@) is None,
        },
{
    let (left, right) = match cut_once(line, " - ") {
        Some(cut) => cut,
        None => {
            return None;
        },
    };
    let fields = words_of(left.as_str());
    let after = words_of(right.as_str());
    assert(fields@.len() == split::words(left@).len());
    assert(after@.len() == split::words(right@).len());
    if fields.len() < 5 || after.len() < 2 {
        return None;
    }
    assert(split::words(left@)[2] == fields@[2]@);
    assert(split::words(left@)[3] == fields@[3]@);
    assert(split::words(left@)[4] == fields@[4]@);
    assert(split::words(right@)[1] == after@[1]@);
    match (decode(fields[3].as_str()), decode(fields[4].as_str()), decode(after[1].as_str())) {
        (Some(root), Some(point), Some(source)) => if root.absolute() && point.absolute() {
            Some(MountLine { device: fields[2].clone(), root, point, source })
        } else {
            None
        },
        _ => None,
    }
}

/// The mount table that a text spells. `uuid` tells the disk of a device, given the device
/// number and the source of the mount.
pub fn parse<F: Fn(&str, &FsPath) -> Option<String>>(text: &str, uuid: F) -> (table: MountTable)
    requires
        forall|device: &str, source: &FsPath| #[trigger] uuid.requires((device, source)),
    ensures
        table.entries@.len() == lines_say(split::lines(text@)).len(),
        forall|i: int|
            0 <= i < table.entries@.len() ==> table_entry_says(
                uuid,
                #[trigger] table.entries@[i],
                lines_say(split::lines(text@))[i],
            ),
{
    let lines = lines_of(text);
    let ghost all = split::lines(text@);
    assert(lines@.len() == all.len());
    let mut entries: Vec<Mount> = Vec::new();
    let mut i: usize = 0;
    while i < lines.len()
        invariant
            i <= lines@.len() == all.len(),
            chars::texts(lines@) == all,
            forall|device: &str, source: &FsPath| #[trigger] uuid.requires((device, source)),
            entries@.len() == lines_say(all.take(i as int)).len(),
            forall|k: int|
                0 <= k < entries@.len() ==> table_entry_says(
                    uuid,
                    #[trigger] entries@[k],
                    lines_say(all.take(i as int))[k],
                ),
        decreases lines@.len() - i,
    {
        let ghost next = all.take(i + 1);
        assert(next.drop_last() =~= all.take(i as int));
        assert(next.last() == lines@[i as int]@);
        let ghost before = entries@;
        match parse_line(lines[i].as_str()) {
            Some(line) => {
                let device: &str = line.device.as_str();
                let disk = uuid(device, &line.source);
                assert(uuid.ensures((device, &line.source), disk));
                let ghost said = line@;
                entries.push(
                    Mount {
                        disk,
                        device: line.device.clone(),
                        root: line.root,
                        point: line.point,
                    },
                );
                assert(table_entry_says(uuid, entries@.last(), said));
            },
            None => {},
        }
        i += 1;
    }
    assert(all.take(i as int) =~= all);
    MountTable { entries }
}

/// A table entry holds what a line says, with the disk that `uuid` told.
pub open spec fn table_entry_says<F: Fn(&str, &FsPath) -> Option<String>>(
    uuid: F,
    entry: Mount,
    line: Line,
) -> bool {
    &&& entry.device@ == line.device
    &&& entry.root@ == line.root
    &&& entry.point@ == line.point
    &&& exists|device: &str, source: &FsPath|
        device@ == line.device && source@ == line.source && #[trigger] uuid.ensures(
            (device, source),
            entry.disk,
        )
}

// ---------------------------------------------------------------------------------------------
// Devices

/// The number under which the kernel reports the device `major:minor`.
pub open spec fn device_number(device: Seq<char>) -> Option<u64> {
    match search::split_once(device, ":"@) {
        None => None,
        Some((major, minor)) => match (
            number::parse_at_most(major, u64::MAX as nat),
            number::parse_at_most(minor, u64::MAX as nat),
        ) {
            (Some(major), Some(minor)) => Some(packed(major as u64, minor as u64)),
            _ => None,
        },
    }
}

pub open spec fn packed(major: u64, minor: u64) -> u64 {
    (minor & 0xff) | ((major & 0xfff) << 8) | ((minor & !0xff) << 12) | ((major & !0xfff) << 32)
}

/// The name under which a device number is listed; where it is listed twice, the later one.
pub open spec fn listed(devices: Seq<(u64, String)>, wanted: u64) -> Option<Seq<char>>
    decreases devices.len(),
{
    if devices.len() == 0 {
        None
    } else if devices.last().0 == wanted {
        Some(devices.last().1@)
    } else {
        listed(devices.drop_last(), wanted)
    }
}

/// The disk of a mount: by its device number, and where that is not listed by the number of
/// the block device it was mounted from.
pub open spec fn disk_of_device(
    devices: Seq<(u64, String)>,
    device: Seq<char>,
    source_device: Option<u64>,
) -> Option<Seq<char>> {
    match device_number(device) {
        None => None,
        Some(wanted) => match listed(devices, wanted) {
            Some(disk) => Some(disk),
            None => match source_device {
                Some(source) => listed(devices, source),
                None => None,
            },
        },
    }
}

pub fn number_of_device(device: &str) -> (out: Option<u64>)
    ensures
        out == device_number(device@),
{
    match cut_once(device, ":") {
        None => None,
        Some((major, minor)) => match (parse_u64(major.as_str()), parse_u64(minor.as_str())) {
            (Some(major), Some(minor)) => Some(
                (minor & 0xff) | ((major & 0xfff) << 8) | ((minor & !0xff) << 12) | ((major
                    & !0xfff) << 32),
            ),
            _ => None,
        },
    }
}

fn find_listed(devices: &Vec<(u64, String)>, wanted: u64) -> (out: Option<String>)
    ensures
        match out {
            Some(out) => listed(devices@, wanted) == Some(out@),
            None => listed(devices@, wanted) is None,
        },
{
    let mut n: usize = devices.len();
    assert(devices@.take(n as int) =~= devices@);
    while n > 0
        invariant
            n <= devices@.len(),
            listed(devices@, wanted) == listed(devices@.take(n as int), wanted),
        decreases n,
    {
        assert(devices@.take(n as int).drop_last() =~= devices@.take(n - 1));
        if devices[n - 1].0 == wanted {
            return Some(devices[n - 1].1.clone());
        }
        n -= 1;
    }
    None
}

/// The disk of a mount, by the numbers of the devices whose disks are known.
pub fn find_disk(devices: &Vec<(u64, String)>, device: &str, source_device: Option<u64>) -> (out:
    Option<String>)
    ensures
        match out {
            Some(out) => disk_of_device(devices@, device@, source_device) == Some(out@),
            None => disk_of_device(devices@, device@, source_device) is None,
        },
{
    match number_of_device(device) {
        None => None,
        Some(wanted) => match find_listed(devices, wanted) {
            Some(disk) => Some(disk),
            None => match source_device {
                Some(source) => find_listed(devices, source),
                None => None,
            },
        },
    }
}

// ---------------------------------------------------------------------------------------------
// What holds of the mount table

/// A field without a backslash stands for itself.
pub proof fn a_plain_field_stands_for_itself(field: Seq<u8>)
    requires
        !field.contains(92),
    ensures
        decoded(field) == Some(field),
    decreases field.len(),
{
    if field.len() > 0 {
        assert(field[0] != 92);
        assert(!field.skip(1).contains(92)) by {
            if field.skip(1).contains(92) {
                let i = field.skip(1).index_of(92);
                assert(field[i + 1] == 92);
            }
        }
        a_plain_field_stands_for_itself(field.skip(1));
        assert(seq![field[0]] + field.skip(1) =~= field);
    } else {
        assert(field =~= Seq::<u8>::empty());
    }
}

/// Every byte can be written as a backslash and its three octal digits.
pub proof fn octal_digits_stand_for_a_byte(byte: u8, rest: Seq<u8>)
    requires
        decoded(rest) is Some,
    ensures
        decoded(
            seq![
                92u8,
                (48 + byte as int / 64) as u8,
                (48 + (byte as int / 8) % 8) as u8,
                (48 + byte as int % 8) as u8,
            ] + rest,
        ) == Some(seq![byte] + decoded(rest).unwrap()),
{
    let field = seq![
        92u8,
        (48 + byte as int / 64) as u8,
        (48 + (byte as int / 8) % 8) as u8,
        (48 + byte as int % 8) as u8,
    ] + rest;
    assert(field.skip(4) =~= rest);
    assert(octal_value(field[1], field[2], field[3]) == byte);
}

/// A backslash that no three octal digits follow makes a field unreadable.
pub proof fn a_lone_backslash_cannot_be_read(field: Seq<u8>)
    requires
        field.len() > 0,
        field[0] == 92,
        field.len() < 4 || !(48 <= field[1] <= 51 && 48 <= field[2] <= 55 && 48 <= field[3] <= 55),
    ensures
        decoded(field) is None,
{
}

/// The words of a line: the device is the third word, the mounted directory the fourth and the
/// mount point the fifth; the source is the second word behind the dash. Both paths start at the
/// root, else the line says nothing.
pub proof fn the_words_of_a_line(line: Seq<char>, left: Seq<char>, right: Seq<char>)
    requires
        search::split_once(line, " - "@) == Some((left, right)),
        split::words(left).len() >= 5,
        split::words(right).len() >= 2,
        !encode_utf8(split::words(left)[3]).contains(92),
        !encode_utf8(split::words(left)[4]).contains(92),
        !encode_utf8(split::words(right)[1]).contains(92),
    ensures
        match line_says(line) {
            Some(said) => {
                &&& path::is_absolute(encode_utf8(split::words(left)[3]))
                &&& path::is_absolute(encode_utf8(split::words(left)[4]))
                &&& said.device == split::words(left)[2]
                &&& said.root == encode_utf8(split::words(left)[3])
                &&& said.point == encode_utf8(split::words(left)[4])
                &&& said.source == encode_utf8(split::words(right)[1])
            },
            None => !path::is_absolute(encode_utf8(split::words(left)[3])) || !path::is_absolute(
                encode_utf8(split::words(left)[4]),
            ),
        },
{
    a_plain_field_stands_for_itself(encode_utf8(split::words(left)[3]));
    a_plain_field_stands_for_itself(encode_utf8(split::words(left)[4]));
    a_plain_field_stands_for_itself(encode_utf8(split::words(right)[1]));
}

/// A line without the dash, or with too few words, says nothing.
pub proof fn a_short_line_says_nothing(line: Seq<char>)
    ensures
        search::split_once(line, " - "@) is None ==> line_says(line) is None,
        search::split_once(line, " - "@) is Some && (split::words(
            search::split_once(line, " - "@).unwrap().0,
        ).len() < 5 || split::words(search::split_once(line, " - "@).unwrap().1).len() < 2)
            ==> line_says(line) is None,
{
}

/// Lines are read one by one, in their order; those that say nothing leave no trace.
pub proof fn lines_are_read_one_by_one(lines: Seq<Seq<char>>, line: Seq<char>)
    ensures
        line_says(line) is Some ==> lines_say(lines.push(line)) == lines_say(lines).push(
            line_says(line).unwrap(),
        ),
        line_says(line) is None ==> lines_say(lines.push(line)) == lines_say(lines),
        lines_say(Seq::empty()).len() == 0,
{
    assert(lines.push(line).drop_last() =~= lines);
}

/// The number of a device is put together from its two numbers, and they can be told from it: a
/// small minor number stands in the lowest eight bits, and a small major number above it.
pub proof fn a_device_number_holds_both_numbers(major: u64, minor: u64)
    ensures
        major < 4096 && minor < 256 ==> packed(major, minor) == 256 * major + minor,
        packed(major, minor) & 0xff == minor & 0xff,
        (packed(major, minor) >> 8) & 0xfff == major & 0xfff,
        minor <= 0xffff_ffff ==> (packed(major, minor) >> 12) & 0xffff_ff00 == minor & !0xff,
        major <= 0xffff_ffff && minor <= 0xffff_ffff ==> (packed(major, minor) >> 32) & 0xffff_f000
            == major & !0xfff,
{
    let p = packed(major, minor);
    assert(p == (minor & 0xff) | ((major & 0xfff) << 8) | ((minor & !0xff) << 12) | ((major
        & !0xfff) << 32));
    assert(major < 4096 && minor < 256 ==> (minor & 0xff) | ((major & 0xfff) << 8) | ((minor
        & !0xff) << 12) | ((major & !0xfff) << 32) == 256 * major + minor) by (bit_vector);
    assert(p & 0xff == minor & 0xff) by (bit_vector)
        requires
            p == (minor & 0xff) | ((major & 0xfff) << 8) | ((minor & !0xff) << 12) | ((major
                & !0xfff) << 32),
    ;
    assert((p >> 8) & 0xfff == major & 0xfff) by (bit_vector)
        requires
            p == (minor & 0xff) | ((major & 0xfff) << 8) | ((minor & !0xff) << 12) | ((major
                & !0xfff) << 32),
    ;
    assert(minor <= 0xffff_ffff ==> (p >> 12) & 0xffff_ff00 == minor & !0xff) by (bit_vector)
        requires
            p == (minor & 0xff) | ((major & 0xfff) << 8) | ((minor & !0xff) << 12) | ((major
                & !0xfff) << 32),
    ;
    assert(major <= 0xffff_ffff && minor <= 0xffff_ffff ==> (p >> 32) & 0xffff_f000 == major
        & !0xfff) by (bit_vector)
        requires
            p == (minor & 0xff) | ((major & 0xfff) << 8) | ((minor & !0xff) << 12) | ((major
                & !0xfff) << 32),
    ;
}

/// The name of a device is its major and its minor number with a colon between.
pub proof fn a_device_is_named_by_two_numbers(major: u64, minor: u64)
    ensures
        device_number(
            number::decimal(major as nat) + ":"@ + number::decimal(minor as nat),
        ) == Some(packed(major, minor)),
{
    reveal_strlit(":");
    let (a, b) = (number::decimal(major as nat), number::decimal(minor as nat));
    let s = a + ":"@ + b;
    number::a_written_number_is_read_back(major as nat, u64::MAX as nat);
    number::a_written_number_is_read_back(minor as nat, u64::MAX as nat);
    search::first_at_is_first(s, ":"@, 0);
    let at = a.len() as int;
    assert(s.subrange(at, at + 1) =~= ":"@);
    assert(search::occurs_at(s, ":"@, at));
    let first = search::first_at(s, ":"@, 0).unwrap();
    assert(s.subrange(first, first + 1)[0] == ':');
    assert(s[first] == ':');
    if first < at {
        assert(s[first] == a[first]);
    }
    assert(s.take(at) =~= a);
    assert(s.skip(at + 1) =~= b);
}

/// A device that is listed again has the later name, and the other devices keep theirs.
pub proof fn the_later_name_counts(devices: Seq<(u64, String)>, one: (u64, String), other: u64)
    ensures
        listed(devices.push(one), one.0) == Some(one.1@),
        other != one.0 ==> listed(devices.push(one), other) == listed(devices, other),
        listed(Seq::empty(), other) is None,
{
    assert(devices.push(one).drop_last() =~= devices);
}

/// A disk is found by the number of the mounted device, and where that is not listed by the number
/// of the device that it was mounted from.
pub proof fn the_own_number_comes_first(
    devices: Seq<(u64, String)>,
    major: u64,
    minor: u64,
    source: Option<u64>,
)
    ensures
        ({
            let device = number::decimal(major as nat) + ":"@ + number::decimal(minor as nat);
            let own = listed(devices, packed(major, minor));
            &&& own is Some ==> disk_of_device(devices, device, source) == own
            &&& own is None && source is Some ==> disk_of_device(devices, device, source) == listed(
                devices,
                source.unwrap(),
            )
            &&& own is None && source is None ==> disk_of_device(devices, device, source) is None
        }),
{
    a_device_is_named_by_two_numbers(major, minor);
}

} // verus!
