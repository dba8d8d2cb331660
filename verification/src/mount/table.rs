//! References, and the table that turns them into paths and back.

use crate::path;
use crate::path::{parts_come_before, parts_start_with, FsPath, Part};
use crate::text::chars;
use crate::text::chars::same_text;
use crate::text::search::has_char;
use vstd::prelude::*;
use vstd::string::StringExecFns;

verus! {

// ---------------------------------------------------------------------------------------------
// References

/// A place on a file system, wherever that is mounted.
pub struct MountPath {
    /// The UUID of the file system, as the system spells it.
    pub disk: String,
    /// The path from the root of the file system.
    pub relative: FsPath,
}

/// What a reference says.
pub struct Reference {
    pub disk: Seq<char>,
    pub relative: Seq<u8>,
}

impl View for MountPath {
    type V = Reference;

    open spec fn view(&self) -> Reference {
        Reference { disk: self.disk@, relative: self.relative@ }
    }
}

pub open spec fn is_disk(disk: Seq<char>) -> bool {
    disk.len() > 0 && !disk.contains('/') && !disk.contains('\\')
}

/// The path neither starts at a root nor climbs out of where it starts.
pub open spec fn is_confined(relative: Seq<u8>) -> bool {
    forall|i: int|
        0 <= i < path::parts(relative).len() ==> match #[trigger] path::parts(relative)[i] {
            Part::Name(_) => true,
            Part::Here => true,
            _ => false,
        }
}

pub open spec fn is_valid(reference: Reference) -> bool {
    is_disk(reference.disk) && is_confined(reference.relative)
}

/// What is wrong with a reference that is not valid.
pub open spec fn complaint(reference: Reference) -> Seq<char> {
    if !is_disk(reference.disk) {
        "挂载引用的 UUID 无效"@
    } else {
        "挂载引用必须使用不含 .. 的相对路径"@
    }
}

impl MountPath {
    /// Refuses a reference whose disk cannot be a UUID or whose path could leave the disk.
    pub fn validate(&self) -> (outcome: Result<(), String>)
        ensures
            outcome is Ok <==> is_valid(self@),
            match outcome {
                Ok(_) => true,
                Err(message) => message@ == complaint(self@),
            },
    {
        if self.disk.as_str().is_empty() || has_char(self.disk.as_str(), '/') || has_char(
            self.disk.as_str(),
            '\\',
        ) {
            return Err("挂载引用的 UUID 无效".to_owned());
        }
        let list = self.relative.parts();
        let mut i: usize = 0;
        while i < list.len()
            invariant
                i <= list@.len(),
                path::parts_view(list@) == path::parts(self.relative@),
                is_disk(self.disk@),
                forall|j: int|
                    0 <= j < i ==> match #[trigger] path::parts(self.relative@)[j] {
                        Part::Name(_) => true,
                        Part::Here => true,
                        _ => false,
                    },
            decreases list@.len() - i,
        {
            assert(path::parts(self.relative@)[i as int] == path::part_view(list@[i as int]));
            match &list[i] {
                Part::Name(_) => {},
                Part::Here => {},
                _ => {
                    return Err("挂载引用必须使用不含 .. 的相对路径".to_owned());
                },
            }
            i += 1;
        }
        Ok(())
    }

    pub fn copy(&self) -> (copy: MountPath)
        ensures
            copy@ == self@,
    {
        MountPath { disk: self.disk.clone(), relative: self.relative.copy() }
    }
}

/// A copy of a reference that may be missing.
pub fn copy_reference(reference: &Option<MountPath>) -> (copy: Option<MountPath>)
    ensures
        reference_view(copy) == reference_view(*reference),
{
    match reference {
        Some(reference) => Some(reference.copy()),
        None => None,
    }
}

pub open spec fn reference_view(reference: Option<MountPath>) -> Option<Reference> {
    match reference {
        Some(reference) => Some(reference@),
        None => None,
    }
}

// ---------------------------------------------------------------------------------------------
// The mount table

/// One mounted file system.
pub struct Mount {
    /// The UUID of the file system, where it is known.
    pub disk: Option<String>,
    /// The device number, as the mount table spells it. It means something only in the
    /// snapshot it was read with.
    pub device: String,
    /// The directory of the file system that is mounted.
    pub root: FsPath,
    /// Where it is mounted.
    pub point: FsPath,
}

/// What one line of the mount table says.
pub struct MountEntry {
    pub disk: Option<Seq<char>>,
    pub device: Seq<char>,
    pub root: Seq<u8>,
    pub point: Seq<u8>,
}

impl View for Mount {
    type V = MountEntry;

    open spec fn view(&self) -> MountEntry {
        MountEntry {
            disk: chars::text_view(self.disk),
            device: self.device@,
            root: self.root@,
            point: self.point@,
        }
    }
}

pub struct MountTable {
    pub entries: Vec<Mount>,
}

impl View for MountTable {
    type V = Seq<MountEntry>;

    open spec fn view(&self) -> Seq<MountEntry> {
        self.entries@.map_values(|entry: Mount| entry@)
    }
}

/// The mount that a path goes through: of those whose point is the path or above it the one
/// with the longest point, and of two that are equally long the later one. Mounts without a
/// known disk count too, so a path under one of them is never taken for the outer disk.
pub open spec fn covering(table: Seq<MountEntry>, place: Seq<Part<Seq<u8>>>) -> Option<int>
    decreases table.len(),
{
    if table.len() == 0 {
        None
    } else {
        let before = covering(table.drop_last(), place);
        let point = path::parts(table.last().point);
        if point.is_prefix_of(place) && (before is None || path::parts(
            table[before.unwrap()].point,
        ).len() <= point.len()) {
            Some(table.len() - 1)
        } else {
            before
        }
    }
}

/// What is left of a path below a directory that it lies in.
pub open spec fn below(place: Seq<u8>, directory: Seq<u8>) -> Seq<u8> {
    path::remainder(place, path::parts(directory).len() as int)
}

/// The reference to a path: the disk it lies on, and the path from the root of that disk.
pub open spec fn reference_to(table: Seq<MountEntry>, place: Seq<u8>) -> Option<Reference> {
    match covering(table, path::parts(place)) {
        None => None,
        Some(i) => {
            let entry = table[i];
            match entry.disk {
                None => None,
                Some(disk) => if !path::is_absolute(entry.root) {
                    None
                } else {
                    let reference = Reference {
                        disk,
                        relative: path::join_path(
                            path::remainder(entry.root, 1),
                            below(place, entry.point),
                        ),
                    };
                    if is_valid(reference) {
                        Some(reference)
                    } else {
                        None
                    }
                },
            }
        },
    }
}

/// The mounts of a disk.
pub open spec fn on_disk(table: Seq<MountEntry>, disk: Seq<char>) -> Seq<MountEntry> {
    table.filter(|entry: MountEntry| entry.disk == Some(disk))
}

/// The path from the root of its disk that a reference names.
pub open spec fn inside(reference: Reference) -> Seq<u8> {
    path::join_path(seq![path::SLASH], reference.relative)
}

/// Where a mount would show a place of its disk.
pub open spec fn shown_at(entry: MountEntry, place: Seq<u8>) -> Option<Seq<u8>> {
    if path::parts(entry.root).is_prefix_of(path::parts(place)) {
        Some(path::join_path(entry.point, below(place, entry.root)))
    } else {
        None
    }
}

/// Whether a path really leads to a place on a device: another mount may lie over it.
pub open spec fn leads_to(
    table: Seq<MountEntry>,
    candidate: Seq<u8>,
    device: Seq<char>,
    place: Seq<u8>,
) -> bool {
    match covering(table, path::parts(candidate)) {
        None => false,
        Some(i) => table[i].device == device && path::same_path(
            path::join_path(table[i].root, below(candidate, table[i].point)),
            place,
        ),
    }
}

/// The path through one mount to a place on its disk, where that mount shows it.
pub open spec fn way_through(
    table: Seq<MountEntry>,
    entry: MountEntry,
    place: Seq<u8>,
) -> Option<Seq<u8>> {
    match shown_at(entry, place) {
        Some(candidate) => if leads_to(table, candidate, entry.device, place) {
            Some(candidate)
        } else {
            None
        },
        None => None,
    }
}

/// All the paths through the given mounts to a place, in the order of the mounts.
pub open spec fn ways(
    table: Seq<MountEntry>,
    entries: Seq<MountEntry>,
    place: Seq<u8>,
) -> Seq<Seq<u8>>
    decreases entries.len(),
{
    if entries.len() == 0 {
        Seq::empty()
    } else {
        let before = ways(table, entries.drop_last(), place);
        match way_through(table, entries.last(), place) {
            Some(candidate) => before.push(candidate),
            None => before,
        }
    }
}

/// `a` is a better way than `b`: it has fewer parts, or as many and comes first in order.
pub open spec fn is_better(a: Seq<u8>, b: Seq<u8>) -> bool {
    let (x, y) = (path::parts(a), path::parts(b));
    x.len() < y.len() || (x.len() == y.len() && path::parts_before(x, y))
}

/// The best of the ways; of equally good ones the first.
pub open spec fn best(list: Seq<Seq<u8>>) -> Option<Seq<u8>>
    decreases list.len(),
{
    if list.len() == 0 {
        None
    } else {
        match best(list.drop_last()) {
            Some(kept) => if is_better(list.last(), kept) {
                Some(list.last())
            } else {
                Some(kept)
            },
            None => Some(list.last()),
        }
    }
}

/// All mounts of the list are of one device.
pub open spec fn one_device(entries: Seq<MountEntry>) -> bool {
    forall|i: int| 0 <= i < entries.len() ==> #[trigger] entries[i].device == entries[0].device
}

/// What resolving a reference gives: a path, or what stands in the way.
pub open spec fn resolution(table: Seq<MountEntry>, reference: Reference) -> Result<
    Seq<u8>,
    Seq<char>,
> {
    let entries = on_disk(table, reference.disk);
    if !is_valid(reference) {
        Err(complaint(reference))
    } else if entries.len() == 0 {
        Err("文件系统 "@ + reference.disk + " 未挂载或无法识别"@)
    } else if !one_device(entries) {
        Err("多个设备使用相同 UUID "@ + reference.disk + "，请重新选择磁盘"@)
    } else {
        match best(ways(table, entries, inside(reference))) {
            Some(found) => Ok(found),
            None => Err(
                "文件系统 "@ + reference.disk + " 上的目录当前不可访问: "@ + path::lossy_text(
                    reference.relative,
                ),
            ),
        }
    }
}

/// Two references name the same place.
pub open spec fn same_reference(a: Reference, b: Reference) -> bool {
    a.disk == b.disk && path::same_path(a.relative, b.relative)
}

/// The reference to a path, given only where it leads back to itself.
pub open spec fn inferred(table: Seq<MountEntry>, place: Seq<u8>) -> Option<Reference> {
    match reference_to(table, place) {
        None => None,
        Some(reference) => match resolution(table, reference) {
            Err(_) => None,
            Ok(found) => match reference_to(table, found) {
                Some(back) => if same_reference(back, reference) {
                    Some(reference)
                } else {
                    None
                },
                None => None,
            },
        },
    }
}

proof fn lemma_covering(table: Seq<MountEntry>, place: Seq<Part<Seq<u8>>>)
    ensures
        match covering(table, place) {
            Some(i) => 0 <= i < table.len() && path::parts(table[i].point).is_prefix_of(place),
            None => true,
        },
    decreases table.len(),
{
    if table.len() > 0 {
        lemma_covering(table.drop_last(), place);
    }
}

impl MountPath {
    pub fn same(&self, other: &MountPath) -> (yes: bool)
        ensures
            yes == same_reference(self@, other@),
    {
        same_text(self.disk.as_str(), other.disk.as_str()) && self.relative.same(&other.relative)
    }
}

impl MountTable {
    pub fn empty() -> (table: MountTable)
        ensures
            table@ == Seq::<MountEntry>::empty(),
    {
        let table = MountTable { entries: Vec::new() };
        assert(table@ =~= Seq::<MountEntry>::empty());
        table
    }

    /// The mount that a path goes through.
    fn covering(&self, place: &Vec<Part<Vec<u8>>>) -> (at: Option<usize>)
        ensures
            match at {
                Some(i) => covering(self@, path::parts_view(place@)) == Some(i as int) && i
                    < self.entries@.len() && path::parts(self@[i as int].point).is_prefix_of(
                    path::parts_view(place@),
                ),
                None => covering(self@, path::parts_view(place@)) is None,
            },
    {
        let ghost list = path::parts_view(place@);
        let mut kept: Option<usize> = None;
        let mut longest: usize = 0;
        let mut i: usize = 0;
        while i < self.entries.len()
            invariant
                i <= self.entries@.len(),
                list == path::parts_view(place@),
                match kept {
                    Some(k) => covering(self@.take(i as int), list) == Some(k as int) && k < i
                        && longest == path::parts(self@[k as int].point).len(),
                    None => covering(self@.take(i as int), list) is None,
                },
            decreases self.entries@.len() - i,
        {
            let ghost next = self@.take(i + 1);
            assert(next.drop_last() =~= self@.take(i as int));
            assert(next.last() == self.entries@[i as int]@);
            let point = self.entries[i].point.parts();
            let n: usize = point.len();
            assert(path::parts_view(point@).len() == n);
            if parts_start_with(place, &point) {
                match kept {
                    Some(k) => {
                        assert(next[k as int] == self@[k as int]);
                        if longest <= n {
                            kept = Some(i);
                            longest = n;
                        }
                    },
                    None => {
                        kept = Some(i);
                        longest = n;
                    },
                }
            }
            i += 1;
        }
        assert(self@.take(i as int) =~= self@);
        proof {
            lemma_covering(self@, list);
        }
        kept
    }

    /// The reference to a path, taken from the mount it goes through.
    pub fn reference_of(&self, place: &FsPath) -> (reference: Option<MountPath>)
        ensures
            reference_view(reference) == reference_to(self@, place@),
    {
        let list = place.parts();
        let at = match self.covering(&list) {
            Some(at) => at,
            None => {
                return None;
            },
        };
        let entry = &self.entries[at];
        assert(self@[at as int] == entry@);
        let disk = match &entry.disk {
            Some(disk) => disk.clone(),
            None => {
                return None;
            },
        };
        if !entry.root.absolute() {
            return None;
        }
        let point = entry.point.parts();
        proof {
            path::parts_start(entry.root@);
            assert(path::parts_view(point@).len() == point@.len());
        }
        let front = entry.root.remainder(1);
        let back = place.remainder(point.len());
        let reference = MountPath { disk, relative: front.join(&back) };
        match reference.validate() {
            Ok(_) => Some(reference),
            Err(_) => None,
        }
    }

    /// The path through one mount to a place on its disk, where that mount shows it.
    fn way_through(&self, at: usize, place: &FsPath) -> (found: Option<FsPath>)
        requires
            at < self.entries@.len(),
        ensures
            match found {
                Some(found) => way_through(self@, self@[at as int], place@) == Some(found@),
                None => way_through(self@, self@[at as int], place@) is None,
            },
    {
        let entry = &self.entries[at];
        assert(self@[at as int] == entry@);
        let root = entry.root.parts();
        assert(path::parts_view(root@).len() == root@.len());
        if !parts_start_with(&place.parts(), &root) {
            return None;
        }
        let tail = place.remainder(root.len());
        let candidate = entry.point.join(&tail);
        match self.covering(&candidate.parts()) {
            None => None,
            Some(v) => {
                let visible = &self.entries[v];
                assert(self@[v as int] == visible@);
                let point = visible.point.parts();
                assert(path::parts_view(point@).len() == point@.len());
                let actual = visible.root.join(&candidate.remainder(point.len()));
                if same_text(visible.device.as_str(), entry.device.as_str()) && actual.same(place) {
                    Some(candidate)
                } else {
                    None
                }
            },
        }
    }

    /// The mounts of a disk, by their position.
    fn on_disk(&self, disk: &str) -> (list: Vec<usize>)
        ensures
            forall|i: int| 0 <= i < list@.len() ==> #[trigger] list@[i] < self.entries@.len(),
            list@.map_values(|i: usize| self@[i as int]) == on_disk(self@, disk@),
    {
        let ghost keep = |entry: MountEntry| entry.disk == Some(disk@);
        let mut list: Vec<usize> = Vec::new();
        let mut i: usize = 0;
        assert(list@.map_values(|i: usize| self@[i as int]) =~= self@.take(0).filter(keep)) by {
            reveal(Seq::filter);
        }
        while i < self.entries.len()
            invariant
                i <= self.entries@.len(),
                keep == (|entry: MountEntry| entry.disk == Some(disk@)),
                forall|k: int| 0 <= k < list@.len() ==> #[trigger] list@[k] < self.entries@.len(),
                list@.map_values(|i: usize| self@[i as int]) == self@.take(i as int).filter(keep),
            decreases self.entries@.len() - i,
        {
            let ghost next = self@.take(i + 1);
            let ghost before = list@;
            assert(next.drop_last() =~= self@.take(i as int));
            assert(next.last() == self.entries@[i as int]@);
            assert(next.filter(keep) == if keep(next.last()) {
                next.drop_last().filter(keep).push(next.last())
            } else {
                next.drop_last().filter(keep)
            }) by {
                reveal(Seq::filter);
            }
            let matches_disk = match &self.entries[i].disk {
                Some(own) => same_text(own.as_str(), disk),
                None => false,
            };
            if matches_disk {
                list.push(i);
                assert(list@.map_values(|i: usize| self@[i as int]) =~= before.map_values(
                    |i: usize| self@[i as int],
                ).push(self@[i as int]));
            }
            i += 1;
        }
        assert(self@.take(i as int) =~= self@);
        list
    }

    /// Where a reference leads right now.
    pub fn resolve(&self, reference: &MountPath) -> (outcome: Result<FsPath, String>)
        ensures
            match outcome {
                Ok(found) => resolution(self@, reference@) == Ok::<Seq<u8>, Seq<char>>(found@),
                Err(message) => resolution(self@, reference@) == Err::<Seq<u8>, Seq<char>>(
                    message@,
                ),
            },
    {
        match reference.validate() {
            Ok(_) => {},
            Err(message) => {
                return Err(message);
            },
        }
        let list = self.on_disk(reference.disk.as_str());
        let ghost entries = on_disk(self@, reference.disk@);
        assert(entries.len() == list@.len());
        assert(forall|k: int|
            0 <= k < list@.len() ==> entries[k] == self@[#[trigger] list@[k] as int]);
        if list.len() == 0 {
            let mut message = "文件系统 ".to_owned();
            message.append(reference.disk.as_str());
            message.append(" 未挂载或无法识别");
            return Err(message);
        }
        let mut k: usize = 1;
        while k < list.len()
            invariant
                1 <= k <= list@.len(),
                entries.len() == list@.len(),
                entries == on_disk(self@, reference.disk@),
                is_valid(reference@),
                forall|k: int| 0 <= k < list@.len() ==> #[trigger] list@[k] < self.entries@.len(),
                forall|k: int|
                    0 <= k < list@.len() ==> entries[k] == self@[#[trigger] list@[k] as int],
                forall|j: int| 0 <= j < k ==> #[trigger] entries[j].device == entries[0].device,
            decreases list@.len() - k,
        {
            let own = &self.entries[list[k]];
            let first = &self.entries[list[0]];
            assert(entries[k as int] == own@);
            assert(entries[0] == first@);
            if !same_text(own.device.as_str(), first.device.as_str()) {
                assert(entries[k as int].device != entries[0].device);
                assert(!one_device(entries));
                let mut message = "多个设备使用相同 UUID ".to_owned();
                message.append(reference.disk.as_str());
                message.append("，请重新选择磁盘");
                return Err(message);
            }
            k += 1;
        }
        assert(one_device(entries));
        let mut raw: Vec<u8> = Vec::new();
        raw.push(path::SLASH);
        let root = FsPath { raw };
        assert(root@ =~= seq![path::SLASH]);
        let place = root.join(&reference.relative);
        let ghost target = inside(reference@);
        let mut kept: Option<FsPath> = None;
        let mut kept_parts: Vec<Part<Vec<u8>>> = Vec::new();
        let mut k: usize = 0;
        while k < list.len()
            invariant
                k <= list@.len(),
                entries.len() == list@.len(),
                target == place@,
                forall|k: int| 0 <= k < list@.len() ==> #[trigger] list@[k] < self.entries@.len(),
                forall|k: int|
                    0 <= k < list@.len() ==> entries[k] == self@[#[trigger] list@[k] as int],
                match kept {
                    Some(kept) => best(ways(self@, entries.take(k as int), target)) == Some(kept@)
                        && path::parts_view(kept_parts@) == path::parts(kept@),
                    None => best(ways(self@, entries.take(k as int), target)) is None,
                },
            decreases list@.len() - k,
        {
            let ghost next = entries.take(k + 1);
            assert(next.drop_last() =~= entries.take(k as int));
            assert(next.last() == self@[list@[k as int] as int]);
            match self.way_through(list[k], &place) {
                Some(candidate) => {
                    let ghost before = ways(self@, entries.take(k as int), target);
                    let ghost now = ways(self@, next, target);
                    assert(now == before.push(candidate@));
                    assert(now.drop_last() =~= before);
                    let own = candidate.parts();
                    assert(path::parts_view(own@).len() == own@.len());
                    assert(path::parts_view(kept_parts@).len() == kept_parts@.len());
                    let take = match kept {
                        None => true,
                        Some(_) => own.len() < kept_parts.len() || (own.len() == kept_parts.len()
                            && parts_come_before(&own, &kept_parts)),
                    };
                    if take {
                        kept = Some(candidate);
                        kept_parts = own;
                    }
                },
                None => {},
            }
            k += 1;
        }
        assert(entries.take(k as int) =~= entries);
        match kept {
            Some(found) => Ok(found),
            None => {
                let mut message = "文件系统 ".to_owned();
                message.append(reference.disk.as_str());
                message.append(" 上的目录当前不可访问: ");
                message.append(reference.relative.text().as_str());
                Err(message)
            },
        }
    }

    /// The reference to a path with no links in it, given only where it leads back to itself.
    ///
    /// One file system may be mounted in several places, so the resolved path need not be the
    /// one that was given; but it has to have the same reference.
    pub fn infer_canonical(&self, place: &FsPath) -> (reference: Option<MountPath>)
        ensures
            reference_view(reference) == inferred(self@, place@),
    {
        let reference = match self.reference_of(place) {
            Some(reference) => reference,
            None => {
                return None;
            },
        };
        let found = match self.resolve(&reference) {
            Ok(found) => found,
            Err(_) => {
                return None;
            },
        };
        match self.reference_of(&found) {
            Some(back) => if back.same(&reference) {
                Some(reference)
            } else {
                None
            },
            None => None,
        }
    }
}

} // verus!
