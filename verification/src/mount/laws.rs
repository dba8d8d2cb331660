//! What holds of references, whatever is mounted where.

use crate::mount::table;
use crate::mount::table::{MountEntry, Reference};
use crate::path;
use crate::path::Part;
use vstd::prelude::*;

verus! {

// ---------------------------------------------------------------------------------------------
// The mount that a path goes through

/// The mount that a path goes through covers it, no covering mount has a longer point, and of
/// those with an equally long point none comes later. A path that some mount covers goes
/// through one.
pub proof fn the_longest_mount_covers(mounts: Seq<MountEntry>, place: Seq<Part<Seq<u8>>>)
    ensures
        match table::covering(mounts, place) {
            Some(i) => {
                &&& 0 <= i < mounts.len()
                &&& path::parts(mounts[i].point).is_prefix_of(place)
                &&& forall|j: int|
                    0 <= j < mounts.len() && path::parts(
                        (#[trigger] mounts[j]).point,
                    ).is_prefix_of(place) ==> path::parts(mounts[j].point).len() <= path::parts(
                        mounts[i].point,
                    ).len()
                &&& forall|j: int|
                    i < j < mounts.len() && path::parts(
                        (#[trigger] mounts[j]).point,
                    ).is_prefix_of(place) ==> path::parts(mounts[j].point).len() < path::parts(
                        mounts[i].point,
                    ).len()
            },
            None => forall|j: int|
                0 <= j < mounts.len() ==> !path::parts((#[trigger] mounts[j]).point).is_prefix_of(
                    place,
                ),
        },
    decreases mounts.len(),
{
    if mounts.len() > 0 {
        let front = mounts.drop_last();
        the_longest_mount_covers(front, place);
        assert forall|j: int| 0 <= j < front.len() implies front[j] == mounts[j] by {}
        match table::covering(mounts, place) {
            Some(i) => {
                assert forall|j: int|
                    0 <= j < mounts.len() && path::parts(
                        (#[trigger] mounts[j]).point,
                    ).is_prefix_of(place) implies path::parts(mounts[j].point).len()
                    <= path::parts(mounts[i].point).len() by {
                    if j < front.len() {
                        assert(front[j] == mounts[j]);
                    }
                }
                assert forall|j: int|
                    i < j < mounts.len() && path::parts(
                        (#[trigger] mounts[j]).point,
                    ).is_prefix_of(place) implies path::parts(mounts[j].point).len() < path::parts(
                    mounts[i].point,
                ).len() by {
                    if j < front.len() {
                        assert(front[j] == mounts[j]);
                    }
                }
            },
            None => {
                assert forall|j: int| 0 <= j < mounts.len() implies !path::parts(
                    (#[trigger] mounts[j]).point,
                ).is_prefix_of(place) by {
                    if j < front.len() {
                        assert(front[j] == mounts[j]);
                    }
                }
            },
        }
    }
}

// ---------------------------------------------------------------------------------------------
// Which way is taken

proof fn lemma_better_is_total(a: Seq<u8>, b: Seq<u8>)
    ensures
        !(table::is_better(a, b) && table::is_better(b, a)),
        !table::is_better(a, a),
{
    path::path_order_is_total(path::parts(a), path::parts(b));
    path::path_order_is_total(path::parts(a), path::parts(a));
}

proof fn lemma_not_better_is_transitive(a: Seq<u8>, b: Seq<u8>, c: Seq<u8>)
    requires
        !table::is_better(a, b),
        table::is_better(c, b),
    ensures
        !table::is_better(a, c),
{
    let (x, y, z) = (path::parts(a), path::parts(b), path::parts(c));
    if table::is_better(a, c) {
        if x.len() == z.len() && z.len() == y.len() {
            path::path_order_is_transitive(x, z, y);
        }
    }
}

/// The chosen way is one of the ways, and none of them is better. There is one as soon as
/// there is any way.
pub proof fn the_best_way_is_taken(list: Seq<Seq<u8>>)
    ensures
        match table::best(list) {
            Some(kept) => list.contains(kept) && forall|i: int|
                0 <= i < list.len() ==> !table::is_better(#[trigger] list[i], kept),
            None => list.len() == 0,
        },
    decreases list.len(),
{
    if list.len() > 0 {
        let front = list.drop_last();
        the_best_way_is_taken(front);
        match table::best(front) {
            Some(kept) => {
                let k = front.index_of(kept);
                assert(list[k] == kept);
                assert forall|i: int| 0 <= i < list.len() implies !table::is_better(
                    #[trigger] list[i],
                    table::best(list).unwrap(),
                ) by {
                    lemma_better_is_total(list.last(), list.last());
                    if i < front.len() {
                        assert(front[i] == list[i]);
                        if table::is_better(list.last(), kept) {
                            lemma_not_better_is_transitive(list[i], kept, list.last());
                        }
                    }
                }
                assert(list.contains(list.last())) by {
                    assert(list[list.len() - 1] == list.last());
                }
            },
            None => {
                assert(list[0] == list.last());
                lemma_better_is_total(list[0], list[0]);
            },
        }
    }
}

proof fn lemma_ways(
    mounts: Seq<MountEntry>,
    entries: Seq<MountEntry>,
    place: Seq<u8>,
    found: Seq<u8>,
)
    requires
        table::ways(mounts, entries, place).contains(found),
    ensures
        exists|i: int|
            0 <= i < entries.len() && table::way_through(mounts, #[trigger] entries[i], place)
                == Some(found),
    decreases entries.len(),
{
    let list = table::ways(mounts, entries, place);
    let k = list.index_of(found);
    if entries.len() > 0 {
        let front = entries.drop_last();
        let before = table::ways(mounts, front, place);
        if k < before.len() {
            assert(before[k] == found);
            lemma_ways(mounts, front, place, found);
            let i = choose|i: int|
                0 <= i < front.len() && table::way_through(mounts, #[trigger] front[i], place)
                    == Some(found);
            assert(entries[i] == front[i]);
        } else {
            assert(entries[entries.len() - 1] == entries.last());
        }
    }
}

proof fn lemma_on_disk(mounts: Seq<MountEntry>, disk: Seq<char>)
    ensures
        forall|i: int|
            0 <= i < table::on_disk(mounts, disk).len() ==> mounts.contains(
                #[trigger] table::on_disk(mounts, disk)[i],
            ) && table::on_disk(mounts, disk)[i].disk == Some(disk),
    decreases mounts.len(),
{
    reveal(Seq::filter);
    if mounts.len() > 0 {
        let front = mounts.drop_last();
        lemma_on_disk(front, disk);
        let list = table::on_disk(mounts, disk);
        let before = table::on_disk(front, disk);
        assert forall|i: int| 0 <= i < list.len() implies mounts.contains(#[trigger] list[i])
            && list[i].disk == Some(disk) by {
            if i < before.len() {
                assert(list[i] == before[i]);
                let k = front.index_of(before[i]);
                assert(mounts[k] == list[i]);
            } else {
                assert(mounts[mounts.len() - 1] == list[i]);
            }
        }
    }
}

// ---------------------------------------------------------------------------------------------
// Resolving

/// A resolved path lies at or under the mount point of a mount of the named disk, and it
/// really leads to the named place on the device of that disk: no other mount hides it.
pub proof fn a_resolved_path_leads_to_its_disk(mounts: Seq<MountEntry>, reference: Reference)
    requires
        table::resolution(mounts, reference) is Ok,
    ensures
        exists|i: int|
            {
                let entry = #[trigger] mounts[i];
                let found = table::resolution(mounts, reference)->Ok_0;
                &&& 0 <= i < mounts.len()
                &&& entry.disk == Some(reference.disk)
                &&& table::shown_at(entry, table::inside(reference)) == Some(found)
                &&& table::leads_to(mounts, found, entry.device, table::inside(reference))
            },
{
    let entries = table::on_disk(mounts, reference.disk);
    let place = table::inside(reference);
    let list = table::ways(mounts, entries, place);
    let found = table::best(list).unwrap();
    the_best_way_is_taken(list);
    lemma_ways(mounts, entries, place, found);
    lemma_on_disk(mounts, reference.disk);
    let k = choose|i: int|
        0 <= i < entries.len() && table::way_through(mounts, #[trigger] entries[i], place) == Some(
            found,
        );
    let i = mounts.index_of(entries[k]);
    assert(mounts[i] == entries[k]);
}

/// Of all the ways to a place the one with the fewest parts is taken, so which path a
/// reference leads to does not depend on the order in which the mounts are listed, up to the
/// spelling of the path.
pub proof fn the_shortest_way_is_taken(mounts: Seq<MountEntry>, reference: Reference, other: Seq<u8>)
    requires
        table::resolution(mounts, reference) is Ok,
        table::ways(
            mounts,
            table::on_disk(mounts, reference.disk),
            table::inside(reference),
        ).contains(other),
    ensures
        path::parts(table::resolution(mounts, reference)->Ok_0).len() <= path::parts(other).len(),
        !table::is_better(other, table::resolution(mounts, reference)->Ok_0),
{
    let list = table::ways(
        mounts,
        table::on_disk(mounts, reference.disk),
        table::inside(reference),
    );
    the_best_way_is_taken(list);
    let k = list.index_of(other);
    assert(list[k] == other);
}

/// A reference that is not valid resolves to nothing, whatever is mounted.
pub proof fn an_invalid_reference_is_refused(mounts: Seq<MountEntry>, reference: Reference)
    requires
        !table::is_valid(reference),
    ensures
        table::resolution(mounts, reference) == Err::<Seq<u8>, Seq<char>>(
            table::complaint(reference),
        ),
{
}

/// A reference that is handed out is valid.
pub proof fn references_are_valid(mounts: Seq<MountEntry>, place: Seq<u8>)
    ensures
        match table::reference_to(mounts, place) {
            Some(reference) => table::is_valid(reference),
            None => true,
        },
{
}

/// An inferred reference resolves, and what it resolves to has the same reference again.
pub proof fn an_inferred_reference_leads_back(mounts: Seq<MountEntry>, place: Seq<u8>)
    requires
        table::inferred(mounts, place) is Some,
    ensures
        ({
            let reference = table::inferred(mounts, place).unwrap();
            &&& table::reference_to(mounts, place) == Some(reference)
            &&& table::resolution(mounts, reference) is Ok
            &&& table::reference_to(mounts, table::resolution(mounts, reference)->Ok_0) is Some
            &&& table::same_reference(
                table::reference_to(mounts, table::resolution(mounts, reference)->Ok_0).unwrap(),
                reference,
            )
        }),
{
}

/// A path under a mount whose disk is not known gets no reference: it is never taken for a
/// path of the disk around that mount.
pub proof fn an_unknown_disk_gets_no_reference(mounts: Seq<MountEntry>, place: Seq<u8>, i: int)
    requires
        table::covering(mounts, path::parts(place)) == Some(i),
        mounts[i].disk is None,
    ensures
        table::reference_to(mounts, place) is None,
{
}

/// The parts of the path that a valid reference names.
proof fn lemma_inside(reference: Reference)
    requires
        table::is_valid(reference),
    ensures
        path::parts(table::inside(reference)) == seq![Part::<Seq<u8>>::Root] + path::without_here(
            path::parts(reference.relative),
        ),
{
    path::parts_start(reference.relative);
    if path::is_absolute(reference.relative) {
        assert(path::parts(reference.relative)[0] is Root);
    }
    path::parts_of_join(seq![path::SLASH], reference.relative);
    path::parts_of_root();
}

/// A disk that shows up at another place keeps its references. Whatever directory of the disk
/// is mounted, and wherever: as long as it is the only mount that covers the path and it shows
/// the named place, the reference leads to the mount point followed by the rest of the path.
pub proof fn references_survive_a_move(entry: MountEntry, reference: Reference)
    requires
        table::is_valid(reference),
        entry.disk == Some(reference.disk),
        path::is_absolute(entry.root),
        path::is_absolute(entry.point),
        path::parts(entry.root).is_prefix_of(path::parts(table::inside(reference))),
    ensures
        table::resolution(seq![entry], reference) == Ok::<Seq<u8>, Seq<char>>(
            path::join_path(entry.point, table::below(table::inside(reference), entry.root)),
        ),
{
    let mounts = seq![entry];
    let place = table::inside(reference);
    let keep = |e: MountEntry| e.disk == Some(reference.disk);
    assert(table::on_disk(mounts, reference.disk) =~= mounts) by {
        reveal(Seq::filter);
        assert(mounts.drop_last() =~= Seq::<MountEntry>::empty());
        assert(mounts.drop_last().filter(keep) =~= Seq::<MountEntry>::empty());
        assert(mounts.last() == entry);
        assert(Seq::<MountEntry>::empty().push(entry) =~= mounts);
    }
    path::parts_start(entry.root);
    path::parts_start(entry.point);
    let n = path::parts(entry.root).len() as int;
    let whole = path::parts(place);
    let tail = table::below(place, entry.root);
    path::a_remainder_has_the_other_parts(place, n);
    let found = path::join_path(entry.point, tail);
    path::parts_of_join(entry.point, tail);
    let list = path::parts(found);
    let point = path::parts(entry.point);
    let rest = whole.skip(n);
    assert(list == point + rest);
    assert(point.is_prefix_of(list)) by {
        assert(list.subrange(0, point.len() as int) =~= point);
    }
    assert(mounts.drop_last() =~= Seq::<MountEntry>::empty());
    assert(table::covering(mounts.drop_last(), list) is None);
    assert(table::covering(mounts, list) == Some(0int));
    let back = table::below(found, entry.point);
    path::a_remainder_has_the_other_parts(found, point.len() as int);
    assert(list.skip(point.len() as int) =~= rest);
    path::parts_of_join(entry.root, back);
    assert(path::parts(entry.root) + rest =~= whole) by {
        assert(whole.subrange(0, n) =~= path::parts(entry.root));
        assert(whole =~= whole.subrange(0, n) + whole.skip(n));
    }
    assert(table::leads_to(mounts, found, entry.device, place));
    assert(table::way_through(mounts, entry, place) == Some(found));
    assert(table::ways(mounts.drop_last(), mounts.drop_last(), place) =~= Seq::<Seq<u8>>::empty());
    assert(table::ways(mounts, mounts.drop_last(), place) =~= Seq::<Seq<u8>>::empty());
    assert(table::ways(mounts, mounts, place) =~= seq![found]);
    assert(seq![found].drop_last() =~= Seq::<Seq<u8>>::empty());
    assert(table::best(seq![found].drop_last()) is None);
    assert(table::best(seq![found]) == Some(found));
    assert(table::one_device(mounts));
}

proof fn lemma_some_way(
    mounts: Seq<MountEntry>,
    entries: Seq<MountEntry>,
    place: Seq<u8>,
    i: int,
)
    requires
        0 <= i < entries.len(),
        table::way_through(mounts, entries[i], place) is Some,
    ensures
        table::ways(mounts, entries, place).len() > 0,
    decreases entries.len(),
{
    if i < entries.len() - 1 {
        lemma_some_way(mounts, entries.drop_last(), place, i);
    }
}

proof fn lemma_kept_on_disk(mounts: Seq<MountEntry>, disk: Seq<char>, i: int)
    requires
        0 <= i < mounts.len(),
        mounts[i].disk == Some(disk),
    ensures
        table::on_disk(mounts, disk).contains(mounts[i]),
{
    let keep = |entry: MountEntry| entry.disk == Some(disk);
    assert(keep(mounts[i]));
    mounts.lemma_filter_contains(keep, i);
}

/// A path that has a reference can be reached by it again, unless the disk is mounted from
/// several devices at once.
pub proof fn a_referenced_path_can_be_reached(mounts: Seq<MountEntry>, place: Seq<u8>)
    requires
        forall|i: int| 0 <= i < mounts.len() ==> path::is_absolute((#[trigger] mounts[i]).point),
        table::reference_to(mounts, place) is Some,
        table::one_device(
            table::on_disk(mounts, table::reference_to(mounts, place).unwrap().disk),
        ),
    ensures
        table::resolution(mounts, table::reference_to(mounts, place).unwrap()) is Ok,
{
    let reference = table::reference_to(mounts, place).unwrap();
    let list = path::parts(place);
    the_longest_mount_covers(mounts, list);
    let at = table::covering(mounts, list).unwrap();
    let entry = mounts[at];
    let root = path::parts(entry.root);
    let point = path::parts(entry.point);
    let rest = list.skip(point.len() as int);
    path::parts_start(entry.root);
    path::parts_start(entry.point);
    let front = path::remainder(entry.root, 1);
    let back = table::below(place, entry.point);
    path::a_remainder_has_the_other_parts(place, point.len() as int);
    path::a_remainder_has_the_other_parts(entry.root, 1);
    let joined = root.skip(1) + rest;
    path::parts_start(place);
    assert(path::without_here(joined) =~= joined) by {
        if joined.len() > 0 {
            if root.skip(1).len() > 0 {
                assert(joined[0] == root[1]);
            } else {
                assert(joined[0] == rest[0]);
                assert(rest[0] == list[point.len() as int]);
            }
        }
    }
    assert(path::parts(reference.relative) == joined) by {
        if front.len() == 0 {
            assert(front =~= Seq::<u8>::empty());
            path::parts_of_nothing();
            assert(path::join_path(front, back) =~= back);
            assert(joined =~= rest);
        } else {
            path::parts_of_join(front, back);
        }
    }
    let target = table::inside(reference);
    let whole = path::parts(target);
    lemma_inside(reference);
    assert(whole =~= root + rest);
    assert(root.is_prefix_of(whole)) by {
        assert(whole.subrange(0, root.len() as int) =~= root);
    }
    let tail = table::below(target, entry.root);
    path::a_remainder_has_the_other_parts(target, root.len() as int);
    assert(whole.skip(root.len() as int) =~= rest);
    let found = path::join_path(entry.point, tail);
    path::parts_of_join(entry.point, tail);
    assert(path::parts(found) =~= list) by {
        assert(list.subrange(0, point.len() as int) =~= point);
        assert(list =~= point + rest);
    }
    let back = table::below(found, entry.point);
    path::a_remainder_has_the_other_parts(found, point.len() as int);
    path::parts_of_join(entry.root, back);
    assert(table::leads_to(mounts, found, entry.device, target));
    assert(table::way_through(mounts, entry, target) == Some(found));
    let entries = table::on_disk(mounts, reference.disk);
    lemma_kept_on_disk(mounts, reference.disk, at);
    let k = entries.index_of(entry);
    assert(entries[k] == entry);
    lemma_some_way(mounts, entries, target, k);
    the_best_way_is_taken(table::ways(mounts, entries, target));
}

/// A reference names the disk of the mount that the path goes through, and the place on that disk:
/// the directory of the disk that is mounted, followed by what is left of the path below the mount
/// point.
pub proof fn a_reference_names_the_place_on_the_disk(mounts: Seq<MountEntry>, place: Seq<u8>, i: int)
    requires
        table::covering(mounts, path::parts(place)) == Some(i),
        path::is_absolute(mounts[i].point),
        path::is_absolute(mounts[i].root),
        mounts[i].disk is Some,
    ensures
        ({
            let entry = mounts[i];
            let inner = path::parts(entry.root).skip(1) + path::parts(place).skip(
                path::parts(entry.point).len() as int,
            );
            match table::reference_to(mounts, place) {
                Some(reference) => Some(reference.disk) == entry.disk && path::parts(
                    reference.relative,
                ) == inner,
                None => !table::is_disk(entry.disk.unwrap()) || exists|k: int|
                    0 <= k < inner.len() && !(#[trigger] inner[k] is Name || inner[k] is Here),
            }
        }),
{
    let list = path::parts(place);
    the_longest_mount_covers(mounts, list);
    let entry = mounts[i];
    let root = path::parts(entry.root);
    let point = path::parts(entry.point);
    let rest = list.skip(point.len() as int);
    path::parts_start(entry.root);
    path::parts_start(entry.point);
    let front = path::remainder(entry.root, 1);
    let back = table::below(place, entry.point);
    path::a_remainder_has_the_other_parts(place, point.len() as int);
    path::a_remainder_has_the_other_parts(entry.root, 1);
    let joined = root.skip(1) + rest;
    let relative = path::join_path(front, back);
    assert(path::parts(relative) == joined) by {
        if front.len() == 0 {
            assert(front =~= Seq::<u8>::empty());
            path::parts_of_nothing();
            assert(relative =~= back);
            assert(joined =~= rest);
        } else {
            path::parts_of_join(front, back);
        }
    }
    let reference = Reference { disk: entry.disk.unwrap(), relative };
    if !table::is_valid(reference) && table::is_disk(reference.disk) {
        let k = choose|k: int|
            0 <= k < path::parts(relative).len() && match #[trigger] path::parts(relative)[k] {
                Part::Name(_) => false,
                Part::Here => false,
                _ => true,
            };
        assert(!(joined[k] is Name || joined[k] is Here));
    }
}

/// Which references are good: those with a disk that is no path, and a way that only goes down.
/// What is wrong with the others is said.
pub proof fn which_references_are_valid(reference: Reference)
    ensures
        table::is_valid(reference) <==> reference.disk.len() > 0 && !reference.disk.contains('/')
            && !reference.disk.contains('\\') && forall|i: int|
            0 <= i < path::parts(reference.relative).len() ==> #[trigger] path::parts(
                reference.relative,
            )[i] is Name || path::parts(reference.relative)[i] is Here,
        reference.disk.len() == 0 || reference.disk.contains('/') || reference.disk.contains('\\')
            ==> table::complaint(reference) == "挂载引用的 UUID 无效"@,
        reference.disk.len() > 0 && !reference.disk.contains('/') && !reference.disk.contains('\\')
            ==> table::complaint(reference) == "挂载引用必须使用不含 .. 的相对路径"@,
{
}

/// A disk that no mount shows cannot be reached, and neither can one that two devices claim to be.
pub proof fn a_disk_has_to_be_mounted_once(
    mounts: Seq<MountEntry>,
    reference: Reference,
    i: int,
    j: int,
)
    requires
        table::is_valid(reference),
    ensures
        (forall|k: int|
            0 <= k < mounts.len() ==> (#[trigger] mounts[k]).disk != Some(reference.disk))
            ==> table::resolution(mounts, reference) == Err::<Seq<u8>, Seq<char>>(
            "文件系统 "@ + reference.disk + " 未挂载或无法识别"@,
        ),
        0 <= i < mounts.len() && 0 <= j < mounts.len() && mounts[i].disk == Some(reference.disk)
            && mounts[j].disk == Some(reference.disk) && mounts[i].device != mounts[j].device
            ==> table::resolution(mounts, reference) == Err::<Seq<u8>, Seq<char>>(
            "多个设备使用相同 UUID "@ + reference.disk + "，请重新选择磁盘"@,
        ),
{
    let entries = table::on_disk(mounts, reference.disk);
    lemma_on_disk(mounts, reference.disk);
    if forall|k: int| 0 <= k < mounts.len() ==> (#[trigger] mounts[k]).disk != Some(
        reference.disk,
    ) {
        if entries.len() > 0 {
            let k = mounts.index_of(entries[0]);
            assert(mounts[k].disk == Some(reference.disk));
        }
    }
    if 0 <= i < mounts.len() && 0 <= j < mounts.len() && mounts[i].disk == Some(reference.disk)
        && mounts[j].disk == Some(reference.disk) && mounts[i].device != mounts[j].device {
        lemma_kept_on_disk(mounts, reference.disk, i);
        lemma_kept_on_disk(mounts, reference.disk, j);
        let a = entries.index_of(mounts[i]);
        let b = entries.index_of(mounts[j]);
        assert(entries[a].device != entries[b].device);
    }
}

/// A way with fewer parts is better than one with more.
pub proof fn fewer_parts_are_better(a: Seq<u8>, b: Seq<u8>)
    ensures
        path::parts(a).len() < path::parts(b).len() ==> table::is_better(a, b) && !table::is_better(
            b,
            a,
        ),
        path::parts(a).len() == path::parts(b).len() ==> table::is_better(a, b)
            == path::parts_before(path::parts(a), path::parts(b)),
{
}

/// Two references name the same place exactly where they name the same disk and their paths have
/// the same parts.
pub proof fn when_references_name_the_same_place(a: Reference, b: Reference)
    ensures
        table::same_reference(a, b) <==> a.disk == b.disk && path::parts(a.relative) == path::parts(
            b.relative,
        ),
{
}

} // verus!
