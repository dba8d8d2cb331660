//! Which disk a path belongs to, and where it is found again.

use kotori::config::locations::infer_reference;
use kotori::mount::linux::{decode, find_disk, number_of_device, parse, parse_line};
use kotori::mount::table::{Mount, MountPath, MountTable};
use kotori::path::FsPath;

fn p(text: &str) -> FsPath {
    FsPath::from_text(text)
}

fn table(mountinfo: &str) -> MountTable {
    table_with(mountinfo, |device: &str, _source: &FsPath| match device {
        "8:1" => Some("AAAA-1111".to_string()),
        "8:17" => Some("BBBB-2222".to_string()),
        _ => None,
    })
}

fn table_with(
    mountinfo: &str,
    uuid: impl Fn(&str, &FsPath) -> Option<String>,
) -> MountTable {
    parse(mountinfo, uuid)
}

const BASE: &str = "\
36 27 8:1 / /r/w rw,relatime shared:1 - ext4 /dev/sda1 rw
37 27 8:17 / /media/extra rw,relatime shared:2 - ext4 /dev/sdb1 rw
";

#[test]
fn parse_reads_root_and_mountpoint() {
    let table = table(BASE);
    assert_eq!(table.entries.len(), 2);
    let root = table.entries.iter().find(|m| m.device == "8:1").unwrap();
    assert_eq!(root.root.text(), "/");
    assert_eq!(root.point.text(), "/r/w");
    assert_eq!(root.disk.as_deref(), Some("AAAA-1111"));
}

#[test]
fn tree_rooted_mount_keeps_its_root_in_references() {
    let mountinfo =
        format!("{BASE}40 27 8:1 /bind /bind rw,relatime shared:3 - ext4 /dev/sda1 rw\n");
    let table = table(&mountinfo);
    let reference = table.infer_canonical(&p("/bind/Game/game.exe")).unwrap();
    assert_eq!(reference.relative.text(), "bind/Game/game.exe");
    assert_eq!(table.resolve(&reference).unwrap().text(), "/bind/Game/game.exe");
}

#[test]
fn escape_sequences_are_decoded() {
    let mountinfo =
        format!("{BASE}40 27 8:1 / /media/My\\040Disk rw,relatime shared:3 - ext4 /dev/sda1 rw\n");
    let table = table(&mountinfo);
    let reference = table.infer_canonical(&p("/media/My Disk/Game")).unwrap();
    assert_eq!(reference.relative.text(), "Game");
    assert_eq!(table.resolve(&reference).unwrap().text(), "/media/My Disk/Game");
}

#[test]
fn nested_mount_wins_over_the_parent() {
    let mountinfo =
        format!("{BASE}38 36 8:17 / /r/w/nested rw,relatime shared:4 - ext4 /dev/sdb1 rw\n");
    let table = table(&mountinfo);
    let reference = table.infer_canonical(&p("/r/w/nested/data")).unwrap();
    assert_eq!(reference.disk, "BBBB-2222");
    assert_eq!(reference.relative.text(), "data");
}

#[test]
fn resolve_reports_a_disk_that_is_not_mounted() {
    let table = table(BASE);
    let reference = MountPath { disk: "DEAD-BEEF".into(), relative: p("games") };
    let error = table.resolve(&reference).err().unwrap();
    assert!(error.contains("DEAD-BEEF"), "{error}");
}

#[test]
fn references_with_traversal_or_absolute_parts_are_rejected() {
    let table = table(BASE);
    let absolute = MountPath { disk: "AAAA-1111".into(), relative: p("/etc") };
    let dotdot = MountPath { disk: "AAAA-1111".into(), relative: p("../x") };
    assert!(absolute.validate().is_err());
    assert!(dotdot.validate().is_err());
    assert!(table.resolve(&absolute).is_err());
    assert!(table.resolve(&dotdot).is_err());

    let clean = MountPath { disk: "AAAA-1111".into(), relative: p("games/demo") };
    assert_eq!(table.resolve(&clean).unwrap().text(), "/r/w/games/demo");
}

#[test]
fn infer_refuses_paths_without_a_known_disk() {
    // A path that does not exist has no canonical form, and nobody guesses where it would lie.
    let table = table(BASE);
    assert!(infer_reference(&table, &None).is_none());
}

#[test]
fn a_disk_mounted_at_two_points_resolves_to_the_shorter_one() {
    let mountinfo =
        format!("{BASE}40 27 8:1 /games /media/games rw,relatime shared:3 - ext4 /dev/sda1 rw\n");
    let table = table(&mountinfo);
    let reference = table.infer_canonical(&p("/r/w/games/Game/game.exe")).unwrap();
    assert_eq!(reference.relative.text(), "games/Game/game.exe");
    assert_eq!(
        table.resolve(&reference).unwrap().text(),
        "/media/games/Game/game.exe"
    );
}

#[test]
fn the_same_disk_remounting_elsewhere_keeps_references_working() {
    let old = table("40 27 8:1 / /media/game-old rw,relatime shared:1 - ext4 /dev/sda1 rw\n");
    let reference = old.infer_canonical(&p("/media/game-old/Game/game.exe")).unwrap();
    assert_eq!(reference.disk, "AAAA-1111");
    assert_eq!(reference.relative.text(), "Game/game.exe");

    let fresh = table("40 27 8:1 / /media/game-new rw,relatime shared:1 - ext4 /dev/sda1 rw\n");
    assert_eq!(
        fresh.resolve(&reference).unwrap().text(),
        "/media/game-new/Game/game.exe"
    );
}

#[test]
fn btrfs_subvol_layout_keeps_the_subvol_root_in_references() {
    let mountinfo = "40 27 8:1 /data/@ /mnt/games rw,relatime shared:1 - btrfs /dev/sda1 rw\n";
    let table = table(mountinfo);
    let reference = table.infer_canonical(&p("/mnt/games/demo/game.exe")).unwrap();
    assert_eq!(reference.disk, "AAAA-1111");
    assert_eq!(reference.relative.text(), "data/@/demo/game.exe");
    assert_eq!(
        table.resolve(&reference).unwrap().text(),
        "/mnt/games/demo/game.exe"
    );
}

#[test]
fn escaped_root_and_point_are_both_decoded() {
    let mountinfo = format!(
        "{BASE}40 27 8:1 /data/My\\040Sub /mnt/My\\040Games rw,relatime shared:3 - btrfs /dev/sda1 rw\n"
    );
    let table = table(&mountinfo);
    let reference = table.infer_canonical(&p("/mnt/My Games/demo/game.exe")).unwrap();
    assert_eq!(reference.relative.text(), "data/My Sub/demo/game.exe");
    assert_eq!(
        table.resolve(&reference).unwrap().text(),
        "/mnt/My Games/demo/game.exe"
    );
}

#[test]
fn two_devices_with_the_same_uuid_are_refused() {
    let mountinfo = "\
40 27 8:1 / /media/a rw,relatime shared:1 - ext4 /dev/sda1 rw
41 27 8:2 / /media/b rw,relatime shared:2 - ext4 /dev/sdb1 rw
";
    let table = table_with(mountinfo, |_device: &str, _source: &FsPath| Some("DUP-0000".into()));
    let reference = MountPath { disk: "DUP-0000".into(), relative: p("games") };
    let error = table.resolve(&reference).err().unwrap();
    assert!(error.contains("DUP-0000"), "{error}");
    assert!(error.contains("多个设备"), "{error}");
}

#[test]
fn a_nested_mount_only_claims_paths_under_its_own_point() {
    let mountinfo =
        format!("{BASE}38 36 8:17 / /r/w/nested rw,relatime shared:4 - ext4 /dev/sdb1 rw\n");
    let table = table(&mountinfo);
    let inner = table.infer_canonical(&p("/r/w/nested/game/save")).unwrap();
    assert_eq!(inner.disk, "BBBB-2222");
    assert_eq!(inner.relative.text(), "game/save");

    let outer = table.infer_canonical(&p("/r/w/outer/game")).unwrap();
    assert_eq!(outer.disk, "AAAA-1111");
    assert_eq!(outer.relative.text(), "outer/game");
}

#[test]
fn a_reference_that_was_inferred_leads_back() {
    let table = table(BASE);
    for place in ["/r/w/a/b.exe", "/media/extra/c", "/r/w"] {
        if let Some(reference) = table.infer_canonical(&p(place)) {
            assert!(reference.validate().is_ok());
            let found = table.resolve(&reference).unwrap();
            let again = table.infer_canonical(&found).unwrap();
            assert!(again.same(&reference));
        }
    }
}

#[test]
fn a_disk_that_nobody_knows_gets_no_reference() {
    let mountinfo =
        format!("{BASE}41 36 0:50 / /r/w/tmp rw,relatime shared:9 - tmpfs tmpfs rw\n");
    let table = table(&mountinfo);
    assert!(table.infer_canonical(&p("/r/w/tmp/file")).is_none());
    assert!(table.infer_canonical(&p("/r/w/other/file")).is_some());
}

#[test]
fn what_is_hidden_by_another_mount_cannot_be_reached() {
    // The place lies under a mount of another disk, so the path would show something else.
    let mountinfo =
        format!("{BASE}38 36 8:17 / /r/w/games rw,relatime shared:4 - ext4 /dev/sdb1 rw\n");
    let table = table(&mountinfo);
    let reference = MountPath { disk: "AAAA-1111".into(), relative: p("games/demo") };
    assert!(table.resolve(&reference).is_err());
}

#[test]
fn a_disk_name_that_leaves_its_directory_is_refused() {
    for disk in ["", "a/b", "a\\b"] {
        let reference = MountPath { disk: disk.into(), relative: p("games") };
        assert!(reference.validate().is_err(), "{disk}");
    }
}

#[test]
fn octal_escapes_are_read_and_broken_ones_refused() {
    assert_eq!(decode("a\\040b\\134c").unwrap().text(), "a b\\c");
    assert_eq!(decode("plain").unwrap().text(), "plain");
    assert!(decode("a\\04").is_none());
    assert!(decode("a\\999").is_none());
}

#[test]
fn a_line_that_is_cut_short_says_nothing() {
    assert!(parse_line("36 27 8:1 / /r/w rw - ext4 /dev/sda1 rw").is_some());
    assert!(parse_line("36 27 8:1 / /r/w rw ext4 /dev/sda1 rw").is_none());
    assert!(parse_line("36 27 - ext4").is_none());
    assert!(parse_line("").is_none());
}

#[test]
fn device_numbers_are_put_together_as_the_kernel_does() {
    assert_eq!(number_of_device("8:1"), Some(0x801));
    assert_eq!(number_of_device("8:17"), Some(0x811));
    assert_eq!(number_of_device("0:300"), Some(0x10002c));
    assert_eq!(number_of_device("8"), None);
    assert_eq!(number_of_device("x:1"), None);
    let devices = vec![(0x801u64, "AAAA".to_string()), (0x811, "BBBB".to_string())];
    assert_eq!(find_disk(&devices, "8:17", None), Some("BBBB".to_string()));
    assert_eq!(find_disk(&devices, "8:2", None), None);
}

#[test]
fn nothing_is_mounted_in_an_empty_table() {
    let table = MountTable::empty();
    assert!(table.infer_canonical(&p("/a/b")).is_none());
    let reference = MountPath { disk: "AAAA-1111".into(), relative: p("a") };
    assert!(table.resolve(&reference).is_err());
    let own = Mount {
        disk: Some("AAAA-1111".to_string()),
        device: "8:1".to_string(),
        root: p("/"),
        point: p("/r/w"),
    };
    let table = MountTable { entries: vec![own] };
    assert_eq!(table.resolve(&reference).unwrap().text(), "/r/w/a");
}

#[test]
fn a_reference_keeps_the_spelling_of_its_path() {
    let table = table("40 27 8:1 /data/@ /mnt/games rw,relatime shared:1 - btrfs /dev/sda1 rw\n");
    let reference = table.reference_of(&p("/mnt//games//demo//./game.exe/")).unwrap();
    assert_eq!(reference.relative.text(), "data/@/demo//./game.exe");
    assert_eq!(table.resolve(&reference).unwrap().text(), "/mnt/games/demo//./game.exe");
    let point = table.reference_of(&p("/mnt/games")).unwrap();
    assert_eq!(point.relative.text(), "data/@/");
}
