//! Finding games, naming them, and keeping the library.

use kotori::cli::add::preview;
use kotori::config::model::{Config, GameConfig};
use kotori::config::profile::ScaleProfile;
use kotori::game::ids::{generate_game_id, generate_unique_game_id};
use kotori::game::library::{add_games, duplicate_exe_warning, exe_owner, remove_game};
use kotori::game::listing::list;
use kotori::game::scan::{
    affinity, game_entry, game_entry_at, is_helper, normalize, pick_game_exe, scan, DirEntry, Find, Listing,
};
use kotori::mount::table::MountTable;
use kotori::path::FsPath;

fn p(text: &str) -> FsPath {
    FsPath::from_text(text)
}

fn entries(dir: &str, files: &[&str]) -> Vec<DirEntry> {
    files.iter().map(|file| DirEntry { path: p(&format!("{dir}/{file}")), size: 0 }).collect()
}

fn file_name(path: &FsPath) -> String {
    FsPath::from_bytes(path.file_name().unwrap()).text()
}

fn pick(dir: &str, files: &[&str]) -> Option<String> {
    pick_game_exe(&p(dir), &entries(dir, files)).map(|path| file_name(&path))
}

/// A date, a `T`, a time of day with three, six or nine digits after the seconds or none, a `Z`.
fn is_moment(text: &str) -> bool {
    let shape: String = text.chars().map(|c| if c.is_ascii_digit() { '0' } else { c }).collect();
    ["", ".000", ".000000", ".000000000"]
        .iter()
        .any(|fraction| shape == format!("0000-00-00T00:00:00{fraction}Z"))
}

fn game_config_named(name: &str) -> GameConfig {
    GameConfig {
        name: name.to_string(),
        game_dir: p("/games/demo"),
        game_dir_mount: None,
        exe_path: p("/games/demo/game.exe"),
        exe_mount: None,
        exe_fingerprint: None,
        launch_args: Vec::new(),
        save_paths: Vec::new(),
        wine_prefix: None,
        auto_watch: false,
        direct_launch: false,
        process_name: None,
        scale_profile: ScaleProfile::default_for(),
        created_at: "2026-01-01T00:00:00Z".to_string(),
        cloud_id: None,
        cloud_dir: None,
        cloud_rejected: Vec::new(),
        sync_enabled: true,
        cloud_conclusion: None,
    }
}

#[test]
fn prefers_the_chinese_localised_executable() {
    assert_eq!(
        pick("/tmp/chs", &["game.exe", "game.chs.exe", "readme.txt"]).unwrap(),
        "game.chs.exe"
    );
}

#[test]
fn skips_installers_and_tools() {
    let files = [
        "setup.exe",
        "uninstall.exe",
        "sigluscounter.exe",
        "注册表恢复.exe",
        "ADVcore.exe",
    ];
    assert_eq!(pick("/tmp/helpers", &files).unwrap(), "ADVcore.exe");
}

#[test]
fn falls_back_to_an_exe_when_only_helpers_exist() {
    assert_eq!(pick("/tmp/only-helpers", &["dosbox.exe"]).unwrap(), "dosbox.exe");
}

#[test]
fn no_executables_means_no_candidate() {
    assert!(pick("/tmp/no-exe", &["readme.txt", "data.pak"]).is_none());
}

#[test]
fn game_ids_are_stable_and_filesystem_safe() {
    assert_eq!(generate_game_id("My Game v0.99"), "my-game-v0-99");
    assert_eq!(generate_game_id("测试游戏(正式版)"), "测试游戏-正式版");
    assert_eq!(generate_game_id("My-Game"), "my-game");
    assert_eq!(generate_game_id("  "), "");
    assert_eq!(generate_game_id("SomeGame"), generate_game_id("SomeGame"));
}

#[test]
fn only_ascii_letters_of_an_id_are_put_into_lower_case() {
    assert_eq!(generate_game_id("ÄÖ Under"), "ÄÖ-under");
    assert_eq!(generate_game_id("half½٣"), "half½٣");
}

#[test]
fn programs_are_told_apart_by_letters_of_any_script() {
    assert_eq!(normalize("Ä Ö-X"), "äöx");
    let dir = "/tmp/äöxy";
    let mut list = entries(dir, &["ÄÖXY.exe", "zz.exe"]);
    list[1].size = 10;
    assert_eq!(file_name(&pick_game_exe(&p(dir), &list).unwrap()), "ÄÖXY.exe");
}

#[test]
fn a_second_entry_with_the_same_name_gets_a_numeric_suffix() {
    let mut config = Config::default_at(&None);
    let first = generate_unique_game_id(&config, "3days");
    config.games.push((first, game_config_named("3days")));

    assert_eq!(generate_unique_game_id(&config, "3days"), "3days-2");
    config.games.push(("3days-2".to_string(), game_config_named("3days")));
    assert_eq!(generate_unique_game_id(&config, "3days"), "3days-3");
    assert_eq!(generate_unique_game_id(&config, "narcissu"), "narcissu");
}

#[test]
fn an_exe_already_used_by_another_entry_warns_but_stays_allowed() {
    let mut config = Config::default_at(&None);
    let mut game = game_config_named("原型");
    game.exe_path = p("/tmp/duplicate-exe/game.exe");
    config.games.push(("yuan-xing".to_string(), game));
    let exes = vec![Some(p("/tmp/duplicate-exe/game.exe"))];

    // The paths are those without links and detours, so another spelling is the same file.
    let awkward = p("/tmp/duplicate-exe/./game.exe");
    let warning = duplicate_exe_warning(&config, &exes, &awkward, None).expect("must warn");
    assert!(warning.contains("原型"), "warning names the other entry");
    assert!(warning.contains("允许"), "the warning must not imply a refusal");
    assert!(warning.contains("这条档案允许保留"), "the entry is kept");

    let exe = p("/tmp/duplicate-exe/game.exe");
    assert!(duplicate_exe_warning(&config, &exes, &exe, Some("yuan-xing")).is_none());
    let other = p("/tmp/duplicate-exe/other.exe");
    assert!(duplicate_exe_warning(&config, &exes, &other, None).is_none());
    assert_eq!(exe_owner(&config, &exes, &exe, None).as_deref(), Some("原型"));
}

fn listing(dir: &str, files: &[&str]) -> Listing {
    Listing { dir: p(dir), entries: entries(dir, files) }
}

fn games_in(found: Vec<Find>) -> Vec<GameConfig> {
    found
        .into_iter()
        .map(|find| game_entry(&find.dir, find.exe, None))
        .collect()
}

#[test]
fn scan_counts_subdirectories_and_the_root_itself() {
    let root = "/tmp/scan-root";
    let listings = vec![
        listing("/tmp/scan-root/GameA", &["game.chs.exe"]),
        listing("/tmp/scan-root/EmptyGame", &[]),
        listing(root, &["loose.exe"]),
    ];
    let found = games_in(scan(&p(root), true, &listings).ok().unwrap());
    assert_eq!(found.len(), 2);
    let game_a = found.iter().find(|g| g.name == "GameA").unwrap();
    assert_eq!(file_name(&game_a.exe_path), "game.chs.exe");
    let root_entry = found.iter().find(|g| file_name(&g.exe_path) == "loose.exe").unwrap();
    assert_eq!(root_entry.name, "scan-root");
    assert_eq!(game_a.scale_profile.output_width, None);
    assert_eq!(game_a.scale_profile.output_height, None);
    assert_eq!(game_a.scale_profile.explicit_output_size(), None);
    assert_eq!(game_a.scale_profile.explicit_internal_size(), None);
}

#[test]
fn scan_counts_the_scanned_directory_itself() {
    let listings = vec![listing("/tmp/self", &["Game.exe", "readme.txt"])];
    let found = games_in(scan(&p("/tmp/self"), true, &listings).ok().unwrap());
    assert_eq!(found.len(), 1);
    assert_eq!(file_name(&found[0].exe_path), "Game.exe");
    assert_eq!(found[0].name, "self");
    assert_eq!(found[0].game_dir.text(), "/tmp/self");
    assert!(is_moment(&found[0].created_at), "{}", found[0].created_at);
}

#[test]
fn self_and_subdirectory_hits_stay_two_distinct_entries() {
    let listings = vec![
        listing("/tmp/dup/Bundle", &["bundle.exe"]),
        listing("/tmp/dup", &["Game.exe"]),
    ];
    let found = games_in(scan(&p("/tmp/dup"), true, &listings).ok().unwrap());
    assert_eq!(found.len(), 2);
    let mut exes: Vec<String> = found.iter().map(|g| file_name(&g.exe_path)).collect();
    exes.sort();
    assert_eq!(exes, vec!["Game.exe".to_string(), "bundle.exe".to_string()]);
    assert_ne!(found[0].game_dir.text(), found[1].game_dir.text());
}

#[test]
fn scan_of_missing_directory_is_an_error() {
    let missing = p("/tmp/kotori-does-not-exist-xyz");
    let error = scan(&missing, false, &Vec::new()).err().unwrap();
    assert!(error.contains("kotori-does-not-exist-xyz"), "{error}");
}

#[test]
fn an_uninstaller_is_not_the_game_even_when_it_is_called_uninstaller() {
    let files = [
        "OpenSaveFolder.exe",
        "Rance03.exe",
        "ResetConfig.exe",
        "Uninstaller.exe",
    ];
    assert_eq!(pick("/tmp/rance3", &files).unwrap(), "Rance03.exe");
}

#[test]
fn the_executable_named_like_its_directory_beats_a_lookalike() {
    let files = ["SiglusEngine.exe", "SiglusEngineCHS.exe", "SiglusCounter.exe"];
    assert_eq!(pick("/tmp/affinity/SiglusEngineCHS", &files).unwrap(), "SiglusEngineCHS.exe");
}

#[test]
fn a_localised_build_beats_one_named_like_its_directory() {
    assert_eq!(pick("/games/Rance", &["rance.exe", "foo_chs.exe"]).unwrap(), "foo_chs.exe");
    assert_eq!(pick("/games/Rance", &["foo_chs.exe", "rance.exe"]).unwrap(), "foo_chs.exe");
    // Neither does a name that speaks of a game, nor a larger file, outvote it.
    let mut list = entries("/games/GameBox", &["gamebox.exe", "x汉化.exe"]);
    list[0].size = 1_000_000;
    let picked = pick_game_exe(&p("/games/GameBox"), &list).unwrap();
    assert_eq!(file_name(&picked), "x汉化.exe");
    // A patch is no build.
    let files = ["Grisaia.exe", "灰色的果实_汉化补丁.exe"];
    assert_eq!(pick("/games/Grisaia", &files).unwrap(), "Grisaia.exe");
    // Between localised builds the others decide.
    assert_eq!(pick("/games/Rance", &["foo_chs.exe", "rance_chs.exe"]).unwrap(), "rance_chs.exe");
}

#[test]
fn the_order_of_a_listing_does_not_matter() {
    let files = ["b.exe", "a.exe", "setup.exe", "notes.txt", "game.exe"];
    let mut turned = files;
    turned.reverse();
    assert_eq!(pick("/g/x", &files), pick("/g/x", &turned));
    assert_eq!(pick("/g/x", &files).unwrap(), "game.exe");
    let helpers = ["uninstall.exe", "setup.exe"];
    assert_eq!(pick("/g/x", &helpers).unwrap(), "setup.exe");
    assert_eq!(pick("/g/x", &["setup.exe", "uninstall.exe"]).unwrap(), "setup.exe");
    assert_eq!(pick("/g/x", &["notes.txt", "game.EXE"]), None);
}

#[test]
fn an_id_is_its_own_id() {
    for name in ["--My  Game!!", "a&b", "测试 (正式版)", "---", "", "_x_", "A-B"] {
        let id = generate_game_id(name);
        assert_eq!(generate_game_id(&id), id, "{name}");
        assert_eq!(generate_game_id(&name.to_ascii_uppercase()), id, "{name}");
        assert!(!id.starts_with('-') && !id.ends_with('-') && !id.contains("--"), "{id}");
    }
}

#[test]
fn helpers_are_recognised_by_prefix_too() {
    for stem in [
        "uninstaller",
        "unins000",
        "setup_x",
        "installer",
        "configtool",
        "autoupdatecheck",
    ] {
        assert!(is_helper(stem), "{stem}");
    }
    for stem in ["rance03", "advcore", "siglusenginechs", "game"] {
        assert!(!is_helper(stem), "{stem}");
    }
}

#[test]
fn the_larger_of_two_equal_programs_is_taken() {
    let dir = "/tmp/size";
    let mut list = entries(dir, &["aaa.exe", "bbb.exe"]);
    list[1].size = 10;
    let picked = pick_game_exe(&p(dir), &list).unwrap();
    assert_eq!(file_name(&picked), "bbb.exe");
}

#[test]
fn a_name_is_like_its_directory() {
    assert_eq!(normalize("Siglus Engine-CHS"), "siglusenginechs");
    assert!(affinity("siglusenginechs", "siglusenginechs") > affinity("siglusenginechs", "siglus"));
    assert_eq!(affinity("game", "other"), 0);
}

#[test]
fn a_second_scan_of_the_same_directory_adds_nothing() {
    let mut config = Config::default_at(&None);
    let mounts = MountTable::empty();
    let found = || {
        vec![game_entry_at(&p("/games/Demo"), p("/games/Demo/demo.exe"), None, "t".to_string())]
    };
    let added = add_games(&mut config, &mounts, found());
    assert_eq!(added.len(), 1);
    assert_eq!(added[0].0, "demo");
    assert_eq!(added[0].1.name, "Demo");
    let again = add_games(&mut config, &mounts, found());
    assert!(again.is_empty());
    assert_eq!(config.games.len(), 1);
}

#[test]
fn a_game_that_is_removed_is_gone() {
    let mut config = Config::default_at(&None);
    config.games.push(("a".to_string(), game_config_named("A")));
    config.games.push(("b".to_string(), game_config_named("B")));
    assert!(remove_game(&mut config, "a"));
    assert!(config.find("a").is_none());
    assert_eq!(config.games.len(), 1);
    assert!(!remove_game(&mut config, "a"));
}

#[test]
fn the_library_is_listed_in_the_order_of_ids() {
    let mounts = MountTable::empty();
    let mut config = Config::default_at(&None);
    assert_eq!(
        list(&config, &mounts),
        vec!["No games configured. Use `kotori scan <dir>` to scan a directory."]
    );
    config.games.push(("b".to_string(), game_config_named("B")));
    config.games.push(("a".to_string(), game_config_named("A")));
    let lines = list(&config, &mounts);
    assert_eq!(lines[0], "Configured games:");
    assert_eq!(lines[1], "  a - A");
    assert_eq!(lines[2], "    exe:     /games/demo/game.exe");
    assert_eq!(lines[3], "    watch:   false");
    assert_eq!(
        lines[5],
        "    scale:   默认 (自动（gamescope 默认） -> 自动（按屏幕）)"
    );
    assert_eq!(lines[6], "    saved:   none");
    assert_eq!(lines[7], "  b - B");
}

#[test]
fn a_scan_shows_the_ids_that_would_be_given_out() {
    let mut config = Config::default_at(&None);
    config.games.push(("demo".to_string(), game_config_named("demo")));
    let found = vec![game_config_named("Demo"), game_config_named("demo")];
    let shown = preview(config, &p("/games"), &found);
    assert_eq!(shown.ids, vec!["demo-2", "demo-3"]);
    assert_eq!(
        shown.lines,
        vec![
            "Found 2 game(s) in /games:",
            "  [demo-2] Demo -> /games/demo/game.exe",
            "  [demo-3] demo -> /games/demo/game.exe",
        ]
    );
    let empty = preview(Config::default_at(&None), &p("/games"), &Vec::new());
    assert_eq!(empty.lines, vec!["No games found in /games"]);
}
