//! The configuration: where it lies, what a profile may say, and how older files are read.

use kotori::config::locations::Canonical;
use kotori::config::model::{
    default_socket_path, Config, GameConfig, SavePath, SavePathKind, SyncConfig, SyncEngine,
    WineConfig,
};
use kotori::config::paths::{
    choose_config_path, config_is_portable, config_path, config_path_is_pinned, data_dir,
    data_dir_for, default_config_path, is_portable_config, load_at, lock_path_for, log_dir,
    plain_secrets_path, portable_config_path, relocate_config, resolve_socket, secrets_path,
    secrets_path_is_pinned, socket_path, temporary_path, Loading, Reading, Surroundings,
};
use kotori::config::profile::{
    ScaleAlgorithm, ScaleProfile, DEFAULT_SHARPNESS, GAMESCOPE_DEFAULT_HEIGHT,
    GAMESCOPE_DEFAULT_WIDTH, MAX_FRAMERATE, MAX_RESOLUTION, MAX_SHARPNESS,
};
use kotori::config::ratio::{check_product, scale, Ratio};
use kotori::mount::table::{Mount, MountPath, MountTable};
use kotori::path::FsPath;

const MIN_SCALE_RATIO: f32 = 0.25;
const MAX_SCALE_RATIO: f32 = 8.0;

fn p(text: &str) -> FsPath {
    FsPath::from_text(text)
}

fn ratio(value: f32) -> Option<Ratio> {
    let wide = serde_json::Value::from(value).to_string();
    Some(Ratio { bits: value.to_bits(), shown: format!("{value}"), wide })
}

fn nowhere() -> Surroundings {
    Surroundings {
        pinned_config: None,
        pinned_secrets: None,
        pinned_data: None,
        pinned_socket: None,
        exe: None,
        beside_exe: false,
        config_dir: None,
        data_dir: None,
        runtime_dir: None,
    }
}

fn a_game(name: &str, exe: &str) -> GameConfig {
    GameConfig {
        name: name.to_string(),
        game_dir: p(""),
        game_dir_mount: None,
        exe_path: p(exe),
        exe_mount: None,
        exe_fingerprint: None,
        launch_args: Vec::new(),
        save_paths: Vec::new(),
        wine_prefix: None,
        auto_watch: true,
        direct_launch: false,
        process_name: None,
        scale_profile: ScaleProfile::default_for(),
        created_at: "2026-01-01T00:00:00Z".to_string(),
        cloud_id: None,
        cloud_dir: None,
        cloud_rejected: Vec::new(),
        sync_enabled: true,
        cloud_conclusion: None,
    }
}

// Where the files lie

#[test]
fn the_lock_lives_beside_the_config() {
    assert_eq!(
        lock_path_for(&p("/tmp/kotori/config.toml")).text(),
        "/tmp/kotori/config.toml.lock"
    );
}

#[test]
fn a_portable_config_keeps_its_data_next_to_itself() {
    let platform = "/home/u/.local/share/kotori";
    assert_eq!(
        data_dir_for(true, &p("/opt/kotori/config.toml"), p(platform)).text(),
        "/opt/kotori/data"
    );
    assert_eq!(
        data_dir_for(false, &p("/home/u/.config/kotori/config.toml"), p(platform)).text(),
        platform
    );
}

#[test]
fn portable_means_the_config_sits_next_to_the_binary() {
    let beside = p("/opt/kotori/config.toml");
    assert!(config_is_portable(&beside, Some(&beside)));
    assert!(!config_is_portable(&p("/home/u/.config/kotori/config.toml"), Some(&beside)));
    assert!(!config_is_portable(&beside, None));
}

#[test]
fn an_unreadable_config_is_an_error_not_a_fresh_start() {
    let dir = p("/tmp/config-unreadable");
    let reading = Reading::Unreadable("Is a directory (os error 21)".to_string());
    match load_at(&dir, reading, &None) {
        Loading::Refuse(error) => {
            assert!(error.contains("读不了配置文件"), "{error}");
            assert!(error.contains("Is a directory"), "{error}");
        },
        _ => panic!("a file that cannot be read is neither moved nor replaced"),
    }
}

#[test]
fn a_config_next_to_the_binary_wins_over_the_default() {
    assert_eq!(
        choose_config_path(Some(&p("/opt/kotori")), true, &p("/home/u/.config/kotori")).text(),
        "/opt/kotori/config.toml"
    );
}

#[test]
fn without_a_beside_binary_config_the_default_directory_is_used() {
    assert_eq!(
        choose_config_path(Some(&p("/opt/kotori")), false, &p("/home/u/.config/kotori")).text(),
        "/home/u/.config/kotori/config.toml"
    );
}

#[test]
fn no_exe_information_falls_back_to_the_default() {
    assert_eq!(
        choose_config_path(None, false, &p("/home/u/.config/kotori")).text(),
        "/home/u/.config/kotori/config.toml"
    );
}

#[test]
fn missing_file_falls_back_to_defaults() {
    match load_at(&p("/tmp/does-not-exist.toml"), Reading::Missing, &None) {
        Loading::Use(config) => {
            assert!(config.games.is_empty());
            assert_eq!(config.daemon.socket_path.text(), "/tmp/kotori.sock");
            assert_eq!(config.daemon.log_level, "info");
        },
        _ => panic!("a missing file is a fresh start"),
    }
}

#[test]
fn corrupt_config_is_backed_up() {
    match load_at(&p("/home/u/.config/kotori/config.toml"), Reading::Unparsable, &None) {
        Loading::UseAfterMoving(config, backup) => {
            assert!(config.games.is_empty());
            assert_eq!(backup.text(), "/home/u/.config/kotori/config.toml.corrupt");
        },
        _ => panic!("a file that makes no sense is kept under another name"),
    }
    assert_eq!(
        temporary_path(&p("/home/u/.config/kotori/config.toml")).text(),
        "/home/u/.config/kotori/config.toml.tmp"
    );
}

#[test]
fn a_pinned_file_comes_before_everything() {
    let mut around = nowhere();
    around.exe = Some(p("/opt/kotori/kotori"));
    around.beside_exe = true;
    around.config_dir = Some(p("/home/u/.config"));
    around.data_dir = Some(p("/home/u/.local/share"));
    assert_eq!(config_path(&around).text(), "/opt/kotori/config.toml");
    assert!(is_portable_config(&around));
    assert_eq!(portable_config_path(&around).unwrap().text(), "/opt/kotori/config.toml");
    assert_eq!(data_dir(&around).text(), "/opt/kotori/data");
    assert_eq!(log_dir(&around).text(), "/opt/kotori/logs");
    assert_eq!(secrets_path(&around).text(), "/opt/kotori/secrets.json");
    assert_eq!(plain_secrets_path(&around).text(), "/opt/kotori/credentials.json");
    assert!(!config_path_is_pinned(&around));

    around.pinned_config = Some(p("/srv/k/own.toml"));
    around.pinned_data = Some(p("/srv/data"));
    around.pinned_secrets = Some(p("/srv/secret/s.json"));
    assert!(config_path_is_pinned(&around));
    assert!(secrets_path_is_pinned(&around));
    assert!(!is_portable_config(&around));
    assert_eq!(config_path(&around).text(), "/srv/k/own.toml");
    assert_eq!(data_dir(&around).text(), "/srv/data");
    assert_eq!(log_dir(&around).text(), "/srv/k/logs");
    assert_eq!(secrets_path(&around).text(), "/srv/secret/s.json");
    assert_eq!(plain_secrets_path(&around).text(), "/srv/secret/credentials.json");
}

#[test]
fn without_any_directory_the_current_one_has_to_do() {
    let around = nowhere();
    assert_eq!(default_config_path(&around).text(), "./kotori/config.toml");
    assert_eq!(data_dir(&around).text(), "./kotori");
    assert!(portable_config_path(&around).is_none());
}

#[test]
fn the_socket_is_pinned_configured_or_the_default() {
    let mut around = nowhere();
    around.runtime_dir = Some(p("/run/user/1000"));
    assert_eq!(socket_path(&around, None).text(), "/run/user/1000/kotori.sock");
    let mut config = Config::default_at(&around.runtime_dir);
    config.daemon.socket_path = p("/elsewhere/k.sock");
    assert_eq!(socket_path(&around, Some(&config)).text(), "/elsewhere/k.sock");
    around.pinned_socket = Some(p("/pinned.sock"));
    assert_eq!(resolve_socket(&around, &config).text(), "/pinned.sock");
    assert_eq!(default_socket_path(&None).text(), "/tmp/kotori.sock");
}

#[test]
fn only_a_file_that_would_win_again_steps_aside() {
    let current = p("/opt/kotori/config.toml");
    let target = p("/home/u/.config/kotori/config.toml");
    let backup = relocate_config(&current, &target, true, true).unwrap();
    assert_eq!(backup.text(), "/opt/kotori/config.toml.portable-bak");
    assert!(relocate_config(&current, &target, true, false).is_none());
    assert!(relocate_config(&current, &target, false, true).is_none());
    assert!(relocate_config(&current, &p("/opt/kotori//config.toml"), true, true).is_none());
}

// Profiles

#[test]
fn sharpness_is_clamped_and_rebuilt() {
    let algo = ScaleAlgorithm::Fsr { sharpness: 99 };
    assert_eq!(algo.sharpness(), Some(MAX_SHARPNESS));
    assert_eq!(ScaleAlgorithm::Integer.with_sharpness(3), ScaleAlgorithm::Integer);
    assert_eq!(
        ScaleAlgorithm::Nis { sharpness: 1 }.with_sharpness(5),
        ScaleAlgorithm::Nis { sharpness: 5 }
    );
}

#[test]
fn algorithm_labels_round_trip() {
    for label in ScaleAlgorithm::all() {
        let algo = ScaleAlgorithm::from_label(label).expect(label);
        assert_eq!(algo.label(), label);
    }
    assert!(ScaleAlgorithm::from_label("Lanczos").is_none());
}

#[test]
fn an_empty_profile_gets_the_screen_and_a_filled_one_overrides_it() {
    let screen = (2560, 1440);
    let mut profile = ScaleProfile::default_for();

    assert_eq!(profile.explicit_output_size(), None);
    assert_eq!(profile.output_size_for(screen), screen);

    profile.output_width = Some(1600);
    assert_eq!(profile.explicit_output_size(), None);
    assert_eq!(profile.output_size_for(screen), screen);

    profile.output_height = Some(900);
    assert_eq!(profile.explicit_output_size(), Some((1600, 900)));
    assert_eq!(profile.output_size_for(screen), (1600, 900));

    profile.scale_ratio = ratio(1.5);
    assert_eq!(profile.explicit_output_size(), Some((1920, 1080)));

    profile.internal_width = Some(1000);
    profile.internal_height = Some(999);
    profile.scale_ratio = ratio(0.25);
    assert_eq!(profile.explicit_output_size(), Some((250, 250)));

    profile.scale_ratio = ratio(0.0);
    assert_eq!(profile.explicit_output_size(), Some((1600, 900)));
    profile.scale_ratio = ratio(f32::NAN);
    assert_eq!(profile.explicit_output_size(), Some((1600, 900)));
    profile.scale_ratio = ratio(1e30);
    assert_eq!(profile.explicit_output_size(), Some((MAX_RESOLUTION, MAX_RESOLUTION)));
}

#[test]
fn profile_validation_bounds_the_scaling_ratio() {
    let mut profile = ScaleProfile::default_for();

    profile.scale_ratio = ratio(MIN_SCALE_RATIO / 2.0);
    assert!(profile.validate().unwrap_err().contains("缩放比例"));
    profile.scale_ratio = ratio(MAX_SCALE_RATIO + 1.0);
    assert!(profile.validate().is_err());
    profile.scale_ratio = ratio(f32::NAN);
    assert!(profile.validate().is_err());
    profile.scale_ratio = ratio(2.0);
    assert!(profile.validate().is_ok());

    profile.internal_width = Some(MAX_RESOLUTION);
    profile.internal_height = Some(MAX_RESOLUTION);
    profile.scale_ratio = ratio(2.0);
    let err = profile.validate().unwrap_err();
    assert!(err.contains("输出分辨率"), "{err}");
}

#[test]
fn an_empty_game_resolution_leaves_the_size_to_gamescope() {
    let mut profile = ScaleProfile::default_for();
    assert_eq!(profile.explicit_internal_size(), None);
    assert_eq!(
        profile.internal_size(),
        (GAMESCOPE_DEFAULT_WIDTH, GAMESCOPE_DEFAULT_HEIGHT)
    );
    assert!(profile.validate().is_ok());

    profile.internal_width = Some(640);
    assert_eq!(profile.explicit_internal_size(), None);
    assert_eq!(
        profile.internal_size(),
        (GAMESCOPE_DEFAULT_WIDTH, GAMESCOPE_DEFAULT_HEIGHT)
    );
    profile.internal_width = Some(0);
    assert_eq!(profile.explicit_internal_size(), None);
    assert!(profile.validate().unwrap_err().contains("游戏分辨率宽"));

    profile.internal_width = Some(640);
    profile.internal_height = Some(480);
    assert_eq!(profile.explicit_internal_size(), Some((640, 480)));
    assert_eq!(profile.internal_size(), (640, 480));

    let mut scaled = ScaleProfile::default_for();
    scaled.scale_ratio = ratio(1.5);
    assert_eq!(scaled.explicit_output_size(), Some((1920, 1080)));
}

#[test]
fn profile_validation_rejects_impossible_values() {
    let ok = ScaleProfile::default_for();
    assert!(ok.validate().is_ok());

    let mut zero = ok.copy();
    zero.internal_width = Some(0);
    assert!(zero.validate().unwrap_err().contains("游戏分辨率宽"));

    let mut huge = ok.copy();
    huge.output_height = Some(MAX_RESOLUTION + 1);
    assert!(huge.validate().unwrap_err().contains("输出分辨率高"));

    let mut empty = ok.copy();
    empty.output_width = None;
    empty.output_height = None;
    assert!(empty.validate().is_ok());
    let mut zero_out = ok.copy();
    zero_out.output_width = Some(0);
    assert!(zero_out.validate().unwrap_err().contains("输出分辨率宽"));

    let mut fps = ok.copy();
    fps.framerate_limit = Some(0);
    assert!(fps.validate().unwrap_err().contains("帧率限制"));

    let mut fps_high = ok.copy();
    fps_high.framerate_limit = Some(MAX_FRAMERATE + 1);
    assert!(fps_high.validate().is_err());

    assert!(ok.validate().is_ok(), "validation must not mutate the profile");
}

#[test]
fn normalize_clamps_sharpness_only() {
    let mut profile = ScaleProfile {
        algorithm: ScaleAlgorithm::Nis { sharpness: 99 },
        ..ScaleProfile::default_for()
    };
    profile.normalize();
    assert_eq!(profile.algorithm, ScaleAlgorithm::Nis { sharpness: MAX_SHARPNESS });

    let mut unit = ScaleProfile {
        algorithm: ScaleAlgorithm::Integer,
        ..ScaleProfile::default_for()
    };
    unit.normalize();
    assert_eq!(unit.algorithm, ScaleAlgorithm::Integer);
}

#[test]
fn a_hand_written_separator_is_rejected() {
    let mut profile = ScaleProfile::default_for();
    profile.gamescope_args = vec!["-f".into(), "--".into(), "-W".into()];
    let err = profile.validate().unwrap_err();
    assert!(err.contains("--"), "{err}");

    profile.gamescope_args = vec!["--sharpness".into(), "5".into()];
    assert!(profile.validate().is_ok());
}

#[test]
fn free_form_is_about_the_arguments_being_there() {
    let mut profile = ScaleProfile::default_for();
    assert!(!profile.free_form());

    profile.gamescope_args = vec!["-f".into()];
    assert!(profile.free_form());

    profile.gamescope_args = Vec::new();
    assert!(!profile.free_form());
}

#[test]
fn a_new_profile_is_the_default_one() {
    let profile = ScaleProfile::default_for();
    assert_eq!(profile.name, "默认");
    assert_eq!(profile.algorithm, ScaleAlgorithm::Fsr { sharpness: DEFAULT_SHARPNESS });
    assert!(!profile.force_fullscreen);
    assert!(profile.framerate_limit.is_none());
}

#[test]
fn scaling_with_whole_numbers_is_scaling_in_single_precision() {
    let sizes: [u32; 12] = [1, 2, 3, 7, 640, 720, 999, 1080, 1366, 3840, 16383, 16384];
    let ratios: [f32; 14] = [
        0.25, 0.3, 0.333_333_34, 0.5, 0.75, 0.999_999_94, 1.0, 1.000_000_1, 1.1, 1.5, 2.0, 3.7,
        7.999_999_5, 8.0,
    ];
    for size in sizes {
        for value in ratios {
            let float = (size as f32 * value).round().max(1.0).min(MAX_RESOLUTION as f32) as u32;
            assert_eq!(scale(size, value.to_bits(), MAX_RESOLUTION), float, "{size} {value}");
        }
    }
    let mut size: u32 = 1;
    while size < 16_384 {
        let mut step: u32 = 0;
        while step < 200 {
            let value = 0.25 + step as f32 * 0.037;
            let float = (size as f32 * value).round().max(1.0).min(MAX_RESOLUTION as f32) as u32;
            assert_eq!(scale(size, value.to_bits(), MAX_RESOLUTION), float, "{size} {value}");
            step += 1;
        }
        size += 37;
    }
}

#[test]
fn a_product_beyond_the_limit_is_noticed() {
    assert!(check_product(16_384, 1.000_000_1f32.to_bits(), 16_384).0);
    assert!(!check_product(16_384, 1.0f32.to_bits(), 16_384).0);
    assert_eq!(check_product(16_384, 2.0f32.to_bits(), 16_384), (true, 32_768));
    assert_eq!(check_product(1000, 1.5f32.to_bits(), 16_384), (false, 1500));
}

// Games

#[test]
fn the_watched_process_name_falls_back_to_the_exe_file_name() {
    let game = |process_name: Option<&str>| GameConfig {
        game_dir: p("/games/probe"),
        process_name: process_name.map(str::to_string),
        ..a_game("探针", "/games/probe/Game.exe")
    };

    assert_eq!(game(None).watch_name().as_deref(), Some("Game.exe"));
    assert_eq!(game(Some("launcher.exe")).watch_name().as_deref(), Some("launcher.exe"));
    assert_eq!(game(Some("   ")).watch_name().as_deref(), Some("Game.exe"));
    let mut nameless = game(None);
    nameless.exe_path = p("/");
    assert_eq!(nameless.watch_name(), None);
}

#[test]
fn the_auto_watch_default_flips_old_configs_once_and_only_once() {
    let mut config = Config::default_at(&None);
    config.games.push((
        "old".to_string(),
        GameConfig { auto_watch: false, ..a_game("旧配置", "/games/old/game.exe") },
    ));

    config.normalize();
    assert!(config.games[0].1.auto_watch);
    assert!(config.daemon.auto_watch_migrated);

    let mut again = config.copy();
    again.games[0].1.auto_watch = false;
    again.normalize();
    assert!(!again.games[0].1.auto_watch);
}

#[test]
fn as_str_matches_what_serde_writes() {
    let written = [
        (SavePathKind::Windows, "windows"),
        (SavePathKind::Relative, "relative"),
        (SavePathKind::Absolute, "absolute"),
    ];
    for (kind, name) in written {
        assert_eq!(kind.as_str(), name, "{kind:?}");
    }
}

#[test]
fn the_kind_of_a_save_location_is_told_by_its_path() {
    assert_eq!(SavePathKind::infer("%APPDATA%\\Game"), SavePathKind::Windows);
    assert_eq!(SavePathKind::infer("C:\\Users\\u"), SavePathKind::Windows);
    assert_eq!(SavePathKind::infer("savedata"), SavePathKind::Relative);
    assert_eq!(SavePathKind::infer("/home/u/save"), SavePathKind::Absolute);
    let plain = SavePath::inferred("savedata".to_string());
    assert_eq!(plain.describe(), "savedata（相对游戏目录）");
    let told = SavePath::detailed(
        Some(SavePathKind::Absolute),
        "savedata".to_string(),
        vec!["a".to_string(), "b".to_string()],
    );
    assert_eq!(told.describe(), "savedata（绝对路径（仅本机），排除 a, b）");
    let inferred = SavePath::detailed(None, "/x".to_string(), Vec::new());
    assert_eq!(inferred.kind, SavePathKind::Absolute);
    assert_eq!(SavePath::new(SavePathKind::Windows, "x".to_string()).kind, SavePathKind::Windows);
}

#[test]
fn a_sync_config_without_an_engine_key_is_rclone() {
    let config = SyncConfig::default();
    assert_eq!(config.engine, SyncEngine::Rclone);
    assert_eq!(config.engine.label(), "rclone(zip)");
    assert_eq!(SyncEngine::Kopia.label(), "kopia");
    assert_eq!(config.prefix, "kotori");
    assert!(!config.enabled);
}

#[test]
fn a_sync_config_without_binary_paths_finds_the_programs_itself() {
    let config = SyncConfig::default();
    assert!(config.rclone_binary.is_empty());
    assert!(config.kopia_binary.is_empty());
    assert!(WineConfig::default().prefix.is_none());
}

// Places on disks

fn one_disk() -> MountTable {
    MountTable {
        entries: vec![Mount {
            disk: Some("AAAA-1111".to_string()),
            device: "8:1".to_string(),
            root: p("/"),
            point: p("/media/games"),
        }],
    }
}

#[test]
fn references_are_taken_down_where_they_are_missing() {
    let mut game = a_game("demo", "/media/games/demo/game.exe");
    game.game_dir = p("/media/games/demo");
    let canonical = Canonical {
        exe: Some(p("/media/games/demo/game.exe")),
        game_dir: Some(p("/media/games/demo")),
        saves: Vec::new(),
    };
    let mounts = one_disk();
    game.capture_mounts(&mounts, &canonical);
    assert_eq!(game.exe_mount.as_ref().unwrap().relative.text(), "demo/game.exe");
    assert_eq!(game.game_dir_mount.as_ref().unwrap().relative.text(), "demo");
    assert_eq!(
        game.resolved_exe_with(&mounts).unwrap().text(),
        "/media/games/demo/game.exe"
    );

    // A reference that is stored stays, and it alone counts.
    game.exe_mount = Some(MountPath { disk: "AAAA-1111".into(), relative: p("other/x.exe") });
    game.capture_mounts(&mounts, &canonical);
    assert_eq!(
        game.resolved_exe_with(&mounts).unwrap().text(),
        "/media/games/other/x.exe"
    );
    assert!(game.resolved_exe_with(&MountTable::empty()).is_err());
}

#[test]
fn without_a_directory_the_one_of_the_program_counts() {
    let mut game = a_game("demo", "/games/demo/game.exe");
    assert_eq!(game.effective_game_dir().text(), "/games/demo");
    game.game_dir = p("/elsewhere");
    assert_eq!(game.effective_game_dir().text(), "/elsewhere");
    let mounts = MountTable::empty();
    assert_eq!(game.resolved_game_dir_with(&mounts).unwrap().text(), "/elsewhere");
}
