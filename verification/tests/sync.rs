//! The cloud sync: settings, credentials, identities, and what is answered.

use kotori::config::model::{Config, GameConfig, SavePath, SyncEngine};
use kotori::config::profile::ScaleProfile;
use kotori::daemon::game_rpc::Decision;
use kotori::daemon::sync::actions::{
    check_version, games_to_sync, is_snapshot, now_reply, pull_failed, pull_timed_out, pull_wanted,
    record_detail, remember, remember_at, restore_reply, sync_targets, test_reply, timed_out, upload_wanted,
    versions_key, Outcome, SyncRecord, Waiting,
};
use kotori::daemon::sync::credentials::{
    check_clear_master, check_lock, check_master_password, check_unlock, finish_plan, lock_reply,
    master_reply, plan_credentials, plan_kopia_password, removed_reply, SecretKey, SecretStep,
};
use kotori::daemon::sync::delete::{
    after_deletion, all_deleted, find_version, identity_to_delete, VersionInfo,
};
use kotori::daemon::sync::flow::{
    begin_upload, finish_pull, plan_move, plan_pull, plan_restore, plan_upload, Pull, Upload,
};
use kotori::daemon::sync::identity::{
    adopt_machine_id, cloud_id_of, cloud_key_of, ensure_fingerprint, fill_fingerprints,
    identity_changed, machine_id, machine_identity, remember_identity,
};
use kotori::daemon::sync::index::{index_entry, rebuild_entries, INDEX_REFRESH_SECONDS};
use kotori::daemon::sync::pairing::{
    bind_found, local_games, pair, pairing_reply, reject, Binding, PairRow, Partner,
};
use kotori::daemon::sync::rows::{cloud_list, match_fingerprint, match_reply, IndexGame};
use kotori::daemon::sync::selfcheck::{
    apply_decision, fingerprint_hit, identities, resolve, Card, Found, Hit,
};
use kotori::daemon::sync::settings::{
    clean_bucket, clean_prefix, patch_settings, readiness_problem, store_settings, touches_target,
    SettingsPatch, MAX_KEEP_VERSIONS,
};
use kotori::daemon::sync::status::{sync_status, Keyring, StatusFacts};
use kotori::json::Json;
use kotori::path::FsPath;
use kotori::text::keyed::Keyed;

fn p(text: &str) -> FsPath {
    FsPath::from_text(text)
}

fn a_game(name: &str) -> GameConfig {
    GameConfig {
        name: name.to_string(),
        game_dir: p("/games/demo"),
        game_dir_mount: None,
        exe_path: p("/games/demo/game.exe"),
        exe_mount: None,
        exe_fingerprint: None,
        launch_args: Vec::new(),
        save_paths: vec![SavePath::inferred("savedata".to_string())],
        wine_prefix: None,
        auto_watch: false,
        direct_launch: false,
        process_name: None,
        scale_profile: ScaleProfile::default_for(),
        created_at: "2026-01-01T00:00:00Z".to_string(),
        cloud_id: None,
        cloud_dir: None,
        cloud_rejected: Vec::new(),
        sync_enabled: true,
        cloud_conclusion: None,
    }
}

fn demo() -> Config {
    let mut config = Config::default_at(&None);
    config.sync.enabled = true;
    config.sync.bucket = "bkt".to_string();
    config.games.push(("demo".to_string(), a_game("demo")));
    config
}

fn some(text: &str) -> Option<String> {
    Some(text.to_string())
}

fn is_true(value: &Json, key: &str) -> bool {
    value.get(key).unwrap().as_bool() == Some(true)
}

// Settings

fn patch() -> SettingsPatch {
    SettingsPatch {
        enabled: None,
        engine: None,
        endpoint: None,
        bucket: None,
        prefix: None,
        keep_versions: None,
        rclone_binary: None,
        kopia_binary: None,
    }
}

/// One request for new settings; `endpoint_problem` is what is wrong with the endpoint and
/// `problem` what is wrong with the settings as a whole.
fn set(
    config: &mut Config,
    patch: SettingsPatch,
    endpoint_problem: Option<&str>,
    problem: Option<&str>,
) -> Result<Json, String> {
    let candidate =
        patch_settings(&config.sync, &patch, &endpoint_problem.map(str::to_string))?;
    store_settings(config, candidate, &problem.map(str::to_string))
}

fn validated() {
    let mut config = demo();
    let wrong_service = "这是 S3 兼容接口";
    let no_scheme = "要以 https:// 开头";
    let cases = vec![
        (
            SettingsPatch { endpoint: some("s3.us-west-004.backblazeb2.com"), ..patch() },
            Some(wrong_service),
            None,
            "S3 兼容接口",
        ),
        (
            SettingsPatch { endpoint: some("api001.backblazeb2.com"), ..patch() },
            Some(no_scheme),
            None,
            "https://",
        ),
        (SettingsPatch { bucket: some("my/bucket"), ..patch() }, None, None, "bucket"),
        (SettingsPatch { prefix: some("../other"), ..patch() }, None, None, ".."),
        (SettingsPatch { prefix: some("  "), ..patch() }, None, None, "prefix"),
        (SettingsPatch { keep_versions: Some(100_000), ..patch() }, None, None, "最多"),
        (
            SettingsPatch { enabled: Some(true), bucket: some(""), ..patch() },
            None,
            Some("还没有填 bucket"),
            "bucket",
        ),
    ];
    for (body, endpoint_problem, problem, needle) in cases {
        let error = set(&mut config, body, endpoint_problem, problem).err().unwrap();
        assert!(error.contains(needle), "expected {needle:?} in {error}");
        assert_eq!(config.sync.bucket, "bkt");
    }

    let off = SettingsPatch { enabled: Some(false), endpoint: some(""), ..patch() };
    let value = set(&mut config, off, None, None).ok().unwrap();
    let stored = value.get("settings").unwrap();
    assert_eq!(stored.get("enabled").unwrap().as_bool(), Some(false));
    assert_eq!(stored.text_at("endpoint"), Some(""));
    let on = SettingsPatch { enabled: Some(true), ..patch() };
    let value = set(&mut config, on, None, None).ok().unwrap();
    assert!(is_true(value.get("settings").unwrap(), "enabled"));

    let good = SettingsPatch { bucket: some("new-bucket"), prefix: some("/saves/kotori/"), ..patch() };
    let value = set(&mut config, good, None, None).ok().unwrap();
    let stored = value.get("settings").unwrap();
    assert_eq!(stored.text_at("bucket"), Some("new-bucket"));
    assert_eq!(stored.text_at("prefix"), Some("saves/kotori"));
    assert_eq!(config.sync.bucket, "new-bucket");
}

#[test]
fn sync_rpc_settings_are_validated_before_they_are_stored() {
    validated();
}

#[test]
fn tests_settings_are_validated_before_they_are_stored() {
    validated();
}

#[test]
fn names_in_the_cloud_are_kept_clean() {
    assert_eq!(clean_bucket(" bkt ").ok().unwrap(), "bkt");
    assert!(clean_bucket("a b").is_err());
    assert_eq!(clean_prefix("/a/b/").ok().unwrap(), "a/b");
    assert!(clean_prefix("a/../b").is_err());
    assert_eq!(MAX_KEEP_VERSIONS, 100);
    assert!(touches_target(&SettingsPatch { engine: Some(SyncEngine::Kopia), ..patch() }));
    assert!(!touches_target(&SettingsPatch { keep_versions: Some(3), ..patch() }));
}

#[test]
fn the_most_basic_problem_is_named_first() {
    let none: Option<String> = None;
    let all = readiness_problem(SyncEngine::Rclone, &some("a"), &some("b"), &some("c"), false);
    assert_eq!(all.as_deref(), Some("a"));
    let secrets = readiness_problem(SyncEngine::Rclone, &none, &some("b"), &some("c"), false);
    assert_eq!(secrets.as_deref(), Some("b"));
    let place = readiness_problem(SyncEngine::Rclone, &none, &none, &some("c"), false);
    assert_eq!(place.as_deref(), Some("c"));
    let program = readiness_problem(SyncEngine::Kopia, &none, &none, &none, false).unwrap();
    assert!(program.contains("kopia"));
    assert!(readiness_problem(SyncEngine::Kopia, &none, &none, &none, true).is_none());
}

// Status

fn facts(secrets: Vec<&str>, secrets_problem: Option<&str>) -> StatusFacts {
    StatusFacts {
        rclone: some("/usr/bin/rclone"),
        kopia: None,
        settings_problem: None,
        secrets_problem: secrets_problem.map(str::to_string),
        misplaced: None,
        keyring: Keyring {
            backend: "系统密钥环".to_string(),
            ephemeral: false,
            store: Json::Object(vec![("kind".to_string(), Json::Text("system".to_string()))]),
            secrets_file: "/home/u/secrets.json".to_string(),
            min_master_password: 8,
        },
        secrets: secrets.into_iter().map(str::to_string).collect(),
        remote: "kotori:bkt/kotori".to_string(),
        kopia_prefix: "kotori/".to_string(),
        pull_timeout_seconds: 20,
        locations: vec![Ok(1)],
        index: None,
        records: Keyed::new(),
    }
}

fn no_secret_in_the_status() {
    let result = sync_status(&demo(), &facts(vec!["b2-key-id", "b2-app-key"], None));
    assert!(is_true(&result, "enabled"));
    assert_eq!(result.get("settings").unwrap().text_at("bucket"), Some("bkt"));
    assert_eq!(result.text_at("remote"), Some("kotori:bkt/kotori"));
    assert_eq!(result.list_at("secrets").unwrap()[0].as_text(), Some("b2-key-id"));
    assert!(result.get("password_hint").is_none());
    assert_eq!(result.list_at("games").unwrap()[0].number_at("locations"), 1);
    assert!(is_true(&result, "ready"));
}

#[test]
fn sync_rpc_status_never_returns_a_secret_value() {
    no_secret_in_the_status();
}

#[test]
fn tests_status_never_returns_a_secret_value() {
    no_secret_in_the_status();
}

fn missing_credentials_are_explained() {
    let result = sync_status(&demo(), &facts(Vec::new(), Some("还没有填 B2 凭据")));
    assert!(!is_true(&result, "ready"));
    assert!(result.text_at("problem").unwrap().contains("B2 凭据"));
}

#[test]
fn sync_rpc_status_explains_what_is_missing_instead_of_failing() {
    missing_credentials_are_explained();
}

#[test]
fn tests_status_explains_what_is_missing_instead_of_failing() {
    missing_credentials_are_explained();
}

fn index_game(key: &str, id: &str, name: &str) -> IndexGame {
    IndexGame {
        cloud_key: key.to_string(),
        cloud_id: id.to_string(),
        name: name.to_string(),
        machines: vec![vec!["/a.exe".to_string()], vec!["/b.exe".to_string(), "/c.exe".to_string()]],
        versions: 3,
        latest: some("20260911T101500Z"),
        size: 42,
    }
}

#[test]
fn a_game_shows_what_it_is_in_the_cloud() {
    let mut config = demo();
    config.games[0].1.cloud_id = some("c1");
    config.games[0].1.cloud_dir = some("demo-key");
    let mut given = facts(Vec::new(), None);
    given.index = Some(vec![index_game("x", "c0", "Other"), index_game("demo-key", "c1", "Demo")]);
    given.locations = vec![Err("盘没插上".to_string())];
    let done = vec!["uploaded".to_string()];
    remember(&mut given.records, "demo", "上传", true, &None, &done);
    let result = sync_status(&config, &given);
    let game = &result.list_at("games").unwrap()[0];
    assert_eq!(game.text_at("cloud_name"), Some("Demo"));
    assert_eq!(game.number_at("cloud_versions"), 3);
    assert_eq!(game.text_at("cloud_latest"), Some("20260911T101500Z"));
    assert_eq!(game.number_at("cloud_size"), 42);
    assert_eq!(game.text_at("cloud_key"), Some("demo-key"));
    assert_eq!(game.text_at("location_problem"), Some("盘没插上"));
    assert_eq!(game.number_at("locations"), 0);
    assert_eq!(game.get("last").unwrap().text_at("detail"), Some("1 个位置已上传"));

    config.sync.enabled = false;
    let result = sync_status(&config, &facts(Vec::new(), Some("x")));
    assert!(result.get("problem").unwrap().is_null());
    assert!(!is_true(&result, "ready"));
}

// Credentials

fn credentials_are_kept_and_cleared() {
    let error = plan_credentials("id", "  ").err().unwrap();
    assert!(error.contains("一起填"), "{error}");

    let plan = plan_credentials(" keyid2 ", " appkey2 ").ok().unwrap();
    assert!(is_true(&plan.reply, "stored"));
    match &plan.steps[0] {
        SecretStep::Store(key, value) => {
            assert_eq!(*key, SecretKey::B2KeyId);
            assert_eq!(value, "keyid2");
        },
        _ => panic!("the id is stored"),
    }
    match &plan.steps[1] {
        SecretStep::Store(key, value) => {
            assert_eq!(*key, SecretKey::B2AppKey);
            assert_eq!(value, "appkey2");
        },
        _ => panic!("the key is stored"),
    }

    let plan = plan_credentials("", "").ok().unwrap();
    assert!(is_true(&plan.reply, "cleared"));
    assert!(matches!(plan.steps[0], SecretStep::Clear(SecretKey::B2KeyId)));
    assert!(matches!(plan.steps[1], SecretStep::Clear(SecretKey::B2AppKey)));
    assert!(finish_plan(plan, Err("no store".to_string())).is_err());
}

#[test]
fn sync_rpc_credentials_go_into_the_keyring_and_can_be_cleared() {
    credentials_are_kept_and_cleared();
}

#[test]
fn tests_credentials_credentials_go_into_the_keyring_and_can_be_cleared() {
    credentials_are_kept_and_cleared();
}

#[test]
fn kopia_password_can_be_stored_and_cleared() {
    let plan = plan_kopia_password("custom-repository-password");
    assert!(is_true(&plan.reply, "stored"));
    assert!(!is_true(&plan.reply, "using_default"));
    match &plan.steps[0] {
        SecretStep::Store(key, value) => {
            assert_eq!(*key, SecretKey::KopiaPassword);
            assert_eq!(value, "custom-repository-password");
        },
        _ => panic!("the password is stored"),
    }
    let plan = plan_kopia_password("");
    assert!(is_true(&plan.reply, "cleared"));
    assert!(is_true(&plan.reply, "using_default"));
    assert!(matches!(plan.steps[0], SecretStep::Clear(SecretKey::KopiaPassword)));
    assert!(is_true(&finish_plan(plan, Ok(())).ok().unwrap(), "cleared"));
}

#[test]
fn a_master_file_needs_to_be_there() {
    let error = check_clear_master(false).err().unwrap();
    assert!(error.contains("没有主密码凭据文件"), "{error}");
    assert!(check_clear_master(true).is_ok());
    assert!(check_unlock(true, "x").is_ok());
    assert!(check_unlock(false, "x").is_err());
    assert!(check_lock(true).is_ok());
    assert!(check_lock(false).is_err());
    assert!(check_master_password(true, false).is_err());
    assert!(check_master_password(true, true).is_ok());
    assert!(check_master_password(false, false).is_ok());
    assert!(is_true(&removed_reply(), "removed"));
    assert_eq!(master_reply(&p("/x"), 2).number_at("count"), 2);
    assert!(is_true(&lock_reply(true, Json::Null), "locked"));
}

// What moves by itself

fn off_means_off() {
    let mut config = Config::default_at(&None);
    config.sync.enabled = false;
    assert!(!pull_wanted(&config, "demo"));
    let mut config = demo();
    config.sync.enabled = false;
    assert!(!pull_wanted(&config, "demo"));
    assert!(!upload_wanted(&config, "demo"));
}

#[test]
fn sync_rpc_a_launch_with_sync_off_does_not_touch_the_network() {
    off_means_off();
}

#[test]
fn tests_credentials_a_launch_with_sync_off_does_not_touch_the_network() {
    off_means_off();
}

fn a_broken_sync_lets_the_game_start() {
    assert!(pull_wanted(&demo(), "demo"));
    let report = pull_failed("找不到 rclone");
    assert!(!is_true(&report, "ok"));
    assert_eq!(report.text_at("error"), Some("找不到 rclone"));
    let report = pull_timed_out(20);
    assert_eq!(report.text_at("error"), Some("拉取超过 20 秒，已跳过"));
}

#[test]
fn sync_rpc_a_launch_never_fails_because_sync_is_broken() {
    a_broken_sync_lets_the_game_start();
}

#[test]
fn tests_credentials_a_launch_never_fails_because_sync_is_broken() {
    a_broken_sync_lets_the_game_start();
}

#[test]
fn switching_one_game_off_stops_its_automatic_sync_only() {
    let mut config = demo();
    assert!(pull_wanted(&config, "demo"));
    config.games[0].1.sync_enabled = false;
    assert!(!pull_wanted(&config, "demo"));
    assert!(!upload_wanted(&config, "demo"));
    // A sync by hand is another matter.
    assert_eq!(games_to_sync(&config, &some("demo")).ok().unwrap(), vec!["demo"]);
    config.games[0].1.sync_enabled = true;
    assert!(pull_wanted(&config, "demo"));
}

#[test]
fn every_game_with_saves_can_be_synced_at_once() {
    let mut config = demo();
    let mut bare = a_game("bare");
    bare.save_paths = Vec::new();
    config.games.push(("bare".to_string(), bare));
    assert_eq!(games_to_sync(&config, &None).ok().unwrap(), vec!["demo"]);
    assert_eq!(games_to_sync(&config, &some("ghost")).ok().unwrap(), vec!["ghost"]);
    config.games.remove(0);
    assert!(games_to_sync(&config, &None).is_err());
    config.games.insert(0, ("demo".to_string(), a_game("demo")));
    assert_eq!(sync_targets(&config, "demo").ok().unwrap(), "demo");
    assert!(sync_targets(&config, "bare").is_err());
    assert!(sync_targets(&config, "ghost").is_err());
    assert_eq!(versions_key(&config, "demo").ok().unwrap(), "demo");
}

#[test]
fn results_are_reported() {
    let outcomes = vec![
        Outcome { ok: true, report: Json::Unsigned(1) },
        Outcome { ok: false, report: Json::Unsigned(2) },
    ];
    let value = now_reply(&outcomes);
    assert!(!is_true(&value, "ok"));
    assert_eq!(value.list_at("games").unwrap().len(), 2);
    let value = restore_reply(Outcome { ok: true, report: Json::Unsigned(1) });
    assert!(is_true(&value, "ok"));
    assert_eq!(test_reply("kotori:bkt").text_at("remote"), Some("kotori:bkt"));
    let none: Option<String> = None;
    let nothing: Vec<String> = vec!["skipped".to_string()];
    assert_eq!(record_detail(&none, &nothing, "上传"), "没有需要同步的变化");
    assert_eq!(record_detail(&some("坏了"), &nothing, "上传"), "坏了");
    assert!(timed_out(&Waiting::Test, 30).contains("30 秒"));
    assert!(timed_out(&Waiting::Versions { key: "k".to_string() }, 30).contains("《k》"));
    assert!(timed_out(&Waiting::Games, 30).contains("云端游戏"));
    assert!(timed_out(&Waiting::Index, 30).contains("云端索引"));
    assert!(timed_out(&Waiting::Restore { name: "g".to_string() }, 600).contains("10 分钟"));
}

#[test]
fn a_version_has_a_shape() {
    assert!(is_snapshot("20260911T101500Z"));
    assert!(!is_snapshot("20260911T101500"));
    assert!(!is_snapshot("2026-911T101500Z"));
    assert!(!is_snapshot("../20260911T101500Z"));
    assert!(check_version("20260911T101500Z").is_ok());
    assert!(check_version("x").err().unwrap().contains("不是合法的版本名: x"));
}

// Identities

#[test]
fn the_machine_identity_is_created_once_and_persisted() {
    let mut config = demo();
    assert!(config.daemon.machine_id.is_none());
    let first = machine_id(&mut config);
    assert_eq!(first.len(), 36, "{first}");
    for (i, c) in first.chars().enumerate() {
        let hyphen = [8, 13, 18, 23].contains(&i);
        assert_eq!(c == '-', hyphen, "{first}");
        assert!(hyphen || c.is_ascii_digit() || ('a'..='f').contains(&c), "{first}");
    }
    assert_eq!(first.chars().nth(14), Some('4'), "{first}");
    assert_eq!(machine_id(&mut config), first);
    assert_eq!(config.daemon.machine_id.as_deref(), Some(first.as_str()));
    assert_eq!(adopt_machine_id(&mut config, "other".to_string()), first);
    let mut another = demo();
    assert_ne!(machine_id(&mut another), first);
}

#[test]
fn an_identity_that_is_taken_down_stays() {
    let mut config = demo();
    assert_eq!(cloud_key_of(&config, "demo").ok().unwrap(), "demo");
    assert_eq!(cloud_id_of(&config, "demo").ok().unwrap(), None);
    assert!(identity_changed(&None, "demo", "c1", "demo"));
    remember_identity(&mut config, "demo", "c1", "remote/demo").ok().unwrap();
    assert_eq!(cloud_key_of(&config, "demo").ok().unwrap(), "remote/demo");
    assert_eq!(cloud_id_of(&config, "demo").ok().unwrap().as_deref(), Some("c1"));
    assert!(!identity_changed(&some("c1"), "remote/demo", "c1", "remote/demo"));
    assert!(remember_identity(&mut config, "ghost", "c1", "x").is_err());
}

#[test]
fn a_fingerprint_is_worked_out_once() {
    let mut config = demo();
    assert_eq!(ensure_fingerprint(&mut config, "demo", None).ok().unwrap(), None);
    assert_eq!(fill_fingerprints(&mut config, &vec![some("fp")]), 1);
    assert_eq!(fill_fingerprints(&mut config, &vec![some("other")]), 0);
    let known = ensure_fingerprint(&mut config, "demo", some("another")).ok().unwrap();
    assert_eq!(known.as_deref(), Some("fp"));
    assert!(ensure_fingerprint(&mut config, "ghost", None).is_err());
    let own = machine_identity(
        &config.games[0].1,
        "m".to_string(),
        "label".to_string(),
        some("fp"),
        vec!["a".to_string()],
        Vec::new(),
    );
    assert_eq!(own.fingerprints, vec!["fp"]);
    assert_eq!(own.exe_paths, vec!["/games/demo/game.exe"]);
}

// What the user answers

fn answered(choice: &str, id: Option<&str>, key: Option<&str>) -> (Config, Result<Json, String>) {
    let mut config = demo();
    let out = resolve(
        &mut config,
        "demo",
        choice,
        &id.map(str::to_string),
        &key.map(str::to_string),
        &some("sig"),
    );
    (config, out)
}

#[test]
fn resolve_can_bind_an_existing_cloud_identity() {
    let (config, out) = answered("pair", Some("cloud-1"), Some("remote/demo"));
    assert!(is_true(&out.ok().unwrap(), "ok"));
    let game = config.game("demo").unwrap();
    assert_eq!(game.cloud_id.as_deref(), Some("cloud-1"));
    assert_eq!(game.cloud_dir.as_deref(), Some("remote/demo"));
    assert!(game.cloud_conclusion.as_deref().is_some_and(|value| value.starts_with("ok:")));
}

#[test]
fn resolve_pair_without_an_identity_creates_a_new_binding_decision() {
    let (config, out) = answered("pair", None, None);
    assert!(is_true(&out.ok().unwrap(), "ok"));
    let game = config.game("demo").unwrap();
    assert!(game.cloud_id.is_none());
    assert!(game.cloud_dir.is_none());
    assert!(game.cloud_conclusion.as_deref().is_some_and(|value| value.starts_with("new:")));
}

#[test]
fn resolve_rejects_an_unknown_choice_without_mutating_the_binding() {
    let (config, out) = answered("unknown", None, None);
    assert!(out.err().unwrap().contains("不认识的回答"));
    let game = config.game("demo").unwrap();
    assert!(game.cloud_id.is_none());
    assert!(game.cloud_dir.is_none());
    assert!(game.cloud_conclusion.is_none());
}

#[test]
fn repeating_the_same_pair_is_idempotent() {
    let (mut config, first) = answered("pair", Some("cloud-1"), Some("remote/demo"));
    let second = resolve(
        &mut config,
        "demo",
        "pair",
        &some("cloud-1"),
        &some("remote/demo"),
        &some("sig"),
    );
    assert!(is_true(&first.ok().unwrap(), "ok"));
    assert!(is_true(&second.ok().unwrap(), "ok"));
    let game = config.game("demo").unwrap();
    assert_eq!(game.cloud_id.as_deref(), Some("cloud-1"));
    assert_eq!(game.cloud_dir.as_deref(), Some("remote/demo"));
    assert_eq!(game.cloud_conclusion.as_deref(), Some("ok:sig"));
}

#[test]
fn switching_a_game_off_is_an_answer() {
    let (config, out) = answered("off", None, None);
    assert!(is_true(&out.ok().unwrap(), "ok"));
    let game = config.game("demo").unwrap();
    assert!(!game.sync_enabled);
    assert_eq!(game.cloud_conclusion.as_deref(), Some("off:sig"));
}

#[test]
fn a_decision_is_carried_out() {
    let mut config = demo();
    let adopt = Decision::Adopt { cloud_id: "c9".to_string(), cloud_key: "k9".to_string() };
    apply_decision(&mut config, "demo", &adopt, &some("sig")).ok().unwrap();
    assert_eq!(config.game("demo").unwrap().cloud_id.as_deref(), Some("c9"));
    let before = config.game("demo").unwrap().cloud_conclusion.clone();
    apply_decision(&mut config, "demo", &Decision::Skip, &some("sig")).ok().unwrap();
    assert_eq!(config.game("demo").unwrap().cloud_conclusion, before);
}

#[test]
fn a_fingerprint_names_one_identity_at_most() {
    let mut config = demo();
    let hit = |id: &str| Hit { cloud_key: format!("key-{id}"), cloud_id: id.to_string() };
    assert!(matches!(fingerprint_hit(&config, "demo", &Vec::new()), Found::Nothing));
    match fingerprint_hit(&config, "demo", &vec![hit("c1")]) {
        Found::One { cloud_id, cloud_key } => {
            assert_eq!(cloud_id, "c1");
            assert_eq!(cloud_key, "key-c1");
        },
        _ => panic!("it is the one"),
    }
    assert!(matches!(fingerprint_hit(&config, "demo", &vec![hit("c1"), hit("c2")]), Found::Many));
    let mut other = a_game("other");
    other.cloud_id = some("c1");
    config.games.push(("other".to_string(), other));
    assert!(matches!(fingerprint_hit(&config, "demo", &vec![hit("c1")]), Found::Many));
    let cards = vec![Card {
        cloud_key: "key-c1".to_string(),
        cloud_id: "c1".to_string(),
        name: "One".to_string(),
        machines: 2,
    }];
    let offered = identities(&config, "demo", &cards);
    let list = offered.list_at("identities").unwrap();
    assert_eq!(list[0].text_at("cloud_key"), Some("key-c1"));
    assert_eq!(list[0].number_at("machines"), 2);
    assert_eq!(list[0].get("mine").unwrap().as_bool(), Some(false));
    assert_eq!(list[0].text_at("taken_by"), Some("other"));
}

// Pairs

#[test]
fn a_pair_is_made_and_parted() {
    let mut config = demo();
    reject(&mut config, "demo", "c1").ok().unwrap();
    reject(&mut config, "demo", "c1").ok().unwrap();
    assert_eq!(config.game("demo").unwrap().cloud_rejected, vec!["c1"]);
    pair(&mut config, "demo", "k1", "c1").ok().unwrap();
    let game = config.game("demo").unwrap();
    assert!(game.cloud_rejected.is_empty());
    assert_eq!(game.cloud_id.as_deref(), Some("c1"));
    assert_eq!(game.cloud_dir.as_deref(), Some("k1"));
    reject(&mut config, "demo", "c1").ok().unwrap();
    let game = config.game("demo").unwrap();
    assert!(game.cloud_id.is_none());
    assert!(game.cloud_dir.is_none());
    assert_eq!(pair(&mut config, "ghost", "k", "c").err().unwrap(), "配置中找不到游戏: ghost");
    assert!(reject(&mut config, "ghost", "c").is_err());
}

#[test]
fn a_scan_binds_what_it_is_sure_of() {
    let mut config = demo();
    config.games.push(("b".to_string(), a_game("B")));
    let binding = |id: &str, cloud: &str| Binding {
        id: id.to_string(),
        cloud_key: format!("key-{cloud}"),
        cloud_id: cloud.to_string(),
    };
    let done = bind_found(&mut config, &vec![binding("demo", "c1"), binding("b", "c2")]);
    assert_eq!(done.ok().unwrap(), 2);
    assert_eq!(config.game("b").unwrap().cloud_id.as_deref(), Some("c2"));
    let stopped = bind_found(
        &mut config,
        &vec![binding("demo", "c3"), binding("ghost", "c4"), binding("b", "c5")],
    );
    assert!(stopped.is_err());
    assert_eq!(config.game("demo").unwrap().cloud_id.as_deref(), Some("c3"));
    assert_eq!(config.game("b").unwrap().cloud_id.as_deref(), Some("c2"));

    let locals = local_games(&config, &vec![vec!["loc".to_string()], Vec::new()]);
    assert_eq!(locals[0].id, "b");
    assert_eq!(locals[1].id, "demo");
    assert_eq!(locals[1].locations, vec!["loc"]);
    let row = PairRow {
        cloud_key: "k".to_string(),
        cloud_id: "c".to_string(),
        cloud_name: "N".to_string(),
        machines: 1,
        state: 2,
        local: Some(Partner {
            id: "demo".to_string(),
            name: "demo".to_string(),
            evidence: "指纹".to_string(),
        }),
        candidates: vec!["b".to_string(), "nobody".to_string()],
    };
    let value = pairing_reply(&vec![row], &locals, 2);
    assert_eq!(value.number_at("bound"), 2);
    let row = &value.list_at("rows").unwrap()[0];
    assert_eq!(row.text_at("evidence"), Some("指纹"));
    let choices = row.list_at("choices").unwrap();
    assert_eq!(choices[0].text_at("local_name"), Some("B"));
    assert_eq!(choices[1].text_at("local_name"), Some(""));
}

#[test]
fn the_cloud_is_listed_with_what_is_here() {
    let mut config = demo();
    config.games[0].1.cloud_id = some("c1");
    config.games[0].1.cloud_rejected = vec!["c2".to_string()];
    let index = Some(vec![index_game("k1", "c1", "One"), index_game("k2", "c2", "Two")]);
    let value = cloud_list(&config, &index);
    assert!(is_true(&value, "indexed"));
    let games = value.list_at("games").unwrap();
    assert_eq!(games[0].text_at("local_id"), Some("demo"));
    assert_eq!(games[0].number_at("machines"), 2);
    assert_eq!(games[0].list_at("exe_paths").unwrap().len(), 3);
    assert!(!is_true(&games[0], "rejected"));
    assert_eq!(games[1].text_at("local_id"), Some(""));
    assert!(is_true(&games[1], "rejected"));
    let empty = cloud_list(&config, &None);
    assert!(!is_true(&empty, "indexed"));
    let matched =
        match_reply(&config, true, true, &some("t"), "fp", &vec![index_game("k1", "c1", "One")]);
    assert_eq!(
        matched.list_at("games").unwrap()[0].text_at("local_name"),
        games[0].text_at("local_name")
    );
    assert_eq!(matched.text_at("fingerprint"), Some("fp"));
    assert_eq!(match_fingerprint(some("fp"), &p("/g/x.exe")).ok().unwrap(), "fp");
    let error = match_fingerprint(None, &p("/g/x.exe")).err().unwrap();
    assert_eq!(error, "读不出这个文件的指纹（文件在不在、有没有权限？）: /g/x.exe");
}

#[test]
fn the_index_follows_what_happens() {
    let mut config = demo();
    let versions = vec!["20260911T101500Z".to_string(), "20260912T101500Z".to_string()];
    let error = index_entry(&config, "demo", "k", Vec::new(), &versions).err().unwrap();
    assert_eq!(error, "demo 还没有云端身份");
    assert!(index_entry(&config, "ghost", "k", Vec::new(), &versions).is_err());
    config.games[0].1.cloud_id = some("c1");
    let entry =
        index_entry(&config, "demo", "k", vec!["/x".to_string()], &versions).ok().unwrap();
    assert_eq!(entry.versions, 2);
    assert_eq!(entry.latest.as_deref(), Some("20260912T101500Z"));
    let mut counts: Keyed<u64> = Keyed::new();
    counts.insert("k1", 9);
    let rebuilt =
        rebuild_entries(vec![index_game("k1", "c1", "One"), index_game("k2", "c2", "Two")], &counts);
    assert_eq!(rebuilt[0].versions, 9);
    assert_eq!(rebuilt[1].versions, 0);
    assert_eq!(INDEX_REFRESH_SECONDS, 3600);
}

#[test]
fn only_what_is_there_is_deleted() {
    let info = |name: &str, size: u64| VersionInfo { name: name.to_string(), size };
    let list = vec![info("20260911T101500Z", 1), info("20260912T101500Z", 2)];
    assert_eq!(find_version(&list, "20260912T101500Z").ok().unwrap(), 1);
    let error = find_version(&list, "20260913T101500Z").err().unwrap();
    assert_eq!(error, "云端没有这一版: 20260913T101500Z");
    assert!(find_version(&list, "junk").err().unwrap().contains("不是合法的版本名"));
    let (left, value) = after_deletion(&list, 1, "20260912T101500Z");
    assert_eq!(left.versions, 1);
    assert_eq!(left.latest.as_deref(), Some("20260911T101500Z"));
    assert_eq!(left.size, 1);
    assert_eq!(value.number_at("left"), 1);
    let (left, _) = after_deletion(&list, 0, "20260911T101500Z");
    assert_eq!(left.latest.as_deref(), Some("20260912T101500Z"));
    let (left, value) = all_deleted(2, true);
    assert!(left.gone);
    assert_eq!(value.number_at("removed"), 2);
    assert_eq!(identity_to_delete(some("c1"), "k").ok().unwrap(), "c1");
    let error = identity_to_delete(None, "k").err().unwrap();
    assert_eq!(error, "索引里没有这一款（k）—— 先刷新一次云端清单再来删");
}

#[test]
fn what_happened_is_remembered() {
    let mut records: Keyed<SyncRecord> = Keyed::new();
    let actions = vec!["uploaded".to_string(), "skipped".to_string()];
    remember_at(&mut records, "demo", "上传", true, &None, &actions, "now".to_string());
    let record = records.get("demo").unwrap();
    assert_eq!(record.detail, "1 个位置已上传");
    assert_eq!(record.at, "now");
    remember(&mut records, "demo", "取回", false, &some("坏了"), &actions);
    let record = records.get("demo").unwrap();
    assert!(is_moment(&record.at), "{}", record.at);
    assert!(!record.ok);
    assert_eq!(record.detail, "坏了");
}

// Before saves are moved

/// A date, a `T`, a time of day with three, six or nine digits after the seconds or none, a `Z`.
fn is_moment(text: &str) -> bool {
    let shape: String = text.chars().map(|c| if c.is_ascii_digit() { '0' } else { c }).collect();
    ["", ".000", ".000000", ".000000000"]
        .iter()
        .any(|fraction| shape == format!("0000-00-00T00:00:00{fraction}Z"))
}

fn no(reason: &str) -> Result<(), String> {
    Err(reason.to_string())
}

#[test]
fn saves_are_fetched_only_where_that_is_wanted() {
    let mut config = demo();
    config.sync.enabled = false;
    assert!(matches!(plan_pull(&config, "demo", &Ok(()), &Ok(())), Pull::Nothing));
    config.sync.enabled = true;
    match plan_pull(&config, "demo", &Ok(()), &Ok(())) {
        Pull::Go(own) => {
            assert_eq!(own.name, config.game("demo").unwrap().name);
            assert_eq!(own.key, "demo");
            assert!(own.cloud_id.is_none());
        },
        _ => panic!("the saves are fetched"),
    }
    config.games[0].1.sync_enabled = false;
    assert!(matches!(plan_pull(&config, "demo", &Ok(()), &Ok(())), Pull::Nothing));
}

#[test]
fn saves_that_cannot_be_fetched_are_reported() {
    let mut config = demo();
    config.sync.enabled = true;
    for (located, engine) in [(no("disk away"), Ok(())), (Ok(()), no("disk away"))] {
        match plan_pull(&config, "demo", &located, &engine) {
            Pull::Report(report) => {
                assert_eq!(report.text_at("error"), Some("disk away"));
                assert_eq!(report.get("ok").unwrap().as_bool(), Some(false));
            },
            _ => panic!("the reason is said"),
        }
    }
    assert_eq!(finish_pull(None, 20).text_at("error"), Some("拉取超过 20 秒，已跳过"));
    assert_eq!(finish_pull(Some(Json::Bool(true)), 20).as_bool(), Some(true));
}

#[test]
fn saves_are_uploaded_after_a_game() {
    let mut config = demo();
    config.sync.enabled = true;
    config.games[0].1.cloud_dir = Some("there".to_string());
    match plan_upload(&config, "demo", &Ok(()), &Ok(())) {
        Upload::Go(own) => assert_eq!(own.key, "there"),
        _ => panic!("the saves are uploaded"),
    }
    assert!(matches!(plan_upload(&config, "ghost", &Ok(()), &Ok(())), Upload::Off));
    assert!(matches!(plan_upload(&config, "demo", &Ok(()), &no("x")), Upload::Fail(_)));
    config.games[0].1.save_paths = Vec::new();
    assert!(matches!(plan_upload(&config, "demo", &Ok(()), &Ok(())), Upload::Nothing(_)));
}

#[test]
fn a_named_game_without_save_locations_is_refused() {
    let mut config = demo();
    config.games[0].1.sync_enabled = false;
    let own = plan_move(&config, "demo", &Ok(())).ok().unwrap();
    assert_eq!(own.key, "demo");
    assert_eq!(plan_move(&config, "demo", &no("x")).err().unwrap(), "x");
    assert_eq!(plan_move(&config, "ghost", &Ok(())).err().unwrap(), "配置中找不到游戏: ghost");
    let name = config.games[0].1.name.clone();
    config.games[0].1.save_paths = Vec::new();
    let only = Some("demo".to_string());
    assert_eq!(begin_upload(&config, &only, &Ok(())).ok().unwrap(), vec!["demo"]);
    let error = plan_move(&config, "demo", &Ok(())).err().unwrap();
    assert_eq!(error, format!("「{name}」还没有配置存档位置"));
}

#[test]
fn what_the_user_asks_for_does_not_depend_on_the_switch_of_the_game() {
    let mut config = demo();
    config.games[0].1.sync_enabled = false;
    assert!(plan_restore(&config, "demo", &None, &Ok(()), &Ok(())).is_ok());
    let bad = Some("yesterday".to_string());
    let error = plan_restore(&config, "demo", &bad, &no("x"), &Ok(())).err().unwrap();
    assert_eq!(error, "不是合法的版本名: yesterday（形如 20260911T101500Z）");
    let error = plan_restore(&config, "demo", &None, &no("x"), &no("y")).err().unwrap();
    assert_eq!(error, "x");
    assert_eq!(begin_upload(&config, &None, &Ok(())).ok().unwrap(), vec!["demo"]);
    assert_eq!(begin_upload(&config, &None, &no("x")).err().unwrap(), "x");
}
