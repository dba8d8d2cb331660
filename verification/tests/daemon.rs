//! Requests to the daemon: how they are understood, and what they do to the configuration.

use std::collections::HashMap;

use kotori::config::model::{Config, GameConfig, SavePath};
use kotori::config::profile::{ScaleAlgorithm, ScaleProfile};
use kotori::config::ratio::Ratio;
use kotori::daemon::dispatch::{handle_request, Asked, Call, Step};
use kotori::daemon::game_json::game_list;
use kotori::daemon::game_rpc::{
    after_stop, check_launch_places, exited, find_launch_places, infer_mount, launch_reply,
    question_before_launch, remove, report_added, Decision, Suspect,
};
use kotori::daemon::launch::{Action, Event, Launching, Phase};
use kotori::daemon::game_write::{
    create_game, create_game_at, directory_for, update_game, GamePatch, NewGame, NewGameFacts, PatchFacts,
};
use kotori::daemon::protocol::{bad_params, respond, Reply, Request};
use kotori::daemon::scale_rpc::{
    adjust_sharpness, lookup_session, note_resolution, run_action, scale_status, sharpness_reply,
    Applied, Failed, Live, Sharpness,
};
use kotori::daemon::session::{launch_spec, watch_spec, Session};
use kotori::daemon::state::{finish_change, start_change};
use kotori::daemon::status_rpc::{
    finish_switch, plan_switch, reload, set_wine_prefix, status, wine_status, Carried,
    ConfigSources, Files, Switch,
};
use kotori::daemon::watch::{candidates, claimed_names, games_to_look_for, Watch, WATCH_POLL};
use kotori::json::Json;
use kotori::mount::table::{Mount, MountPath, MountTable};
use kotori::path::FsPath;
use kotori::text::keyed::Keyed;

fn p(text: &str) -> FsPath {
    FsPath::from_text(text)
}

fn a_game(name: &str) -> GameConfig {
    GameConfig {
        name: name.to_string(),
        game_dir: p("/games/demo"),
        game_dir_mount: None,
        exe_path: p("/games/demo/game.exe"),
        exe_mount: None,
        exe_fingerprint: None,
        launch_args: Vec::new(),
        save_paths: Vec::new(),
        wine_prefix: None,
        auto_watch: false,
        direct_launch: false,
        process_name: None,
        scale_profile: ScaleProfile::default_for(),
        created_at: "2026-01-01T00:00:00Z".to_string(),
        cloud_id: None,
        cloud_dir: None,
        cloud_rejected: Vec::new(),
        sync_enabled: true,
        cloud_conclusion: None,
    }
}

fn config_with(games: Vec<(&str, GameConfig)>) -> Config {
    let mut config = Config::default_at(&None);
    for (id, game) in games {
        config.games.push((id.to_string(), game));
    }
    config
}

fn actions() -> Vec<String> {
    vec!["toggle-nis".to_string(), "scale-up".to_string()]
}

/// A line from a client, read the way a line is read.
fn read(line: &str) -> Result<Request, String> {
    let value = Json::parse(line).ok_or("not JSON".to_string())?;
    let params = match value.get("params") {
        Some(Json::Object(members)) => Some(kotori::json::copy_members(members)),
        _ => None,
    };
    Ok(Request {
        jsonrpc: value.text_at_or("jsonrpc", "").to_string(),
        id: value.get("id").map(|id| id.copy()).unwrap_or(Json::Null),
        method: value.text_at_or("method", "").to_string(),
        params,
    })
}

fn reply(line: &str) -> Reply {
    match handle_request(read(line), &actions()) {
        Step::Reply(reply) => reply,
        Step::Perform { .. } => panic!("the request was taken"),
    }
}

fn call(line: &str) -> Asked {
    match handle_request(read(line), &actions()) {
        Step::Perform { call, .. } => call,
        Step::Reply(_) => panic!("the request was turned down"),
    }
}

fn code(reply: &Reply) -> i64 {
    reply.body.get("error").unwrap().get("code").unwrap().as_signed().unwrap()
}

fn message(reply: &Reply) -> String {
    reply.body.get("error").unwrap().text_at("message").unwrap().to_string()
}

// The protocol

#[test]
fn unknown_method_is_reported_as_method_not_found() {
    let reply = reply(r#"{"jsonrpc":"2.0","id":7,"method":"nope"}"#);
    assert_eq!(code(&reply), -32601);
    assert_eq!(reply.body.get("id").unwrap().as_unsigned(), Some(7));
    assert!(!reply.shutdown);
}

#[test]
fn malformed_json_is_a_parse_error() {
    let reply = reply("{not json");
    assert_eq!(code(&reply), -32700);
    assert!(reply.body.get("id").unwrap().is_null());
}

#[test]
fn wrong_jsonrpc_version_is_rejected() {
    let reply = reply(r#"{"jsonrpc":"1.0","id":1,"method":"game.list"}"#);
    assert_eq!(code(&reply), -32600);
    assert_eq!(message(&reply), "unsupported jsonrpc version: \"1.0\"");
}

#[test]
fn missing_params_are_invalid_params() {
    let reply = reply(r#"{"jsonrpc":"2.0","id":1,"method":"game.launch"}"#);
    assert_eq!(code(&reply), -32602);
    assert!(message(&reply).contains("id"));
}

#[test]
fn shutdown_reply_is_flagged() {
    let reply = reply(r#"{"jsonrpc":"2.0","id":1,"method":"daemon.shutdown"}"#);
    assert!(reply.shutdown);
    let success = reply.body.get("result").unwrap().get("success").unwrap().as_bool();
    assert_eq!(success, Some(true));
}

#[test]
fn requests_are_understood() {
    assert!(matches!(
        call(r#"{"jsonrpc":"2.0","id":1,"method":"game.list"}"#),
        Call::GameList
    ));
    let launch =
        call(r#"{"jsonrpc":"2.0","id":1,"method":"game.launch","params":{"id":"x","selfcheck":true}}"#);
    assert!(matches!(launch, Call::GameLaunch { id, selfcheck: true } if id == "x"));
    let update = call(
        r#"{"jsonrpc":"2.0","id":1,"method":"game.update","params":{"id":"x","name":"y"}}"#,
    );
    match update {
        Call::GameUpdate { id, patch } => {
            assert_eq!(id, "x");
            assert_eq!(patch.len(), 1);
            assert_eq!(patch[0].0, "name");
        },
        _ => panic!("another request"),
    }
    let sharper = call(
        r#"{"jsonrpc":"2.0","id":1,"method":"scale.adjust_sharpness","params":{"session_id":"s","delta":-2}}"#,
    );
    assert!(matches!(sharper, Call::ScaleAdjustSharpness { session, delta: -2 } if session == "s"));
    let known = call(
        r#"{"jsonrpc":"2.0","id":1,"method":"scale.action","params":{"session_id":"s","action":"scale-up"}}"#,
    );
    assert!(matches!(known, Call::ScaleAction { action, .. } if action == "scale-up"));
    let unknown = reply(
        r#"{"jsonrpc":"2.0","id":1,"method":"scale.action","params":{"session_id":"s","action":"jump"}}"#,
    );
    assert_eq!(code(&unknown), -32602);
    let matched =
        call(r#"{"jsonrpc":"2.0","id":1,"method":"sync.match","params":{"exe":"/g/x.exe"}}"#);
    assert!(matches!(matched, Call::SyncMatch { exe } if exe == "/g/x.exe"));
    let nameless = reply(r#"{"jsonrpc":"2.0","id":1,"method":"sync.match"}"#);
    assert_eq!((code(&nameless), message(&nameless)), (-32602, "missing parameter: exe".to_string()));
    let deleted = call(
        r#"{"jsonrpc":"2.0","id":1,"method":"sync.delete_version","params":{"key":"k","version":"v"}}"#,
    );
    assert!(matches!(deleted, Call::SyncDeleteVersion { key, gone } if key == "k" && gone == "v"));
    let cleared =
        call(r#"{"jsonrpc":"2.0","id":1,"method":"sync.delete_versions","params":{"key":"k"}}"#);
    assert!(matches!(cleared, Call::SyncDeleteVersions { key } if key == "k"));
    let erased =
        call(r#"{"jsonrpc":"2.0","id":1,"method":"sync.delete_identity","params":{"key":"k"}}"#);
    assert!(matches!(erased, Call::SyncDeleteIdentity { key } if key == "k"));
    let restore =
        call(r#"{"jsonrpc":"2.0","id":1,"method":"sync.restore","params":{"id":"x"}}"#);
    assert!(matches!(restore, Call::SyncRestore { version: None, .. }));
    let source = call(
        r#"{"jsonrpc":"2.0","id":1,"method":"config.set_source","params":{"portable":true}}"#,
    );
    assert!(matches!(source, Call::ConfigSetSource { portable: true }));
    let pair = reply(r#"{"jsonrpc":"2.0","id":1,"method":"sync.pair","params":{"id":"x"}}"#);
    assert!(message(&pair).contains("cloud_key"));
}

#[test]
fn a_reply_names_its_request() {
    let failed = respond(Json::Unsigned(3), Err("no".to_string()));
    assert_eq!(code(&failed), -32000);
    assert_eq!(message(&failed), "no");
    assert_eq!(failed.body.get("id").unwrap().as_unsigned(), Some(3));
    assert!(failed.body.get("result").is_none());
    let shapeless = bad_params(Json::Unsigned(4), "unknown field");
    assert_eq!(code(&shapeless), -32602);
    let error = shapeless.body.get("error").unwrap();
    assert_eq!(error.text_at("message"), Some("参数无效: unknown field"));
    assert!(!shapeless.shutdown);
    let fine = respond(Json::Text("a".to_string()), Ok(Json::Null));
    assert_eq!(fine.body.text_at("id"), Some("a"));
    assert!(fine.body.get("error").is_none());
}

// The list of games

#[test]
fn game_list_exposes_the_full_scale_profile() {
    let mut game = a_game("demo");
    game.scale_profile.algorithm = ScaleAlgorithm::Nis { sharpness: 4 };
    game.scale_profile.framerate_limit = Some(60);
    game.scale_profile.force_fullscreen = false;
    game.scale_profile.output_width = Some(1920);
    game.scale_profile.output_height = Some(1080);
    let config = config_with(vec![("demo", game)]);
    let value = game_list(&config, &MountTable::empty());
    let game = &value.list_at("games").unwrap()[0];
    assert_eq!(game.text_at("id"), Some("demo"));
    let profile = game.get("scale_profile").unwrap();
    let nis = profile.get("algorithm").unwrap().get("Nis").unwrap();
    assert_eq!(nis.number_at("sharpness"), 4);
    assert_eq!(profile.number_at("framerate_limit"), 60);
    assert_eq!(profile.get("force_fullscreen").unwrap().as_bool(), Some(false));
    assert_eq!(profile.number_at("output_width"), 1920);
}

#[test]
fn a_ratio_is_listed_in_double_precision() {
    let listed = |value: f32| {
        let mut game = a_game("demo");
        game.scale_profile.scale_ratio = Some(Ratio {
            bits: value.to_bits(),
            shown: format!("{value}"),
            wide: serde_json::Value::from(value).to_string(),
        });
        let value = game_list(&config_with(vec![("demo", game)]), &MountTable::empty());
        let profile = value.list_at("games").unwrap()[0].get("scale_profile").unwrap();
        match profile.get("scale_ratio").unwrap() {
            Json::Real(text) => Some(text.clone()),
            _ => None,
        }
    };
    assert_eq!(listed(1.1).as_deref(), Some("1.100000023841858"));
    assert_eq!(listed(2.0).as_deref(), Some("2.0"));
    assert_eq!(listed(f32::NAN), None);
}

fn listed(config: &Config, key: &str) -> Vec<String> {
    let value = game_list(config, &MountTable::empty());
    value
        .list_at("games")
        .unwrap()
        .iter()
        .map(|game| game.text_at(key).unwrap().to_string())
        .collect()
}

#[test]
fn games_are_sorted_by_name() {
    let config = config_with(vec![
        ("zeta", a_game("zeta")),
        ("alpha", a_game("alpha")),
        ("mid", a_game("mid")),
    ]);
    assert_eq!(listed(&config, "name"), ["alpha", "mid", "zeta"]);
}

#[test]
fn games_with_the_same_name_still_have_one_order() {
    let config = config_with(vec![
        ("zzz", a_game("同名")),
        ("aaa", a_game("同名")),
        ("mmm", a_game("同名")),
    ]);
    assert_eq!(listed(&config, "id"), ["aaa", "mmm", "zzz"]);
}

// Status and sources

#[test]
fn status_reports_no_sessions_initially() {
    let config = Config::default_at(&None);
    let sources = ConfigSources { portable: None, default: p("/home/u/.config/kotori/config.toml") };
    let value =
        status(&config, &p("/home/u/.config/kotori/config.toml"), &sources, false, &Vec::new());
    assert_eq!(value.get("running").unwrap().as_bool(), Some(true));
    assert_eq!(value.list_at("sessions").unwrap().len(), 0);
}

#[test]
fn status_on_unknown_session_lists_nothing_new() {
    let error = lookup_session(&Vec::new(), "ghost").err().unwrap();
    assert!(error.contains("session not found"));
}

fn files() -> Files {
    Files {
        config: p("/tmp/s/config_dir/config.toml"),
        secrets: p("/tmp/s/config_dir/secrets.json"),
        plain_secrets: p("/tmp/s/config_dir/credentials.json"),
    }
}

fn sources() -> ConfigSources {
    ConfigSources {
        portable: Some(p("/tmp/s/exe_dir/config.toml")),
        default: p("/tmp/s/config_dir/config.toml"),
    }
}

fn switched(portable: bool) {
    let mut files = files();
    let sources = sources();
    if !portable {
        files.config = p("/tmp/s/exe_dir/config.toml");
        files.secrets = p("/tmp/s/exe_dir/secrets.json");
        files.plain_secrets = p("/tmp/s/exe_dir/credentials.json");
    }
    let (target, disable) = match plan_switch(&sources, &files, false, false, portable) {
        Ok(Switch::Move { target, disable_current, .. }) => (target, disable_current),
        _ => panic!("the configuration has to move"),
    };
    // Only the file beside the program would win again, so only that one steps aside.
    assert_eq!(disable, !portable);
    let wanted = if portable { "exe_dir" } else { "config_dir" };
    let backup = if disable { Some(p("/tmp/s/exe_dir/config.toml.portable-bak")) } else { None };
    let value = finish_switch(&mut files, target, portable, false, Ok(backup)).ok().unwrap();
    assert_eq!(value.get("changed").unwrap().as_bool(), Some(true));
    assert_eq!(
        value.text_at("config_path").unwrap(),
        format!("/tmp/s/{wanted}/config.toml")
    );
    assert_eq!(files.config.text(), format!("/tmp/s/{wanted}/config.toml"));
    assert_eq!(files.secrets.text(), format!("/tmp/s/{wanted}/secrets.json"));
    assert_eq!(files.plain_secrets.text(), format!("/tmp/s/{wanted}/credentials.json"));
}

#[test]
fn tests_switching_the_config_source_moves_it_and_makes_the_portable_one_step_aside() {
    switched(true);
    switched(false);
}

#[test]
fn config_source_switching_the_config_source_moves_it_and_makes_the_portable_one_step_aside() {
    switched(true);
    switched(false);
}

fn stays_put() {
    let mut here = files();
    here.config = p("/tmp/same/config.toml");
    let sources = ConfigSources {
        portable: Some(p("/tmp/same/config.toml")),
        default: p("/tmp/same/config.toml"),
    };
    match plan_switch(&sources, &here, false, false, true) {
        Ok(Switch::Stay(value)) => {
            assert_eq!(value.get("changed").unwrap().as_bool(), Some(false));
        },
        _ => panic!("nothing has to move"),
    }
}

#[test]
fn tests_switching_to_the_source_already_in_use_changes_nothing() {
    stays_put();
}

#[test]
fn config_source_switching_to_the_source_already_in_use_changes_nothing() {
    stays_put();
}

/// Carries the files of a plan on a disk that is a map; a place under a plain file cannot be
/// written to.
fn carry(disk: &mut HashMap<String, String>, carried: &[Carried]) -> Result<(), String> {
    for one in carried {
        let above = one.to.parent().unwrap().text();
        if disk.contains_key(&above) {
            return Err("Not a directory".to_string());
        }
    }
    for one in carried {
        if let Some(content) = disk.remove(&one.from.text()) {
            disk.insert(one.to.text(), content);
        }
    }
    Ok(())
}

fn switch(
    disk: &mut HashMap<String, String>,
    files: &mut Files,
    sources: &ConfigSources,
    portable: bool,
) -> Result<Json, String> {
    match plan_switch(sources, files, false, false, portable)? {
        Switch::Stay(reply) => Ok(reply),
        Switch::Move { target, carried, .. } => {
            let outcome = carry(disk, &carried).map(|()| {
                disk.insert(target.text(), "config".to_string());
                None
            });
            finish_switch(files, target, portable, false, outcome)
        },
    }
}

#[test]
fn switching_the_config_source_takes_the_credentials_along() {
    let mut disk = HashMap::new();
    disk.insert("/tmp/s/config_dir/credentials.json".to_string(), "key-id".to_string());
    let mut files = files();
    let reply = switch(&mut disk, &mut files, &sources(), true).ok().unwrap();
    assert_eq!(reply.get("changed").unwrap().as_bool(), Some(true));

    // The credentials are beside the configuration now, with what they held.
    let held = disk.get("/tmp/s/exe_dir/credentials.json").map(String::as_str);
    assert_eq!(held, Some("key-id"));
    assert_eq!(files.plain_secrets.text(), "/tmp/s/exe_dir/credentials.json");
    assert!(files.secrets.starts_with(&p("/tmp/s/exe_dir")));

    // They come back with the configuration.
    let reply = switch(&mut disk, &mut files, &sources(), false).ok().unwrap();
    assert_eq!(reply.get("changed").unwrap().as_bool(), Some(true));
    assert!(files.secrets.starts_with(&p("/tmp/s/config_dir")));
    let held = disk.get(&files.plain_secrets.text()).map(String::as_str);
    assert_eq!(held, Some("key-id"));
}

#[test]
fn pinned_credentials_stay_where_they_are() {
    let mut files = files();
    match plan_switch(&sources(), &files, false, true, true) {
        Ok(Switch::Move { target, carried, .. }) => {
            assert!(carried.is_empty());
            finish_switch(&mut files, target, true, true, Ok(None)).ok().unwrap();
        },
        _ => panic!("the configuration has to move"),
    }
    assert_eq!(files.plain_secrets.text(), "/tmp/s/config_dir/credentials.json");
    assert_eq!(files.config.text(), "/tmp/s/exe_dir/config.toml");
}

#[test]
fn a_failed_credential_move_leaves_the_config_source_unchanged() {
    let default = "/tmp/s/config_dir/config.toml";
    let mut disk = HashMap::new();
    disk.insert(default.to_string(), "before".to_string());
    disk.insert("/tmp/s/config_dir/credentials.json".to_string(), "key-id".to_string());
    disk.insert("/tmp/s/blocked".to_string(), "not a directory".to_string());
    let sources = ConfigSources {
        portable: Some(p("/tmp/s/blocked/config.toml")),
        default: p(default),
    };
    let mut files = files();
    let error = switch(&mut disk, &mut files, &sources, true).err().unwrap();
    assert!(error.contains("切换配置来源失败"), "{error}");
    assert_eq!(files.config.text(), default);
    assert_eq!(disk.get(default).map(String::as_str), Some("before"));
    assert!(!disk.contains_key("/tmp/s/blocked/config.toml"));
    assert!(files.secrets.starts_with(&p("/tmp/s/config_dir")));
    let held = disk.get(&files.plain_secrets.text()).map(String::as_str);
    assert_eq!(held, Some("key-id"));
}

#[test]
fn a_pinned_configuration_cannot_be_moved() {
    assert!(plan_switch(&sources(), &files(), true, false, true).is_err());
    let nowhere = ConfigSources { portable: None, default: p("/d/config.toml") };
    assert!(plan_switch(&nowhere, &files(), false, false, true).is_err());
}

// Changing games

fn patch() -> GamePatch {
    GamePatch {
        name: None,
        game_dir: None,
        exe_path: None,
        game_dir_mount: None,
        exe_mount: None,
        launch_args: None,
        save_paths: None,
        wine_prefix: None,
        auto_watch: None,
        sync_enabled: None,
        direct_launch: None,
        process_name: None,
        profile: None,
    }
}

fn facts() -> PatchFacts {
    PatchFacts {
        dir_is_dir: false,
        exe_is_file: false,
        canonical_dir: None,
        canonical_exe: None,
        fingerprint: None,
        mounted_fingerprint: None,
        canonical_saves: Vec::new(),
        save_problems: Vec::new(),
    }
}

fn reference(relative: &str) -> MountPath {
    MountPath { disk: "AAAA-1111".to_string(), relative: p(relative) }
}

/// A date, a `T`, a time of day with three, six or nine digits after the seconds or none, a `Z`.
fn is_moment(text: &str) -> bool {
    let shape: String = text.chars().map(|c| if c.is_ascii_digit() { '0' } else { c }).collect();
    ["", ".000", ".000000", ".000000000"]
        .iter()
        .any(|fraction| shape == format!("0000-00-00T00:00:00{fraction}Z"))
}

fn one_disk() -> MountTable {
    MountTable {
        entries: vec![Mount {
            disk: Some("AAAA-1111".to_string()),
            device: "8:1".to_string(),
            root: p("/"),
            point: p("/media/games"),
        }],
    }
}

fn demo() -> Config {
    config_with(vec![("demo", a_game("demo"))])
}

fn update(config: &mut Config, patch: GamePatch, facts: PatchFacts) -> Result<Json, String> {
    update_game(config, "demo", &patch, &facts, &one_disk())
}

#[test]
fn an_explicit_reference_is_stored_and_the_absolute_path_gives_way() {
    let mut config = demo();
    let patch = GamePatch {
        exe_path: Some(p("")),
        exe_mount: Some(Some(reference("Games/demo/game.exe"))),
        ..patch()
    };
    let value = update(&mut config, patch, facts()).ok().unwrap();
    assert_eq!(value.get("success").unwrap().as_bool(), Some(true));
    let game = config.game("demo").unwrap();
    let mount = game.exe_mount.as_ref().unwrap();
    assert_eq!(mount.disk, "AAAA-1111");
    assert_eq!(mount.relative.text(), "Games/demo/game.exe");
    assert!(game.exe_path.is_empty());
}

#[test]
fn a_reference_lets_a_path_that_is_not_mounted_here_through() {
    let mut config = demo();
    let patch = GamePatch {
        exe_path: Some(p("/media/other-machine/game.exe")),
        exe_mount: Some(Some(reference("Games/demo/game.exe"))),
        ..patch()
    };
    assert!(update(&mut config, patch, facts()).is_ok());
    assert!(config.game("demo").unwrap().exe_mount.is_some());
}

#[test]
fn a_null_reference_turns_it_off_and_is_not_filled_back_in() {
    let mut config = demo();
    let first = GamePatch {
        exe_path: Some(p("")),
        exe_mount: Some(Some(reference("Games/demo/game.exe"))),
        ..patch()
    };
    update(&mut config, first, facts()).ok().unwrap();
    let second = GamePatch {
        exe_path: Some(p("/media/games/game.exe")),
        exe_mount: Some(None),
        ..patch()
    };
    let here = PatchFacts {
        exe_is_file: true,
        canonical_exe: Some(p("/media/games/game.exe")),
        ..facts()
    };
    update(&mut config, second, here).ok().unwrap();
    let game = config.game("demo").unwrap();
    assert!(game.exe_mount.is_none());
    assert_eq!(game.exe_path.text(), "/media/games/game.exe");
}

#[test]
fn a_path_that_is_not_here_is_still_refused_without_a_reference() {
    let mut config = demo();
    let patch =
        GamePatch { exe_path: Some(p("/media/other-machine/game.exe")), ..patch() };
    let error = update(&mut config, patch, facts()).err().unwrap();
    assert!(error.contains("可执行文件不存在"), "{error}");
}

#[test]
fn a_reference_that_escapes_its_disk_is_refused() {
    let mut config = demo();
    let patch = GamePatch { exe_mount: Some(Some(reference("../escape"))), ..patch() };
    let error = update(&mut config, patch, facts()).err().unwrap();
    assert!(error.contains("相对路径"), "{error}");
    assert!(config.game("demo").unwrap().exe_mount.is_none());
}

#[test]
fn infer_says_nothing_about_a_path_that_is_not_there() {
    let value = infer_mount(&one_disk(), &None);
    assert!(value.get("mount").unwrap().is_null());
    let value = infer_mount(&one_disk(), &Some(p("/media/games/a")));
    assert_eq!(value.get("mount").unwrap().text_at("relative"), Some("a"));
}

fn new_facts() -> NewGameFacts {
    NewGameFacts {
        exe_is_file: false,
        dir_is_dir: false,
        exes: vec![None],
        wanted: p(""),
        canonical_dir: None,
        canonical_exe: None,
        fingerprint: None,
    }
}

#[test]
fn creating_a_game_with_a_reference_does_not_need_the_file_to_be_here() {
    let mut config = demo();
    let new = NewGame {
        name: "Mounted".to_string(),
        exe_path: p(""),
        game_dir: None,
        game_dir_mount: None,
        exe_mount: Some(reference("Games/mounted/game.exe")),
    };
    let value = create_game(&mut config, &new, &new_facts(), &one_disk()).ok().unwrap();
    assert_eq!(value.text_at("name"), Some("Mounted"));
    let game = &config.games.iter().find(|(_, game)| game.name == "Mounted").unwrap().1;
    assert!(game.exe_mount.is_some());
    assert!(game.exe_path.is_empty());
    assert!(is_moment(&game.created_at), "{}", game.created_at);
}

#[test]
fn creating_a_game_without_a_reference_still_needs_a_real_exe() {
    let mut config = demo();
    let new = NewGame {
        name: "Ghost".to_string(),
        exe_path: p("/media/other-machine/game.exe"),
        game_dir: None,
        game_dir_mount: None,
        exe_mount: None,
    };
    let error = create_game(&mut config, &new, &new_facts(), &one_disk()).err().unwrap();
    assert!(error.contains("可执行文件不存在"), "{error}");
    assert_eq!(config.games.len(), 1);
    assert_eq!(directory_for(&new).text(), "/media/other-machine");
}

#[test]
fn a_new_game_that_is_here_is_taken_in() {
    let mut config = demo();
    let new = NewGame {
        name: "Here".to_string(),
        exe_path: p("/media/games/here/game.exe"),
        game_dir: None,
        game_dir_mount: None,
        exe_mount: None,
    };
    let facts = NewGameFacts {
        exe_is_file: true,
        dir_is_dir: true,
        wanted: p("/media/games/here/game.exe"),
        canonical_dir: Some(p("/media/games/here")),
        canonical_exe: Some(p("/media/games/here/game.exe")),
        fingerprint: Some("fp".to_string()),
        ..new_facts()
    };
    let now = "2026-01-02T00:00:00Z".to_string();
    let value = create_game_at(&mut config, &new, &facts, &one_disk(), now).ok().unwrap();
    assert_eq!(value.text_at("id"), Some("here"));
    let game = config.game("here").unwrap();
    assert_eq!(game.exe_mount.as_ref().unwrap().relative.text(), "here/game.exe");
    assert_eq!(game.exe_fingerprint.as_deref(), Some("fp"));
    assert_eq!(game.created_at, "2026-01-02T00:00:00Z");
}

#[test]
fn an_empty_name_is_refused() {
    let mut config = demo();
    let patch = GamePatch { name: Some("  ".to_string()), ..patch() };
    assert!(update(&mut config, patch, facts()).is_err());
    assert_eq!(config.game("demo").unwrap().name, "demo");
}

#[test]
fn an_unknown_game_is_not_changed() {
    let mut config = demo();
    let error =
        update_game(&mut config, "ghost", &patch(), &facts(), &one_disk()).err().unwrap();
    assert_eq!(error, "配置中找不到游戏: ghost");
}

#[test]
fn an_empty_patch_changes_nothing() {
    let mut config = demo();
    let before = game_list(&config, &one_disk());
    update(&mut config, patch(), facts()).ok().unwrap();
    let after = game_list(&config, &one_disk());
    assert_eq!(before.list_at("games").unwrap().len(), after.list_at("games").unwrap().len());
    assert_eq!(config.game("demo").unwrap().exe_path.text(), "/games/demo/game.exe");
}

#[test]
fn a_bad_profile_is_refused() {
    let mut config = demo();
    let mut profile = ScaleProfile::default_for();
    profile.framerate_limit = Some(0);
    let patch = GamePatch { profile: Some(profile), name: Some("x".to_string()), ..patch() };
    assert!(update(&mut config, patch, facts()).is_err());
    assert_eq!(config.game("demo").unwrap().name, "demo");
}

#[test]
fn cloud_sync_cannot_be_switched_on_without_a_save_location() {
    let mut config = demo();
    config.games[0].1.sync_enabled = false;
    let on = || GamePatch { sync_enabled: Some(true), ..patch() };
    let error = update(&mut config, on(), facts()).err().unwrap();
    assert!(error.contains("存档位置"), "{error}");
    assert!(!config.game("demo").unwrap().sync_enabled);

    config.games[0].1.save_paths = vec![SavePath::inferred("savedata".to_string())];
    assert!(update(&mut config, on(), facts()).is_ok());
    assert!(config.game("demo").unwrap().sync_enabled);
}

#[test]
fn switching_a_game_on_again_forgets_what_was_concluded() {
    let mut config = demo();
    config.games[0].1.save_paths = vec![SavePath::inferred("savedata".to_string())];
    config.games[0].1.sync_enabled = false;
    config.games[0].1.cloud_conclusion = Some("off:abc".to_string());
    let on = GamePatch { sync_enabled: Some(true), ..patch() };
    update(&mut config, on, facts()).ok().unwrap();
    assert!(config.game("demo").unwrap().cloud_conclusion.is_none());
}

#[test]
fn what_was_added_is_reported() {
    let mut shared = a_game("B");
    shared.exe_path = p("/games/link/game.exe");
    let added = vec![("a".to_string(), a_game("A")), ("b".to_string(), shared.copy())];
    let config = config_with(vec![("old", a_game("Old")), ("a", a_game("A")), ("b", shared)]);
    let real = || Some(p("/games/real/game.exe"));
    let exes = vec![real(), Some(p("/games/demo/game.exe")), real()];
    let wanted = vec![p("/games/demo/game.exe"), p("/games/real/game.exe")];
    let value = report_added(&config, &exes, &added, &wanted);
    let list = value.list_at("added").unwrap();
    assert_eq!(list.len(), 2);
    assert_eq!(list[1].text_at("exe_path"), Some("/games/link/game.exe"));
    let warnings = value.list_at("warnings").unwrap();
    assert_eq!(warnings.len(), 1);
    assert_eq!(warnings[0].text_at("id"), Some("b"));
    assert!(warnings[0].text_at("message").unwrap().contains("Old"));
}

#[test]
fn a_game_is_removed_by_its_id() {
    let mut config = config_with(vec![("x", a_game("X"))]);
    assert_eq!(remove(&mut config, "y").err().unwrap(), "配置中找不到游戏: y");
    assert_eq!(remove(&mut config, "x").ok().unwrap().get("success").unwrap().as_bool(), Some(true));
    assert!(config.games.is_empty());
}

// Launching

#[test]
fn a_launch_needs_its_places() {
    let config = demo();
    let (dir, exe) = find_launch_places(&config, "demo", &MountTable::empty()).ok().unwrap();
    assert_eq!(dir.text(), "/games/demo");
    assert_eq!(exe.text(), "/games/demo/game.exe");
    assert!(find_launch_places(&config, "ghost", &MountTable::empty()).is_err());
    assert!(check_launch_places(true, true).is_ok());
    assert!(check_launch_places(false, true).is_err());
    assert!(check_launch_places(true, false).is_err());
}

#[test]
fn the_user_is_asked_before_a_launch() {
    let found = Suspect {
        cloud_id: "c1".to_string(),
        cloud_key: "demo".to_string(),
        name: "Demo".to_string(),
        versions: 3,
        latest: None,
        size: 0,
    };
    let asked = question_before_launch(&Decision::Ask { found: Some(found) }, true).unwrap();
    assert_eq!(asked.get("needs_sync_decision").unwrap().as_bool(), Some(true));
    assert_eq!(asked.get("cloud").unwrap().text_at("name"), Some("Demo"));
    assert_eq!(asked.get("cloud").unwrap().number_at("versions"), 3);
    assert!(question_before_launch(&Decision::Ask { found: None }, false).is_none());
    assert!(question_before_launch(&Decision::Pull, true).is_none());
}

fn a_session(id: &str, game: &str) -> Session {
    Session {
        session_id: id.to_string(),
        game_id: Some(game.to_string()),
        gamescope_pid: Some(17),
        process_name: Some("game.exe".to_string()),
        watch_only: false,
        elapsed_seconds: 5,
    }
}

#[test]
fn a_launch_is_put_together_from_the_game() {
    let mut game = a_game("demo");
    game.launch_args = vec!["-w".to_string()];
    let spec = launch_spec("demo", &game, &p("/d"), &p("/d/g.exe"), &p("/prefix"));
    assert_eq!(spec.game_id, "demo");
    assert_eq!(spec.exe, "/d/g.exe");
    assert_eq!(spec.args, vec!["-w"]);
    assert!(!spec.watch_only);
    let watched = watch_spec("demo", "g.exe", &p("/d"), &game.scale_profile);
    assert!(watched.watch_only);
    assert_eq!(watched.process_name.as_deref(), Some("g.exe"));
    let value = launch_reply(&a_session("s1", "demo"), &p("/d"), &p("/prefix"), "game", None);
    assert_eq!(value.text_at("session_id"), Some("s1"));
    assert_eq!(exited().get("exited").unwrap().as_bool(), Some(true));
}

fn a_launch(selfcheck: bool) -> Launching {
    let config = demo();
    let source = "game".to_string();
    Launching::begin(&config, "demo", &MountTable::empty(), p("/prefix"), source, selfcheck)
        .ok()
        .unwrap()
}

fn seen(launch: &mut Launching) {
    let action = launch.step(Event::Seen { dir_is_dir: true, exe_is_file: true });
    assert!(matches!(action, Action::Check));
}

#[test]
fn a_launch_goes_step_by_step() {
    let mut launch = a_launch(true);
    assert_eq!(launch.game_dir.text(), "/games/demo");
    seen(&mut launch);
    let action = launch.step(Event::Decided(Decision::Pull));
    assert!(matches!(action, Action::Settle(Decision::Pull)));
    let action = launch.step(Event::Settled(Ok(())));
    assert!(matches!(action, Action::Fetch));
    let spec = match launch.step(Event::Fetched(Some(Json::Bool(true)))) {
        Action::Start(spec) => spec,
        _ => panic!("the game is started next"),
    };
    assert_eq!(spec.exe, "/games/demo/game.exe");
    let reply = match launch.step(Event::Started(Ok(a_session("s1", "demo")))) {
        Action::Reply(Ok(reply)) => reply,
        _ => panic!("a reply comes last"),
    };
    assert_eq!(reply.text_at("session_id"), Some("s1"));
    assert_eq!(reply.text_at("prefix_source"), Some("game"));
    assert_eq!(reply.get("sync_pull").unwrap().as_bool(), Some(true));
    assert_eq!(launch.phase, Phase::Over);
}

#[test]
fn whatever_goes_wrong_with_the_sync_the_game_starts() {
    let mut launch = a_launch(false);
    seen(&mut launch);
    let action = launch.step(Event::Decided(Decision::Ask { found: None }));
    assert!(matches!(action, Action::Settle(_)));
    assert!(matches!(launch.step(Event::Settled(Err("disk full".to_string()))), Action::Fetch));
    assert!(matches!(launch.step(Event::Fetched(None)), Action::Start(_)));
    match launch.step(Event::Started(Err("no gamescope".to_string()))) {
        Action::Reply(Err(message)) => assert_eq!(message, "no gamescope"),
        _ => panic!("the failure is the reply"),
    }
}

#[test]
fn a_question_comes_before_the_launch() {
    let mut launch = a_launch(true);
    seen(&mut launch);
    match launch.step(Event::Decided(Decision::Ask { found: None })) {
        Action::Reply(Ok(reply)) => {
            assert_eq!(reply.get("needs_sync_decision").unwrap().as_bool(), Some(true));
            assert!(reply.get("cloud").unwrap().is_null());
        },
        _ => panic!("the user is asked"),
    }
    assert_eq!(launch.phase, Phase::Over);
}

#[test]
fn a_game_that_is_not_there_is_not_started() {
    let mut launch = a_launch(true);
    match launch.step(Event::Seen { dir_is_dir: true, exe_is_file: false }) {
        Action::Reply(Err(message)) => assert!(message.contains("不存在"), "{message}"),
        _ => panic!("the launch is over"),
    }
    let mounts = MountTable::empty();
    let none = Launching::begin(&demo(), "ghost", &mounts, p("/p"), String::new(), true);
    assert_eq!(none.err().unwrap(), "配置中找不到游戏: ghost");
}

#[test]
fn a_run_that_was_stopped_is_not_followed_again() {
    let mut watch = Watch::new();
    let session = Session { watch_only: true, ..a_session("s1", "demo") };
    let value = after_stop(&mut watch.ignored, &session, vec![100, 101]);
    assert_eq!(value.get("success").unwrap().as_bool(), Some(true));
    let mut game = a_game("demo");
    game.auto_watch = true;
    let config = config_with(vec![("demo", game)]);
    let sought = games_to_look_for(&config);
    assert_eq!(sought.len(), 1);
    assert_eq!(candidates(&sought, &vec![true]), vec![0]);
    assert!(candidates(&sought, &vec![false]).is_empty());

    watch.start_round(&vec!["demo".to_string()], &Vec::new());
    assert!(!watch.consider(&Vec::new(), &sought[0], &vec![100, 101], &Vec::new(), 0));
    assert!(!watch.consider(&Vec::new(), &sought[0], &vec![100, 101], &Vec::new(), 10 * WATCH_POLL));
    // Another run is another matter.
    assert!(!watch.consider(&Vec::new(), &sought[0], &vec![200], &Vec::new(), 20 * WATCH_POLL));
    assert!(watch.consider(&Vec::new(), &sought[0], &vec![200], &Vec::new(), 22 * WATCH_POLL));
}

#[test]
fn a_game_is_followed_after_it_stayed() {
    let mut game = a_game("demo");
    game.auto_watch = true;
    let config = config_with(vec![("demo", game), ("off", a_game("off"))]);
    let sought = games_to_look_for(&config);
    assert_eq!(sought.len(), 1);
    assert_eq!(sought[0].name, "game.exe");
    let mut watch = Watch::new();
    let none: Vec<Session> = Vec::new();
    assert!(!watch.consider(&none, &sought[0], &vec![7], &Vec::new(), 1_000));
    assert!(watch.consider(&none, &sought[0], &vec![7], &Vec::new(), 1_000 + WATCH_POLL));
    let live = vec![a_session("s", "demo")];
    assert!(!watch.consider(&live, &sought[0], &vec![7], &Vec::new(), 9_000));
    assert_eq!(claimed_names(&live), vec!["game.exe"]);
}

#[test]
fn one_process_is_not_two_games() {
    let mut first = a_game("first");
    first.auto_watch = true;
    let mut second = a_game("second");
    second.auto_watch = true;
    let config = config_with(vec![("b", second), ("a", first)]);
    let sought = games_to_look_for(&config);
    assert_eq!((sought[0].id.as_str(), sought[1].id.as_str()), ("a", "b"));
    let ids = vec!["a".to_string(), "b".to_string()];
    let none: Vec<Session> = Vec::new();
    let mut watch = Watch::new();
    watch.start_round(&ids, &none);
    assert!(!watch.consider(&none, &sought[0], &vec![7], &Vec::new(), 0));
    assert!(!watch.consider(&none, &sought[1], &vec![7], &Vec::new(), 0));
    watch.start_round(&ids, &none);
    assert!(watch.consider(&none, &sought[0], &vec![7], &Vec::new(), WATCH_POLL));
    watch.followed(&sought[0]);
    assert_eq!(watch.claimed, vec!["game.exe"]);
    assert!(!watch.consider(&none, &sought[1], &vec![7], &vec![true], WATCH_POLL));
    // Under another name it is another process.
    assert!(watch.consider(&none, &sought[1], &vec![8], &vec![false], WATCH_POLL));
    watch.failed("b");
    assert!(!watch.consider(&none, &sought[1], &vec![8], &vec![false], WATCH_POLL));
    // The session of the first game claims its process from then on.
    watch.start_round(&ids, &vec![a_session("s", "a")]);
    assert_eq!(watch.claimed, vec!["game.exe"]);
}

// Scaling

#[test]
fn sharpness_is_moved_in_steps() {
    assert_eq!(adjust_sharpness(3).ok().unwrap(), (Sharpness::Sharper, 3));
    assert_eq!(adjust_sharpness(-2).ok().unwrap(), (Sharpness::Softer, 2));
    assert_eq!(adjust_sharpness(100).ok().unwrap().1, 20);
    assert_eq!(adjust_sharpness(i32::MIN).ok().unwrap(), (Sharpness::Softer, 20));
    assert!(adjust_sharpness(0).is_err());
    assert_eq!(sharpness_reply(3).number_at("steps"), 3);
}

#[test]
fn an_action_says_where_it_took_effect() {
    let session = a_session("s1", "demo");
    let applied = vec![Applied { session: "s1".to_string(), detail: "1.5x".to_string() }];
    let value = run_action(&session, "scale-up", &applied, &Vec::new()).ok().unwrap();
    assert_eq!(value.text_at("action"), Some("scale-up"));
    let failed = vec![Failed { session: "s1".to_string(), error: "坏了".to_string() }];
    let error = run_action(&session, "scale-up", &Vec::new(), &failed).err().unwrap();
    assert!(error.contains("坏了"), "{error}");
    let sessions = vec![session];
    assert_eq!(lookup_session(&sessions, "s1").ok().unwrap().session_id, "s1");
}

#[test]
fn the_live_settings_are_shown_with_the_status() {
    let live = Live {
        filter: "fsr".to_string(),
        scaler: "fit".to_string(),
        sharpness: Some(2),
    };
    let value = scale_status(vec![("a".to_string(), Json::Null)], Some(live));
    assert_eq!(value.get("live").unwrap().text_at("filter"), Some("fsr"));
    assert!(scale_status(Vec::new(), None).get("live").is_none());
}

#[test]
fn a_resolution_that_is_known_stays() {
    let mut config = demo();
    assert!(note_resolution(&mut config, "demo", (800, 600)));
    assert_eq!(
        config.game("demo").unwrap().scale_profile.explicit_internal_size(),
        Some((800, 600))
    );
    assert!(!note_resolution(&mut config, "demo", (1024, 768)));
    assert!(!note_resolution(&mut config, "ghost", (1, 1)));
}

// Changing the configuration

#[test]
fn a_change_starts_from_what_is_on_disk() {
    let mut memory = demo();
    let mut on_disk = demo();
    on_disk.games[0].1.name = "by hand".to_string();
    let mut candidate = start_change(&mut memory, Some(on_disk));
    assert_eq!(memory.games[0].1.name, "by hand");
    candidate.games[0].1.name = "changed".to_string();
    let kept =
        finish_change(&mut memory, candidate.copy(), Err("no".to_string()), Ok(()));
    assert_eq!(kept.err().unwrap(), "no");
    assert_eq!(memory.games[0].1.name, "by hand");
    let unsaved = finish_change(
        &mut memory,
        candidate.copy(),
        Ok(Json::Null),
        Err("disk full".to_string()),
    );
    assert!(unsaved.is_err());
    assert_eq!(memory.games[0].1.name, "by hand");
    assert!(finish_change(&mut memory, candidate, Ok(Json::Null), Ok(())).is_ok());
    assert_eq!(memory.games[0].1.name, "changed");
}

#[test]
fn a_configuration_can_be_read_again() {
    let mut memory = Config::default_at(&None);
    let value = reload(&mut memory, Ok(demo())).ok().unwrap();
    assert_eq!(value.get("success").unwrap().as_bool(), Some(true));
    assert_eq!(memory.games.len(), 1);
    assert!(reload(&mut memory, Err("x".to_string())).is_err());
    assert_eq!(memory.games.len(), 1);
}

#[test]
fn a_wine_prefix_has_to_be_one() {
    let mut config = Config::default_at(&None);
    let value = Json::Text("/home/u/prefix".to_string());
    let error = set_wine_prefix(&mut config, &value, true, false).err().unwrap();
    assert!(error.contains("drive_c"), "{error}");
    assert!(config.wine.prefix.is_none());
    assert!(set_wine_prefix(&mut config, &value, false, false).is_ok());
    assert!(set_wine_prefix(&mut config, &value, true, true).is_ok());
    assert_eq!(config.wine.prefix.as_ref().unwrap().text(), "/home/u/prefix");
    let shown = wine_status(&config, &p("/home/u/.wine"), &None, Json::Null);
    assert_eq!(shown.text_at("configured"), Some("/home/u/prefix"));
    assert_eq!(shown.text_at("default"), Some("/home/u/.wine"));
    assert!(set_wine_prefix(&mut config, &Json::Null, false, false).is_ok());
    assert!(config.wine.prefix.is_none());
    assert!(set_wine_prefix(&mut config, &Json::Bool(true), true, true).is_err());
}

#[test]
fn things_are_found_under_their_keys() {
    let mut map: Keyed<u64> = Keyed::new();
    map.insert("a", 1);
    map.insert("b", 2);
    map.insert("a", 3);
    assert_eq!(map.get("a"), Some(&3));
    map.remove("a");
    assert_eq!(map.get("a"), None);
    map.insert("c", 4);
    map.keep(&vec!["c".to_string()]);
    assert_eq!(map.get("b"), None);
    assert_eq!(map.get("c"), Some(&4));
}
