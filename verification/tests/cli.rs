//! The command line.

use kotori::cli::add::{report, split_reply, Added, Warning};
use kotori::cli::command::{Cli, Command, ScaleCommand, SyncCommand};
use kotori::cli::scale::{
    is_scaled, live_text, report_action, resolve_session, scale_call, status_lines,
};
use kotori::cli::sync::{
    describe_answer, master_line, master_params, sync_step, unlock_params, SyncStep,
};
use kotori::json::Json;
use kotori::path::FsPath;

fn read(text: &str) -> Json {
    Json::parse(text).unwrap()
}

#[test]
fn without_a_command_the_window_opens() {
    assert!(matches!(Cli { command: None }.chosen(), Command::Ui));
    assert!(matches!(Cli { command: Some(Command::List) }.chosen(), Command::List));
}

fn call_of(action: SyncCommand) -> (String, Vec<(String, Json)>) {
    match sync_step(&action) {
        SyncStep::Call { method, params } => (method.to_string(), params),
        _ => panic!("the daemon is asked at once"),
    }
}

#[test]
fn sync_commands_become_requests() {
    assert_eq!(call_of(SyncCommand::Status).0, "sync.status");
    assert_eq!(call_of(SyncCommand::Test).0, "sync.test");
    assert_eq!(call_of(SyncCommand::Cloud).0, "sync.cloud_games");
    let (method, params) = call_of(SyncCommand::Now { game_id: None });
    assert_eq!(method, "sync.now");
    assert!(params.is_empty());
    let (_, params) = call_of(SyncCommand::Now { game_id: Some("x".to_string()) });
    assert_eq!(params[0].0, "id");
    assert_eq!(params[0].1.as_text(), Some("x"));
    let (method, params) = call_of(SyncCommand::Restore {
        game_id: "x".to_string(),
        version: Some("20260911T101500Z".to_string()),
    });
    assert_eq!(method, "sync.restore");
    assert_eq!(params.len(), 2);
    assert_eq!(call_of(SyncCommand::Versions { game_id: "x".to_string() }).0, "sync.versions");
    assert!(matches!(sync_step(&SyncCommand::Unlock), SyncStep::Unlock));
    assert!(matches!(sync_step(&SyncCommand::MasterPassword), SyncStep::MasterPassword));
    assert!(matches!(sync_step(&SyncCommand::Lock), SyncStep::Lock));
}

#[test]
fn a_master_password_is_typed_twice() {
    assert_eq!(master_params("a", "b").err().unwrap(), "两次输入不一样");
    let params = master_params("a", "a").ok().unwrap();
    assert_eq!(params[0].1.as_text(), Some("a"));
    assert_eq!(params[1].1.as_bool(), Some(true));
    assert_eq!(unlock_params("p")[0].1.as_text(), Some("p"));
    assert_eq!(
        master_line(&read(r#"{"count":2,"path":"/x"}"#)),
        "已加密保存 2 条凭据到 /x"
    );
    assert_eq!(master_line(&read("{}")), "已加密保存 0 条凭据到 ?");
}

#[test]
fn the_status_is_put_into_words() {
    let value = read(
        r#"{"enabled":true,"remote":"kotori:bkt/kotori","rclone":null,
            "keyring":{"backend":"密钥环"},"secrets":["b2-key-id"],"problem":"缺凭据",
            "games":[{"id":"a","name":"A","locations":2,"last":null,"location_problem":"盘没插"},
                     {"id":"b","name":"B","locations":0,
                      "last":{"at":"t","action":"上传","detail":"好"}}]}"#,
    );
    let report = describe_answer("sync.status", &value).unwrap();
    assert!(!report.failed);
    assert_eq!(
        report.lines,
        vec![
            "云同步: 已启用",
            "远端: kotori:bkt/kotori",
            "rclone: 未安装（Arch: pacman -S rclone）",
            "密钥环: 密钥环",
            "凭据: keyID √ applicationKey ×",
            "待解决: 缺凭据",
            "游戏（2 个）:",
            "  [a] A — 2 个存档位置，还没同步过",
            "      ⚠ 盘没插",
            "  [b] B — 0 个存档位置，t 上传 好",
        ]
    );
}

#[test]
fn results_are_put_into_words() {
    let value = read(
        r#"{"games":[{"game_id":"a","name":"A",
              "locations":[{"action":"uploaded","configured":"save","detail":"3 个文件"}]},
             {"game_id":"b","name":"B","error":"坏了"}]}"#,
    );
    let report = describe_answer("sync.now", &value).unwrap();
    assert!(report.failed);
    assert_eq!(
        report.lines,
        vec!["√ [a] A", "    uploaded save — 3 个文件", "× [b] B: 坏了"]
    );
    let single = read(r#"{"game":{"game_id":"a","name":"A"}}"#);
    let report = describe_answer("sync.restore", &single).unwrap();
    assert!(!report.failed);
    assert_eq!(report.lines, vec!["√ [a] A"]);
    assert!(describe_answer("sync.now", &read("{}")).unwrap().lines.is_empty());
    let test = describe_answer("sync.test", &read("{}")).unwrap();
    assert_eq!(test.lines, vec!["连接正常: (未知远端)"]);
    let versions = read(r#"{"versions":["20260911T101500Z",7]}"#);
    let report = describe_answer("sync.versions", &versions).unwrap();
    assert_eq!(report.lines, vec!["版本（最旧在前）:", "  20260911T101500Z", "  -"]);
    let none = describe_answer("sync.versions", &read(r#"{"versions":[]}"#)).unwrap();
    assert_eq!(none.lines, vec!["云端还没有这个游戏的存档版本"]);
    assert!(describe_answer("sync.cloud_games", &read("{}")).is_none());
}

#[test]
fn scale_commands_become_requests() {
    assert!(scale_call(ScaleCommand::Status).is_none());
    let call = scale_call(ScaleCommand::Fsr { session_id: None }).unwrap();
    assert_eq!(call.method, "scale.toggle_fsr");
    assert_eq!(call.name(), "scale.toggle_fsr");
    let call = scale_call(ScaleCommand::Fullscreen { session_id: None }).unwrap();
    assert_eq!(call.method, "scale.action");
    assert_eq!(call.name(), "toggle-fullscreen");
    let params = call.params("s1");
    assert_eq!(params[0].1.as_text(), Some("s1"));
    assert_eq!(params[1].1.as_text(), Some("toggle-fullscreen"));
    let call =
        scale_call(ScaleCommand::Sharpness { delta: -1, session_id: Some("s".to_string()) })
            .unwrap();
    assert_eq!(call.session_id.as_deref(), Some("s"));
    let params = call.params("s");
    assert_eq!(params[1].1.as_signed(), Some(-1));
}

#[test]
fn the_game_that_is_meant_is_found() {
    let none = read(r#"{"sessions":[]}"#);
    assert!(resolve_session(&none, None).err().unwrap().contains("没有正在运行的游戏"));
    let one = read(r#"{"sessions":[{"session_id":"s1","game_id":"a"}]}"#);
    assert_eq!(resolve_session(&one, None).ok().unwrap(), "s1");
    assert_eq!(resolve_session(&none, Some("given".to_string())).ok().unwrap(), "given");
    let two = read(
        r#"{"sessions":[{"session_id":"s1","game_id":"a"},{"session_id":"s2","game_id":"b"}]}"#,
    );
    assert_eq!(
        resolve_session(&two, None).err().unwrap(),
        "同时有多个游戏在运行，请指定 session_id：\n  s1 — a\n  s2 — b"
    );
}

#[test]
fn running_games_are_put_into_words() {
    let status = read(
        r#"{"sessions":[{"session_id":"s1","game_id":"a","elapsed_secs":5,"gamescope_pid":7},
                        {"session_id":"s2","game_id":"b","elapsed_secs":6,"gamescope_pid":null}]}"#,
    );
    let live = read(r#"{"live":{"filter":"fsr","scaler":"fit","sharpness":2}}"#);
    let lines = status_lines(&status, &vec![live, Json::Null]);
    assert_eq!(
        lines,
        vec![
            "正在运行的游戏：",
            "  s1 — a（已运行 5s）",
            "      现在：滤镜 fsr / 缩放器 fit / 锐度 2",
            "  s2 — b（已运行 6s）",
            "      仅观测（watch_only）：kotori 没有它的 gamescope 可调",
        ]
    );
    assert_eq!(status_lines(&read("{}"), &Vec::new()), vec!["正在运行的游戏：无"]);
    assert!(is_scaled(&status.list_at("sessions").unwrap()[0]));
    assert!(!is_scaled(&status.list_at("sessions").unwrap()[1]));
    assert!(live_text(&read(r#"{"live":null}"#)).contains("读不到"));
}

#[test]
fn an_action_is_put_into_words() {
    let result = read(
        r#"{"action":"scale-up","sessions":[{"session":"s1","detail":"1.5x"},{"session":"s2"}],
            "failed":[{"session":"s3","error":"坏了"}]}"#,
    );
    assert_eq!(
        report_action(&result, "x"),
        vec![
            "已应用缩放动作 scale-up（会话 s1（1.5x）, s2）",
            "  ⚠ 会话 s3 没生效：坏了",
        ]
    );
    assert_eq!(report_action(&read("{}"), "x"), vec!["已应用缩放动作 x（会话 ）"]);
}

#[test]
fn what_was_added_is_put_into_words() {
    let reply = read(
        r#"{"added":[{"id":"a","name":"A","exe_path":"/a.exe"}],
            "warnings":[{"id":"a","message":"注意"}]}"#,
    );
    let (added, warnings) = split_reply(&reply);
    let place = FsPath::from_text("/games");
    assert_eq!(
        report(&place, &added, &warnings),
        vec!["Added 1 game(s):", "  [a] A -> /a.exe", "  ⚠ [a] 注意"]
    );
    let nothing: (Vec<Added>, Vec<Warning>) = split_reply(&read("{}"));
    assert_eq!(
        report(&place, &nothing.0, &nothing.1),
        vec!["No new games added from /games"]
    );
}
