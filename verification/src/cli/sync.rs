//! `kotori sync`: everything goes through the daemon, which alone holds the secrets and writes
//! the configuration.

use crate::cli::command::{push_line, SyncCommand};
use crate::json;
use crate::json::{no_members, text, with, Json, JsonValue};
use crate::text::chars;
use crate::text::chars::same_text;
use crate::text::glue::{glue2, glue3, glue4, glue5};
use crate::text::number;
use crate::text::number::number_text;
use vstd::prelude::*;

verus! {

// ---------------------------------------------------------------------------------------------
// What the daemon is asked

pub enum SyncStep {
    Call { method: &'static str, params: Vec<(String, Json)> },
    /// Asks for the master password first.
    Unlock,
    /// Asks for a new master password, twice.
    MasterPassword,
    Lock,
}

/// What a step says.
pub enum SyncPlan {
    Call { method: Seq<char>, params: Seq<(Seq<char>, JsonValue)> },
    Unlock,
    MasterPassword,
    Lock,
}

impl View for SyncStep {
    type V = SyncPlan;

    open spec fn view(&self) -> SyncPlan {
        match self {
            SyncStep::Call { method, params } => SyncPlan::Call {
                method: method@,
                params: json::members_view(params@),
            },
            SyncStep::Unlock => SyncPlan::Unlock,
            SyncStep::MasterPassword => SyncPlan::MasterPassword,
            SyncStep::Lock => SyncPlan::Lock,
        }
    }
}

pub open spec fn planned(action: SyncCommand) -> SyncPlan {
    match action {
        SyncCommand::Status => SyncPlan::Call { method: "sync.status"@, params: Seq::empty() },
        SyncCommand::Test => SyncPlan::Call { method: "sync.test"@, params: Seq::empty() },
        SyncCommand::Cloud => SyncPlan::Call { method: "sync.cloud_games"@, params: Seq::empty() },
        SyncCommand::Now { game_id } => SyncPlan::Call {
            method: "sync.now"@,
            params: match game_id {
                Some(id) => seq![("id"@, JsonValue::Text(id@))],
                None => Seq::empty(),
            },
        },
        SyncCommand::Versions { game_id } => SyncPlan::Call {
            method: "sync.versions"@,
            params: seq![("id"@, JsonValue::Text(game_id@))],
        },
        SyncCommand::Restore { game_id, version } => SyncPlan::Call {
            method: "sync.restore"@,
            params: match version {
                Some(version) => seq![
                    ("id"@, JsonValue::Text(game_id@)),
                    ("version"@, JsonValue::Text(version@)),
                ],
                None => seq![("id"@, JsonValue::Text(game_id@))],
            },
        },
        SyncCommand::Unlock => SyncPlan::Unlock,
        SyncCommand::MasterPassword => SyncPlan::MasterPassword,
        SyncCommand::Lock => SyncPlan::Lock,
    }
}

/// What has to be done for a command.
pub fn sync_step(action: &SyncCommand) -> (step: SyncStep)
    ensures
        step@ == planned(*action),
{
    match action {
        SyncCommand::Status => SyncStep::Call { method: "sync.status", params: no_members() },
        SyncCommand::Test => SyncStep::Call { method: "sync.test", params: no_members() },
        SyncCommand::Cloud => SyncStep::Call { method: "sync.cloud_games", params: no_members() },
        SyncCommand::Now { game_id } => {
            let params = match game_id {
                Some(id) => {
                    let params = with(no_members(), "id", text(id.as_str()));
                    assert(json::members_view(params@) =~= seq![("id"@, JsonValue::Text(id@))]);
                    params
                },
                None => no_members(),
            };
            SyncStep::Call { method: "sync.now", params }
        },
        SyncCommand::Versions { game_id } => {
            let params = with(no_members(), "id", text(game_id.as_str()));
            assert(json::members_view(params@) =~= seq![("id"@, JsonValue::Text(game_id@))]);
            SyncStep::Call { method: "sync.versions", params }
        },
        SyncCommand::Restore { game_id, version } => {
            let params = with(no_members(), "id", text(game_id.as_str()));
            assert(json::members_view(params@) =~= seq![("id"@, JsonValue::Text(game_id@))]);
            let params = match version {
                Some(version) => {
                    let params = with(params, "version", text(version.as_str()));
                    assert(json::members_view(params@) =~= seq![
                        ("id"@, JsonValue::Text(game_id@)),
                        ("version"@, JsonValue::Text(version@)),
                    ]);
                    params
                },
                None => params,
            };
            SyncStep::Call { method: "sync.restore", params }
        },
        SyncCommand::Unlock => SyncStep::Unlock,
        SyncCommand::MasterPassword => SyncStep::MasterPassword,
        SyncCommand::Lock => SyncStep::Lock,
    }
}

pub fn unlock_params(password: &str) -> (params: Vec<(String, Json)>)
    ensures
        json::members_view(params@) == seq![("password"@, JsonValue::Text(password@))],
{
    let params = with(no_members(), "password", text(password));
    assert(json::members_view(params@) =~= seq![("password"@, JsonValue::Text(password@))]);
    params
}

/// A new master password is typed twice; that is the confirmation which the daemon asks for.
pub fn master_params(password: &str, again: &str) -> (out: Result<Vec<(String, Json)>, String>)
    ensures
        match out {
            Ok(params) => password@ == again@ && json::members_view(params@) == seq![
                ("password"@, JsonValue::Text(password@)),
                ("force"@, JsonValue::Bool(true)),
            ],
            Err(message) => password@ != again@ && message@ == "两次输入不一样"@,
        },
{
    if !same_text(password, again) {
        return Err("两次输入不一样".to_owned());
    }
    let params = with(no_members(), "password", text(password));
    let params = with(params, "force", Json::Bool(true));
    assert(json::members_view(params@) =~= seq![
        ("password"@, JsonValue::Text(password@)),
        ("force"@, JsonValue::Bool(true)),
    ]);
    Ok(params)
}

pub open spec fn number_of(value: JsonValue, key: Seq<char>) -> nat {
    match json::as_unsigned(json::at(value, key)) {
        Some(n) => n as nat,
        None => 0,
    }
}

/// What is printed once the credentials are in the encrypted file.
pub fn master_line(reply: &Json) -> (line: String)
    ensures
        line@ == "已加密保存 "@ + number::decimal(number_of(reply@, "count"@)) + " 条凭据到 "@
            + json::text_or(json::text_at(reply@, "path"@), "?"@),
{
    glue4(
        "已加密保存 ",
        number_text(reply.number_at("count")).as_str(),
        " 条凭据到 ",
        reply.text_at_or("path", "?"),
    )
}

// ---------------------------------------------------------------------------------------------
// The status in words

/// A secret is among those that are there.
pub open spec fn is_saved(value: JsonValue, account: Seq<char>) -> bool {
    match json::as_list(json::at(value, "secrets"@)) {
        Some(list) => exists|i: int|
            0 <= i < list.len() && json::as_text(#[trigger] list[i]) == Some(account),
        None => false,
    }
}

pub open spec fn mark(value: JsonValue, account: Seq<char>) -> Seq<char> {
    if is_saved(value, account) {
        "√"@
    } else {
        "×"@
    }
}

pub open spec fn setup_lines(value: JsonValue) -> Seq<Seq<char>> {
    seq![
        "云同步: "@ + if json::as_bool(json::at(value, "enabled"@)) == Some(true) {
            "已启用"@
        } else {
            "关闭"@
        },
        "远端: "@ + json::text_or(json::text_at(value, "remote"@), "-"@),
        "rclone: "@ + json::text_or(
            json::text_at(value, "rclone"@),
            "未安装（Arch: pacman -S rclone）"@,
        ),
        "密钥环: "@ + json::text_or(json::text_at(json::at(value, "keyring"@), "backend"@), "-"@),
        "凭据: keyID "@ + mark(value, "b2-key-id"@) + " applicationKey "@ + mark(
            value,
            "b2-app-key"@,
        ),
    ]
}

pub open spec fn with_problem(
    lines: Seq<Seq<char>>,
    label: Seq<char>,
    problem: Option<Seq<char>>,
) -> Seq<Seq<char>> {
    match problem {
        Some(problem) => lines.push(label + problem),
        None => lines,
    }
}

/// When a game was synced last, and with what result.
pub open spec fn last_words(last: JsonValue) -> Seq<char> {
    if last is Null {
        "还没同步过"@
    } else {
        json::text_or(json::text_at(last, "at"@), "-"@) + " "@ + json::text_or(
            json::text_at(last, "action"@),
            ""@,
        ) + " "@ + json::text_or(json::text_at(last, "detail"@), ""@)
    }
}

pub open spec fn game_line(game: JsonValue) -> Seq<char> {
    "  ["@ + json::text_or(json::text_at(game, "id"@), "?"@) + "] "@ + json::text_or(
        json::text_at(game, "name"@),
        "?"@,
    ) + " — "@ + number::decimal(number_of(game, "locations"@)) + " 个存档位置，"@ + last_words(
        json::at(game, "last"@),
    )
}

/// The lines about the first n games, behind those before.
pub open spec fn game_lines(lines: Seq<Seq<char>>, games: Seq<JsonValue>, n: int) -> Seq<Seq<char>>
    decreases n,
{
    if n <= 0 {
        lines
    } else {
        with_problem(
            game_lines(lines, games, n - 1).push(game_line(games[n - 1])),
            "      ⚠ "@,
            json::text_at(games[n - 1], "location_problem"@),
        )
    }
}

pub open spec fn status_lines(value: JsonValue) -> Seq<Seq<char>> {
    let start = with_problem(
        setup_lines(value),
        "待解决: "@,
        json::text_at(value, "problem"@),
    );
    match json::as_list(json::at(value, "games"@)) {
        Some(games) => game_lines(
            start.push("游戏（"@ + number::decimal(games.len()) + " 个）:"@),
            games,
            games.len() as int,
        ),
        None => start,
    }
}

fn saved(value: &Json, account: &str) -> (yes: bool)
    ensures
        yes == is_saved(value@, account@),
{
    let list = match value.list_at("secrets") {
        Some(list) => list,
        None => {
            return false;
        },
    };
    proof {
        json::items_view_items(list@);
    }
    let mut i: usize = 0;
    while i < list.len()
        invariant
            i <= list@.len(),
            json::as_list(json::at(value@, "secrets"@)) == Some(json::items_view(list@)),
            json::items_view(list@).len() == list@.len(),
            forall|k: int|
                0 <= k < list@.len() ==> #[trigger] json::items_view(list@)[k] == list@[k]@,
            forall|k: int|
                0 <= k < i ==> json::as_text(#[trigger] json::items_view(list@)[k]) != Some(
                    account@,
                ),
        decreases list@.len() - i,
    {
        assert(json::items_view(list@)[i as int] == list@[i as int]@);
        match list[i].as_text() {
            Some(name) => if same_text(name, account) {
                return true;
            },
            None => {},
        }
        i += 1;
    }
    false
}

fn mark_of(value: &Json, account: &str) -> (out: &'static str)
    ensures
        out@ == mark(value@, account@),
{
    if saved(value, account) {
        "√"
    } else {
        "×"
    }
}

fn setup_part(value: &Json) -> (lines: Vec<String>)
    ensures
        chars::texts(lines@) == setup_lines(value@),
{
    let enabled = match value.get("enabled") {
        Some(found) => match found.as_bool() {
            Some(on) => on,
            None => false,
        },
        None => false,
    };
    let backend = match value.get("keyring") {
        Some(keyring) => keyring.text_at_or("backend", "-"),
        None => "-",
    };
    let mut lines: Vec<String> = Vec::new();
    assert(chars::texts(lines@) =~= Seq::<Seq<char>>::empty());
    push_line(
        &mut lines,
        glue2(
            "云同步: ",
            if enabled {
                "已启用"
            } else {
                "关闭"
            },
        ),
    );
    push_line(&mut lines, glue2("远端: ", value.text_at_or("remote", "-")));
    push_line(
        &mut lines,
        glue2("rclone: ", value.text_at_or("rclone", "未安装（Arch: pacman -S rclone）")),
    );
    push_line(&mut lines, glue2("密钥环: ", backend));
    push_line(
        &mut lines,
        glue4(
            "凭据: keyID ",
            mark_of(value, "b2-key-id"),
            " applicationKey ",
            mark_of(value, "b2-app-key"),
        ),
    );
    assert(chars::texts(lines@) =~= setup_lines(value@));
    lines
}

fn push_problem(lines: &mut Vec<String>, label: &str, problem: Option<&str>)
    ensures
        chars::texts(final(lines)@) == with_problem(
            chars::texts(old(lines)@),
            label@,
            match problem {
                Some(problem) => Some(problem@),
                None => None,
            },
        ),
{
    match problem {
        Some(problem) => push_line(lines, glue2(label, problem)),
        None => {},
    }
}

fn last_text(game: &Json) -> (out: String)
    ensures
        out@ == last_words(json::at(game@, "last"@)),
{
    match game.get("last") {
        Some(last) => if last.is_null() {
            "还没同步过".to_owned()
        } else {
            glue5(
                last.text_at_or("at", "-"),
                " ",
                last.text_at_or("action", ""),
                " ",
                last.text_at_or("detail", ""),
            )
        },
        None => "还没同步过".to_owned(),
    }
}

fn game_text(game: &Json) -> (out: String)
    ensures
        out@ == game_line(game@),
{
    let start = glue5(
        "  [",
        game.text_at_or("id", "?"),
        "] ",
        game.text_at_or("name", "?"),
        " — ",
    );
    glue4(
        start.as_str(),
        number_text(game.number_at("locations")).as_str(),
        " 个存档位置，",
        last_text(game).as_str(),
    )
}

fn status_part(value: &Json) -> (lines: Vec<String>)
    ensures
        chars::texts(lines@) == status_lines(value@),
{
    let mut lines = setup_part(value);
    push_problem(&mut lines, "待解决: ", value.text_at("problem"));
    let games = match value.list_at("games") {
        Some(games) => games,
        None => {
            return lines;
        },
    };
    proof {
        json::items_view_items(games@);
    }
    push_line(
        &mut lines,
        glue3("游戏（", number_text(games.len() as u64).as_str(), " 个）:"),
    );
    let ghost start = chars::texts(lines@);
    let mut i: usize = 0;
    while i < games.len()
        invariant
            i <= games@.len(),
            json::items_view(games@).len() == games@.len(),
            forall|k: int|
                0 <= k < games@.len() ==> #[trigger] json::items_view(games@)[k] == games@[k]@,
            chars::texts(lines@) == game_lines(start, json::items_view(games@), i as int),
        decreases games@.len() - i,
    {
        assert(json::items_view(games@)[i as int] == games@[i as int]@);
        push_line(&mut lines, game_text(&games[i]));
        push_problem(&mut lines, "      ⚠ ", games[i].text_at("location_problem"));
        i += 1;
    }
    lines
}

// ---------------------------------------------------------------------------------------------
// Versions and results in words

pub open spec fn version_lines(value: JsonValue) -> Seq<Seq<char>> {
    match json::as_list(json::at(value, "versions"@)) {
        Some(versions) if versions.len() > 0 => seq!["版本（最旧在前）:"@] + versions.map_values(
            |version: JsonValue| "  "@ + json::text_or(json::as_text(version), "-"@),
        ),
        _ => seq!["云端还没有这个游戏的存档版本"@],
    }
}

fn versions_part(value: &Json) -> (lines: Vec<String>)
    ensures
        chars::texts(lines@) == version_lines(value@),
{
    let mut lines: Vec<String> = Vec::new();
    assert(chars::texts(lines@) =~= Seq::<Seq<char>>::empty());
    match value.list_at("versions") {
        Some(versions) => {
            proof {
                json::items_view_items(versions@);
            }
            if versions.len() > 0 {
                lines.push("版本（最旧在前）:".to_owned());
                let ghost all = json::items_view(versions@);
                let mut i: usize = 0;
                while i < versions.len()
                    invariant
                        i <= versions@.len() == all.len(),
                        forall|k: int|
                            0 <= k < versions@.len() ==> #[trigger] all[k] == versions@[k]@,
                        lines@.len() == i + 1,
                        lines@[0]@ == "版本（最旧在前）:"@,
                        forall|k: int|
                            0 <= k < i ==> (#[trigger] lines@[k + 1])@ == "  "@ + json::text_or(
                                json::as_text(all[k]),
                                "-"@,
                            ),
                    decreases versions@.len() - i,
                {
                    assert(all[i as int] == versions@[i as int]@);
                    let version = match versions[i].as_text() {
                        Some(version) => version,
                        None => "-",
                    };
                    let ghost before = lines@;
                    lines.push(glue2("  ", version));
                    assert forall|k: int| 0 <= k < i + 1 implies (#[trigger] lines@[k + 1])@ == "  "@
                        + json::text_or(json::as_text(all[k]), "-"@) by {
                        if k < i {
                            assert(lines@[k + 1] == before[k + 1]);
                        }
                    }
                    i += 1;
                }
                proof {
                    let wanted = version_lines(value@);
                    assert forall|k: int| 0 <= k < wanted.len() implies #[trigger] chars::texts(
                        lines@,
                    )[k] == wanted[k] by {
                        if k > 0 {
                            assert(lines@[(k - 1) + 1]@ == "  "@ + json::text_or(
                                json::as_text(all[k - 1]),
                                "-"@,
                            ));
                        }
                    }
                    assert(chars::texts(lines@) =~= wanted);
                }
                return lines;
            }
        },
        None => {},
    }
    push_line(&mut lines, "云端还没有这个游戏的存档版本".to_owned());
    assert(chars::texts(lines@) =~= version_lines(value@));
    lines
}

/// The games that something was done to: a list of them, or a single one.
pub open spec fn games_done(value: JsonValue) -> Seq<JsonValue> {
    match json::as_list(json::at(value, "games"@)) {
        Some(games) => games,
        None => if json::at(value, "game"@) is Null {
            Seq::empty()
        } else {
            seq![json::at(value, "game"@)]
        },
    }
}

pub open spec fn result_line(game: JsonValue) -> Seq<char> {
    let name = json::text_or(json::text_at(game, "name"@), "?"@);
    let id = json::text_or(json::text_at(game, "game_id"@), "?"@);
    match json::text_at(game, "error"@) {
        Some(error) => "× ["@ + id + "] "@ + name + ": "@ + error,
        None => "√ ["@ + id + "] "@ + name,
    }
}

pub open spec fn location_line(location: JsonValue) -> Seq<char> {
    "    "@ + json::text_or(json::text_at(location, "action"@), "-"@) + " "@ + json::text_or(
        json::text_at(location, "configured"@),
        "-"@,
    ) + " — "@ + json::text_or(json::text_at(location, "detail"@), ""@)
}

pub open spec fn location_lines(game: JsonValue) -> Seq<Seq<char>> {
    match json::as_list(json::at(game, "locations"@)) {
        Some(list) => list.map_values(|location: JsonValue| location_line(location)),
        None => Seq::empty(),
    }
}

/// The lines about the first n games that something was done to.
pub open spec fn result_lines(games: Seq<JsonValue>, n: int) -> Seq<Seq<char>>
    decreases n,
{
    if n <= 0 {
        Seq::empty()
    } else {
        result_lines(games, n - 1).push(result_line(games[n - 1])) + location_lines(games[n - 1])
    }
}

/// It failed for a game.
pub open spec fn any_failed(games: Seq<JsonValue>, n: int) -> bool {
    exists|i: int| 0 <= i < n && json::text_at(#[trigger] games[i], "error"@) is Some
}

/// What is printed, and whether the command failed.
pub struct Report {
    pub lines: Vec<String>,
    pub failed: bool,
}

fn push_result(lines: &mut Vec<String>, game: &Json) -> (failed: bool)
    ensures
        chars::texts(final(lines)@) == chars::texts(old(lines)@).push(result_line(game@))
            + location_lines(game@),
        failed == (json::text_at(game@, "error"@) is Some),
{
    let name = game.text_at_or("name", "?");
    let id = game.text_at_or("game_id", "?");
    let failed = match game.text_at("error") {
        Some(error) => {
            let start = glue5("× [", id, "] ", name, ": ");
            push_line(lines, glue2(start.as_str(), error));
            true
        },
        None => {
            push_line(lines, glue4("√ [", id, "] ", name));
            false
        },
    };
    let ghost start = chars::texts(lines@);
    match game.list_at("locations") {
        Some(list) => {
            proof {
                json::items_view_items(list@);
            }
            let ghost all = json::items_view(list@);
            let ghost words = all.map_values(|location: JsonValue| location_line(location));
            let mut i: usize = 0;
            assert(start + words.take(0) =~= start);
            while i < list.len()
                invariant
                    i <= list@.len() == all.len(),
                    words == all.map_values(|location: JsonValue| location_line(location)),
                    forall|k: int| 0 <= k < list@.len() ==> #[trigger] all[k] == list@[k]@,
                    chars::texts(lines@) == start + words.take(i as int),
                decreases list@.len() - i,
            {
                assert(all[i as int] == list@[i as int]@);
                let location = &list[i];
                let head = glue5(
                    "    ",
                    location.text_at_or("action", "-"),
                    " ",
                    location.text_at_or("configured", "-"),
                    " — ",
                );
                let line = glue2(head.as_str(), location.text_at_or("detail", ""));
                assert(line@ == location_line(location@));
                push_line(lines, line);
                assert(start + words.take(i + 1) =~= (start + words.take(i as int)).push(
                    words[i as int],
                ));
                i += 1;
            }
            assert(words.take(i as int) =~= words);
        },
        None => {
            assert(start + location_lines(game@) =~= start);
        },
    }
    failed
}

fn results_part(games: &Vec<Json>) -> (report: Report)
    ensures
        chars::texts(report.lines@) == result_lines(
            json::items_view(games@),
            json::items_view(games@).len() as int,
        ),
        report.failed == any_failed(
            json::items_view(games@),
            json::items_view(games@).len() as int,
        ),
{
    proof {
        json::items_view_items(games@);
    }
    let ghost all = json::items_view(games@);
    let mut lines: Vec<String> = Vec::new();
    let mut failed = false;
    let mut i: usize = 0;
    assert(chars::texts(lines@) =~= result_lines(all, 0));
    while i < games.len()
        invariant
            i <= games@.len() == all.len(),
            forall|k: int| 0 <= k < games@.len() ==> #[trigger] all[k] == games@[k]@,
            chars::texts(lines@) == result_lines(all, i as int),
            failed == any_failed(all, i as int),
        decreases games@.len() - i,
    {
        assert(all[i as int] == games@[i as int]@);
        let own = push_result(&mut lines, &games[i]);
        if own {
            assert(any_failed(all, i + 1)) by {
                assert(json::text_at(all[i as int], "error"@) is Some);
            }
            failed = true;
        } else {
            assert(any_failed(all, i + 1) == any_failed(all, i as int));
        }
        i += 1;
    }
    Report { lines, failed }
}

fn done_part(value: &Json) -> (report: Report)
    ensures
        chars::texts(report.lines@) == result_lines(
            games_done(value@),
            games_done(value@).len() as int,
        ),
        report.failed == any_failed(games_done(value@), games_done(value@).len() as int),
{
    match value.list_at("games") {
        Some(games) => results_part(games),
        None => {
            let mut games: Vec<Json> = Vec::new();
            match value.get("game") {
                Some(game) => if !game.is_null() {
                    games.push(game.copy());
                },
                None => {},
            }
            proof {
                json::items_view_items(games@);
                assert(json::items_view(games@) =~= games_done(value@));
            }
            results_part(&games)
        },
    }
}

// ---------------------------------------------------------------------------------------------
// The answer in words

/// What is printed for an answer, and whether the command failed; nothing where the answer is
/// shown as it is.
pub open spec fn answer_words(method: Seq<char>, value: JsonValue) -> Option<
    (Seq<Seq<char>>, bool),
> {
    let games = games_done(value);
    if method == "sync.status"@ {
        Some((status_lines(value), false))
    } else if method == "sync.test"@ {
        Some(
            (
                seq!["连接正常: "@ + json::text_or(
                    json::text_at(value, "remote"@),
                    "(未知远端)"@,
                )],
                false,
            ),
        )
    } else if method == "sync.versions"@ {
        Some((version_lines(value), false))
    } else if method == "sync.now"@ || method == "sync.restore"@ {
        Some((result_lines(games, games.len() as int), any_failed(games, games.len() as int)))
    } else {
        None
    }
}

/// An answer of the daemon, for a person to read.
pub fn describe_answer(method: &str, value: &Json) -> (report: Option<Report>)
    ensures
        match report {
            Some(report) => answer_words(method@, value@) == Some(
                (chars::texts(report.lines@), report.failed),
            ),
            None => answer_words(method@, value@) is None,
        },
{
    if same_text(method, "sync.status") {
        Some(Report { lines: status_part(value), failed: false })
    } else if same_text(method, "sync.test") {
        let mut lines: Vec<String> = Vec::new();
        lines.push(glue2("连接正常: ", value.text_at_or("remote", "(未知远端)")));
        assert(chars::texts(lines@) =~= seq!["连接正常: "@ + json::text_or(
            json::text_at(value@, "remote"@),
            "(未知远端)"@,
        )]);
        Some(Report { lines, failed: false })
    } else if same_text(method, "sync.versions") {
        Some(Report { lines: versions_part(value), failed: false })
    } else if same_text(method, "sync.now") || same_text(method, "sync.restore") {
        Some(done_part(value))
    } else {
        None
    }
}

// ---------------------------------------------------------------------------------------------
// What holds of the command

/// Each command has its request, with the game and the version that it names.
pub proof fn each_command_has_its_request(id: String, version: String)
    ensures
        planned(SyncCommand::Status) == (SyncPlan::Call {
            method: "sync.status"@,
            params: Seq::empty(),
        }),
        planned(SyncCommand::Test) == (SyncPlan::Call {
            method: "sync.test"@,
            params: Seq::empty(),
        }),
        planned(SyncCommand::Cloud) == (SyncPlan::Call {
            method: "sync.cloud_games"@,
            params: Seq::empty(),
        }),
        planned(SyncCommand::Now { game_id: None }) == (SyncPlan::Call {
            method: "sync.now"@,
            params: Seq::empty(),
        }),
        planned(SyncCommand::Now { game_id: Some(id) }) == (SyncPlan::Call {
            method: "sync.now"@,
            params: seq![("id"@, JsonValue::Text(id@))],
        }),
        planned(SyncCommand::Versions { game_id: id }) == (SyncPlan::Call {
            method: "sync.versions"@,
            params: seq![("id"@, JsonValue::Text(id@))],
        }),
        planned(SyncCommand::Restore { game_id: id, version: None }) == (SyncPlan::Call {
            method: "sync.restore"@,
            params: seq![("id"@, JsonValue::Text(id@))],
        }),
        planned(SyncCommand::Restore { game_id: id, version: Some(version) }) == (SyncPlan::Call {
            method: "sync.restore"@,
            params: seq![
                ("id"@, JsonValue::Text(id@)),
                ("version"@, JsonValue::Text(version@)),
            ],
        }),
        planned(SyncCommand::Unlock) == SyncPlan::Unlock,
        planned(SyncCommand::MasterPassword) == SyncPlan::MasterPassword,
        planned(SyncCommand::Lock) == SyncPlan::Lock,
{
}

/// What the status says first: whether saves are synced, where to, with what, and which secrets
/// are there.
pub proof fn what_the_status_says_first(
    value: JsonValue,
    on: bool,
    remote: Seq<char>,
    rclone: Seq<char>,
    keyring: JsonValue,
    backend: Seq<char>,
    secrets: Seq<JsonValue>,
)
    requires
        json::field(value, "enabled"@) == Some(JsonValue::Bool(on)),
        json::field(value, "remote"@) == Some(JsonValue::Text(remote)),
        json::field(value, "rclone"@) == Some(JsonValue::Text(rclone)),
        json::field(value, "keyring"@) == Some(keyring),
        json::field(keyring, "backend"@) == Some(JsonValue::Text(backend)),
        json::field(value, "secrets"@) == Some(JsonValue::List(secrets)),
    ensures
        setup_lines(value).len() == 5,
        on ==> setup_lines(value)[0] == "云同步: "@ + "已启用"@,
        !on ==> setup_lines(value)[0] == "云同步: "@ + "关闭"@,
        setup_lines(value)[1] == "远端: "@ + remote,
        setup_lines(value)[2] == "rclone: "@ + rclone,
        setup_lines(value)[3] == "密钥环: "@ + backend,
        setup_lines(value)[4] == "凭据: keyID "@ + (if secrets.contains(
            JsonValue::Text("b2-key-id"@),
        ) {
            "√"@
        } else {
            "×"@
        }) + " applicationKey "@ + (if secrets.contains(JsonValue::Text("b2-app-key"@)) {
            "√"@
        } else {
            "×"@
        }),
{
    lemma_saved(value, secrets, "b2-key-id"@);
    lemma_saved(value, secrets, "b2-app-key"@);
}

proof fn lemma_saved(value: JsonValue, secrets: Seq<JsonValue>, account: Seq<char>)
    requires
        json::field(value, "secrets"@) == Some(JsonValue::List(secrets)),
    ensures
        is_saved(value, account) <==> secrets.contains(JsonValue::Text(account)),
{
    if is_saved(value, account) {
        let i = choose|i: int|
            0 <= i < secrets.len() && json::as_text(#[trigger] secrets[i]) == Some(account);
        assert(secrets[i] == JsonValue::Text(account));
    }
    if secrets.contains(JsonValue::Text(account)) {
        let i = secrets.index_of(JsonValue::Text(account));
        assert(json::as_text(secrets[i]) == Some(account));
    }
}

/// What stands in the way is told in a line of its own, and only where there is something.
pub proof fn a_problem_has_its_own_line(
    value: JsonValue,
    problem: Seq<char>,
)
    requires
        json::field(value, "games"@) is None,
    ensures
        json::field(value, "problem"@) == Some(JsonValue::Text(problem)) ==> status_lines(value)
            == setup_lines(value).push("待解决: "@ + problem),
        json::field(value, "problem"@) is None ==> status_lines(value) == setup_lines(value),
{
}

/// The games come behind a line that counts them, one by one; what is wrong with the locations of a
/// game follows its line.
pub proof fn games_are_listed_one_by_one(
    before: Seq<Seq<char>>,
    games: Seq<JsonValue>,
    n: int,
    problem: Seq<char>,
    value: JsonValue,
)
    requires
        0 <= n < games.len(),
    ensures
        game_lines(before, games, 0) == before,
        json::field(games[n], "location_problem"@) is None ==> game_lines(before, games, n + 1)
            == game_lines(before, games, n).push(game_line(games[n])),
        json::field(games[n], "location_problem"@) == Some(JsonValue::Text(problem)) ==> game_lines(
            before,
            games,
            n + 1,
        ) == game_lines(before, games, n).push(game_line(games[n])).push("      ⚠ "@ + problem),
        json::field(value, "games"@) == Some(JsonValue::List(games)) && json::field(
            value,
            "problem"@,
        ) is None ==> status_lines(value) == game_lines(
            setup_lines(value).push("游戏（"@ + number::decimal(games.len()) + " 个）:"@),
            games,
            games.len() as int,
        ),
{
}

/// What is said of a game: its id, its name, how many locations it has, and when it was synced last.
pub proof fn what_is_said_of_a_game(
    game: JsonValue,
    id: Seq<char>,
    name: Seq<char>,
    count: u64,
    last: JsonValue,
    at: Seq<char>,
    action: Seq<char>,
    detail: Seq<char>,
)
    requires
        json::field(game, "id"@) == Some(JsonValue::Text(id)),
        json::field(game, "name"@) == Some(JsonValue::Text(name)),
        json::field(game, "locations"@) == Some(JsonValue::Number(count as int)),
    ensures
        json::field(game, "last"@) is None ==> game_line(game) == "  ["@ + id + "] "@ + name + " — "@
            + number::decimal(count as nat) + " 个存档位置，"@ + "还没同步过"@,
        json::field(game, "last"@) == Some(last) && json::field(last, "at"@) == Some(
            JsonValue::Text(at),
        ) && json::field(last, "action"@) == Some(JsonValue::Text(action)) && json::field(
            last,
            "detail"@,
        ) == Some(JsonValue::Text(detail)) ==> game_line(game) == "  ["@ + id + "] "@ + name
            + " — "@ + number::decimal(count as nat) + " 个存档位置，"@ + (at + " "@ + action + " "@
            + detail),
{
}

/// The versions of a game are listed behind a line of their own, as they are named.
pub proof fn every_version_is_listed(value: JsonValue, versions: Seq<JsonValue>, i: int, name: Seq<char>)
    ensures
        json::field(value, "versions"@) is None ==> version_lines(value) == seq![
            "云端还没有这个游戏的存档版本"@,
        ],
        json::field(value, "versions"@) == Some(JsonValue::List(Seq::empty())) ==> version_lines(
            value,
        ) == seq!["云端还没有这个游戏的存档版本"@],
        json::field(value, "versions"@) == Some(JsonValue::List(versions)) && versions.len() > 0
            ==> version_lines(value).len() == 1 + versions.len() && version_lines(value)[0]
            == "版本（最旧在前）:"@,
        json::field(value, "versions"@) == Some(JsonValue::List(versions)) && 0 <= i
            < versions.len() && versions[i] == JsonValue::Text(name) ==> version_lines(value)[1 + i]
            == "  "@ + name,
{
}

/// Which games something was done to: those of a list, else the one that is named.
pub proof fn which_games_it_was_done_to(value: JsonValue, games: Seq<JsonValue>, game: JsonValue)
    ensures
        json::field(value, "games"@) == Some(JsonValue::List(games)) ==> games_done(value) == games,
        json::field(value, "games"@) is None && json::field(value, "game"@) == Some(game)
            && !(game is Null) ==> games_done(value) == seq![game],
        json::field(value, "games"@) is None && json::field(value, "game"@) is None ==> games_done(
            value,
        ).len() == 0,
{
}

/// What came of it for a game: a mark, its id and its name, and the error where there is one; then
/// what was done with each of its locations.
pub proof fn what_came_of_it(
    game: JsonValue,
    id: Seq<char>,
    name: Seq<char>,
    error: Seq<char>,
    locations: Seq<JsonValue>,
    i: int,
    action: Seq<char>,
    configured: Seq<char>,
    detail: Seq<char>,
)
    requires
        json::field(game, "game_id"@) == Some(JsonValue::Text(id)),
        json::field(game, "name"@) == Some(JsonValue::Text(name)),
    ensures
        json::field(game, "error"@) is None ==> result_line(game) == "√ ["@ + id + "] "@ + name,
        json::field(game, "error"@) == Some(JsonValue::Text(error)) ==> result_line(game) == "× ["@
            + id + "] "@ + name + ": "@ + error,
        json::field(game, "locations"@) is None ==> location_lines(game).len() == 0,
        json::field(game, "locations"@) == Some(JsonValue::List(locations)) ==> location_lines(
            game,
        ).len() == locations.len(),
        json::field(game, "locations"@) == Some(JsonValue::List(locations)) && 0 <= i
            < locations.len() && json::field(locations[i], "action"@) == Some(
            JsonValue::Text(action),
        ) && json::field(locations[i], "configured"@) == Some(JsonValue::Text(configured))
            && json::field(locations[i], "detail"@) == Some(JsonValue::Text(detail))
            ==> location_lines(game)[i] == "    "@ + action + " "@ + configured + " — "@ + detail,
{
}

/// The results come game by game, and the command failed exactly where it failed for a game.
pub proof fn results_come_game_by_game(games: Seq<JsonValue>, n: int)
    requires
        0 <= n < games.len(),
    ensures
        result_lines(games, 0).len() == 0,
        result_lines(games, n + 1) == result_lines(games, n).push(result_line(games[n]))
            + location_lines(games[n]),
        !any_failed(games, 0),
        any_failed(games, n + 1) <==> any_failed(games, n) || json::text_at(
            games[n],
            "error"@,
        ) is Some,
{
    if any_failed(games, n + 1) && !any_failed(games, n) {
        let i = choose|i: int|
            0 <= i < n + 1 && json::text_at(#[trigger] games[i], "error"@) is Some;
        assert(i == n);
    }
    if any_failed(games, n) {
        let i = choose|i: int| 0 <= i < n && json::text_at(#[trigger] games[i], "error"@) is Some;
        assert(json::text_at(games[i], "error"@) is Some);
    }
    assert(json::text_at(games[n], "error"@) is Some ==> any_failed(games, n + 1));
}

/// Which answers are put in words: the status, the test of the connection, the versions, and what
/// came of an upload or of putting saves back. Only the last two can fail.
pub proof fn which_answers_are_put_in_words(method: Seq<char>, value: JsonValue, remote: Seq<char>)
    ensures
        answer_words("sync.status"@, value) == Some((status_lines(value), false)),
        json::field(value, "remote"@) == Some(JsonValue::Text(remote)) ==> answer_words(
            "sync.test"@,
            value,
        ) == Some((seq!["连接正常: "@ + remote], false)),
        answer_words("sync.versions"@, value) == Some((version_lines(value), false)),
        answer_words("sync.now"@, value) == Some(
            (
                result_lines(games_done(value), games_done(value).len() as int),
                any_failed(games_done(value), games_done(value).len() as int),
            ),
        ),
        answer_words("sync.restore"@, value) == answer_words("sync.now"@, value),
        method != "sync.status"@ && method != "sync.test"@ && method != "sync.versions"@ && method
            != "sync.now"@ && method != "sync.restore"@ ==> answer_words(method, value) is None,
{
    reveal_strlit("sync.status");
    reveal_strlit("sync.test");
    reveal_strlit("sync.versions");
    reveal_strlit("sync.now");
    reveal_strlit("sync.restore");
    assert("sync.status"@.len() == 11 && "sync.test"@.len() == 9 && "sync.versions"@.len() == 13);
    assert("sync.now"@.len() == 8 && "sync.restore"@.len() == 12);
}

} // verus!
