//! Moving saves: what may be moved, what is said of it, and what is remembered.

use crate::clock;
use crate::clock::moment;
use crate::config::model;
use crate::config::model::{Config, Game};
use crate::daemon::game_write;
use crate::daemon::sync::identity;
use crate::daemon::sync::identity::cloud_key_of;
use crate::json;
use crate::json::{no_members, text, with, Json, JsonValue};
use crate::text::chars;
use crate::text::chars::{chars_of, is_decimal_digit, same_text};
use crate::text::glue::{glue2, glue3, glue5};
use crate::text::keyed::Keyed;
use crate::text::number;
use crate::text::number::number_text;
use vstd::prelude::*;

verus! {

// ---------------------------------------------------------------------------------------------
// What there is to move

/// A game that can be synced: its name, or why it cannot be.
pub open spec fn syncable(games: Seq<(Seq<char>, Game)>, id: Seq<char>) -> Result<
    Seq<char>,
    Seq<char>,
> {
    if !model::has_game(games, id) {
        Err(game_write::unknown_game(id))
    } else {
        let game = model::game_at(games, id);
        if game.save_paths.len() == 0 {
            Err("「"@ + game.name + "」还没有配置存档位置"@)
        } else {
            Ok(game.name)
        }
    }
}

pub fn sync_targets(config: &Config, id: &str) -> (out: Result<String, String>)
    ensures
        match out {
            Ok(name) => syncable(config@.games, id@) == Ok::<Seq<char>, Seq<char>>(name@),
            Err(message) => syncable(config@.games, id@) == Err::<Seq<char>, Seq<char>>(message@),
        },
{
    match config.game(id) {
        None => Err(glue2("配置中找不到游戏: ", id)),
        Some(game) => {
            assert(game@.save_paths.len() == game.save_paths@.len());
            if game.save_paths.len() == 0 {
                Err(glue3("「", game.name.as_str(), "」还没有配置存档位置"))
            } else {
                Ok(game.name.clone())
            }
        },
    }
}

/// The games that have save locations, in the order of the library.
pub open spec fn with_saves(games: Seq<(Seq<char>, Game)>, n: int) -> Seq<Seq<char>>
    decreases n,
{
    if n <= 0 {
        Seq::empty()
    } else {
        let before = with_saves(games, n - 1);
        if games[n - 1].1.save_paths.len() > 0 {
            before.push(games[n - 1].0)
        } else {
            before
        }
    }
}

/// The games that an upload is about: the one that is named, or all that have save locations.
pub fn games_to_sync(config: &Config, only: &Option<String>) -> (out: Result<Vec<String>, String>)
    ensures
        match out {
            Ok(ids) => chars::texts(ids@) == (match chars::text_view(*only) {
                Some(id) => seq![id],
                None => with_saves(config@.games, config@.games.len() as int),
            }) && ids@.len() > 0,
            Err(message) => *only is None && with_saves(
                config@.games,
                config@.games.len() as int,
            ).len() == 0 && message@ == "还没有任何游戏配置了存档位置"@,
        },
{
    let mut ids: Vec<String> = Vec::new();
    match only {
        Some(id) => {
            ids.push(id.clone());
            assert(chars::texts(ids@) =~= seq![id@]);
            return Ok(ids);
        },
        None => {},
    }
    let ghost games = config@.games;
    let mut i: usize = 0;
    assert(chars::texts(ids@) =~= with_saves(games, 0));
    while i < config.games.len()
        invariant
            i <= config.games@.len(),
            games == config@.games,
            chars::texts(ids@) == with_saves(games, i as int),
        decreases config.games@.len() - i,
    {
        assert(games[i as int] == (config.games@[i as int].0@, config.games@[i as int].1@));
        assert(games[i as int].1.save_paths.len() == config.games@[i as int].1.save_paths@.len());
        if config.games[i].1.save_paths.len() > 0 {
            let ghost before = ids@;
            ids.push(config.games[i].0.clone());
            assert(chars::texts(ids@) =~= chars::texts(before).push(games[i as int].0));
        }
        i += 1;
    }
    assert(chars::texts(ids@).len() == ids@.len());
    if ids.len() == 0 {
        Err("还没有任何游戏配置了存档位置".to_owned())
    } else {
        Ok(ids)
    }
}

/// What came of a game: whether it went well, and the report on it.
pub struct Outcome {
    pub ok: bool,
    pub report: Json,
}

pub open spec fn all_well(outcomes: Seq<Outcome>) -> bool {
    forall|i: int| 0 <= i < outcomes.len() ==> (#[trigger] outcomes[i]).ok
}

/// The reply to an upload: it went well where it went well for every game.
pub fn now_reply(outcomes: &Vec<Outcome>) -> (out: Json)
    ensures
        out@ == JsonValue::Object(
            seq![
                ("ok"@, JsonValue::Bool(all_well(outcomes@))),
                (
                    "games"@,
                    JsonValue::List(outcomes@.map_values(|one: Outcome| one.report@)),
                ),
            ],
        ),
{
    let mut ok = true;
    let mut items: Vec<Json> = Vec::new();
    let mut i: usize = 0;
    while i < outcomes.len()
        invariant
            i <= outcomes@.len(),
            ok == forall|k: int| 0 <= k < i ==> (#[trigger] outcomes@[k]).ok,
            items@.len() == i,
            forall|k: int| 0 <= k < i ==> (#[trigger] items@[k])@ == outcomes@[k].report@,
        decreases outcomes@.len() - i,
    {
        if !outcomes[i].ok {
            ok = false;
        }
        items.push(outcomes[i].report.copy());
        i += 1;
    }
    proof {
        json::items_view_items(items@);
        assert(json::items_view(items@) =~= outcomes@.map_values(|one: Outcome| one.report@));
    }
    let out = with(no_members(), "ok", Json::Bool(ok));
    let out = with(out, "games", Json::List(items));
    assert(json::members_view(out@) =~= seq![
        ("ok"@, JsonValue::Bool(all_well(outcomes@))),
        ("games"@, JsonValue::List(outcomes@.map_values(|one: Outcome| one.report@))),
    ]);
    Json::Object(out)
}

/// The reply to a restore.
pub fn restore_reply(outcome: Outcome) -> (out: Json)
    ensures
        out@ == JsonValue::Object(
            seq![("ok"@, JsonValue::Bool(outcome.ok)), ("game"@, outcome.report@)],
        ),
{
    let out = with(no_members(), "ok", Json::Bool(outcome.ok));
    let out = with(out, "game", outcome.report);
    assert(json::members_view(out@) =~= seq![
        ("ok"@, JsonValue::Bool(outcome.ok)),
        ("game"@, outcome.report@),
    ]);
    Json::Object(out)
}

// ---------------------------------------------------------------------------------------------
// Versions

/// The name of a version is the moment it was made, such as `20260911T101500Z`.
pub open spec fn names_version(s: Seq<char>) -> bool {
    &&& s.len() == 16
    &&& s[8] == 'T'
    &&& s[15] == 'Z'
    &&& forall|i: int| 0 <= i < 15 && i != 8 ==> chars::is_digit(#[trigger] s[i])
}

pub fn is_snapshot(version: &str) -> (yes: bool)
    ensures
        yes == names_version(version@),
{
    let list = chars_of(version);
    if list.len() != 16 || list[8] != 'T' || list[15] != 'Z' {
        return false;
    }
    let mut i: usize = 0;
    while i < 15
        invariant
            i <= 15,
            list@.len() == 16,
            list@ == version@,
            forall|k: int| 0 <= k < i && k != 8 ==> chars::is_digit(#[trigger] version@[k]),
        decreases 15 - i,
    {
        if i != 8 && !is_decimal_digit(list[i]) {
            assert(!chars::is_digit(version@[i as int]));
            return false;
        }
        i += 1;
    }
    true
}

pub open spec fn bad_version(version: Seq<char>) -> Seq<char> {
    "不是合法的版本名: "@ + version + "（形如 20260911T101500Z）"@
}

/// A name that cannot be one of a version is refused before anything is done.
pub fn check_version(version: &str) -> (out: Result<(), String>)
    ensures
        match out {
            Ok(_) => names_version(version@),
            Err(message) => !names_version(version@) && message@ == bad_version(version@),
        },
{
    if is_snapshot(version) {
        Ok(())
    } else {
        Err(glue3("不是合法的版本名: ", version, "（形如 20260911T101500Z）"))
    }
}

/// Where the versions of a game are looked for: where they lie in the cloud, and for a game
/// that is not in the library under the text itself. Nothing is asked while the sync is off.
pub fn versions_key(config: &Config, id: &str) -> (out: Result<String, String>)
    ensures
        match out {
            Ok(key) => config@.sync.enabled && key@ == if model::has_game(config@.games, id@) {
                identity::cloud_key(id@, model::game_at(config@.games, id@))
            } else {
                id@
            },
            Err(message) => !config@.sync.enabled && message@ == "云同步未启用"@,
        },
{
    if !config.sync.enabled {
        return Err("云同步未启用".to_owned());
    }
    match cloud_key_of(config, id) {
        Ok(key) => Ok(key),
        Err(_) => Ok(id.to_owned()),
    }
}

// ---------------------------------------------------------------------------------------------
// Around a game

/// Saves are fetched before a game starts: the sync is on, for this game too, and it has save
/// locations.
pub open spec fn fetches_before(enabled: bool, games: Seq<(Seq<char>, Game)>, id: Seq<char>) -> bool {
    enabled && model::has_game(games, id) && model::game_at(games, id).save_paths.len() > 0
        && model::game_at(games, id).sync_enabled
}

pub fn pull_wanted(config: &Config, id: &str) -> (yes: bool)
    ensures
        yes == fetches_before(config@.sync.enabled, config@.games, id@),
        yes <==> config@.sync.enabled && model::has_game(config@.games, id@) && model::game_at(
            config@.games,
            id@,
        ).save_paths.len() > 0 && model::game_at(config@.games, id@).sync_enabled,
{
    if !config.sync.enabled {
        return false;
    }
    match config.game(id) {
        Some(game) => {
            assert(game@.save_paths.len() == game.save_paths@.len());
            game.save_paths.len() > 0 && game.sync_enabled
        },
        None => false,
    }
}

/// Saves are uploaded after a game: the sync is on, for this game too.
pub open spec fn uploads_after(enabled: bool, games: Seq<(Seq<char>, Game)>, id: Seq<char>) -> bool {
    enabled && model::has_game(games, id) && model::game_at(games, id).sync_enabled
}

pub fn upload_wanted(config: &Config, id: &str) -> (yes: bool)
    ensures
        yes == uploads_after(config@.sync.enabled, config@.games, id@),
        yes <==> config@.sync.enabled && model::has_game(config@.games, id@) && model::game_at(
            config@.games,
            id@,
        ).sync_enabled,
{
    if !config.sync.enabled {
        return false;
    }
    match config.game(id) {
        Some(game) => game.sync_enabled,
        None => false,
    }
}

/// What came of fetching saves, or why it could not be done. It is said, and the game starts.
pub open spec fn pull_failure(message: Seq<char>) -> JsonValue {
    JsonValue::Object(
        seq![("ok"@, JsonValue::Bool(false)), ("error"@, JsonValue::Text(message))],
    )
}

pub fn pull_failed(message: &str) -> (out: Json)
    ensures
        out@ == pull_failure(message@),
{
    let out = with(no_members(), "ok", Json::Bool(false));
    let out = with(out, "error", text(message));
    assert(json::members_view(out@) =~= seq![
        ("ok"@, JsonValue::Bool(false)),
        ("error"@, JsonValue::Text(message@)),
    ]);
    Json::Object(out)
}

pub fn pull_timed_out(seconds: u64) -> (out: Json)
    ensures
        out@ == pull_failure("拉取超过 "@ + number::decimal(seconds as nat) + " 秒，已跳过"@),
{
    pull_failed(glue3("拉取超过 ", number_text(seconds).as_str(), " 秒，已跳过").as_str())
}

// ---------------------------------------------------------------------------------------------
// Waiting for the cloud

/// What is waited for.
pub enum Waiting {
    Test,
    Versions { key: String },
    Games,
    Index,
    /// A restore of a game, which may take ten minutes.
    Restore { name: String },
}

pub open spec fn waited_too_long(waiting: Waiting, seconds: u64) -> Seq<char> {
    let time = number::decimal(seconds as nat);
    match waiting {
        Waiting::Test => "测试连接超过 "@ + time
            + " 秒没有回应 —— 桶名/端点/凭据对不对?网络通不通?"@,
        Waiting::Versions { key } => "列《"@ + key@ + "》的版本超过 "@ + time
            + " 秒没有回应 —— 网络通不通?"@,
        Waiting::Games => "列云端游戏超过 "@ + time
            + " 秒没有回应 —— 网络通不通?云端的东西是不是太多了?"@,
        Waiting::Index => "读云端索引超过 "@ + time + " 秒没有回应 —— 网络通不通?"@,
        Waiting::Restore { name } => "恢复《"@ + name@ + "》超过 "@ + number::decimal(
            (seconds / 60) as nat,
        ) + " 分钟没有结束 —— 网络通不通?"@,
    }
}

pub fn timed_out(waiting: &Waiting, seconds: u64) -> (message: String)
    ensures
        message@ == waited_too_long(*waiting, seconds),
{
    let time = number_text(seconds);
    match waiting {
        Waiting::Test => glue3(
            "测试连接超过 ",
            time.as_str(),
            " 秒没有回应 —— 桶名/端点/凭据对不对?网络通不通?",
        ),
        Waiting::Versions { key } => glue5(
            "列《",
            key.as_str(),
            "》的版本超过 ",
            time.as_str(),
            " 秒没有回应 —— 网络通不通?",
        ),
        Waiting::Games => glue3(
            "列云端游戏超过 ",
            time.as_str(),
            " 秒没有回应 —— 网络通不通?云端的东西是不是太多了?",
        ),
        Waiting::Index => glue3(
            "读云端索引超过 ",
            time.as_str(),
            " 秒没有回应 —— 网络通不通?",
        ),
        Waiting::Restore { name } => glue5(
            "恢复《",
            name.as_str(),
            "》超过 ",
            number_text(seconds / 60).as_str(),
            " 分钟没有结束 —— 网络通不通?",
        ),
    }
}

/// The reply to a test of the connection.
pub fn test_reply(remote: &str) -> (out: Json)
    ensures
        out@ == JsonValue::Object(
            seq![("ok"@, JsonValue::Bool(true)), ("remote"@, JsonValue::Text(remote@))],
        ),
{
    let out = with(no_members(), "ok", Json::Bool(true));
    let out = with(out, "remote", text(remote));
    assert(json::members_view(out@) =~= seq![
        ("ok"@, JsonValue::Bool(true)),
        ("remote"@, JsonValue::Text(remote@)),
    ]);
    Json::Object(out)
}

// ---------------------------------------------------------------------------------------------
// What is remembered

/// When a game was synced last, and how it went.
pub struct SyncRecord {
    pub at: String,
    pub ok: bool,
    pub action: String,
    pub detail: String,
}

/// How many save locations something was done to.
pub open spec fn done(actions: Seq<Seq<char>>, n: int) -> nat
    decreases n,
{
    if n <= 0 {
        0
    } else {
        done(actions, n - 1) + if actions[n - 1] == "skipped"@ {
            0nat
        } else {
            1nat
        }
    }
}

/// How a sync went, in words: what went wrong, that nothing had changed, or how many locations
/// were moved.
pub open spec fn record_words(
    error: Option<Seq<char>>,
    actions: Seq<Seq<char>>,
    action: Seq<char>,
) -> Seq<char> {
    match error {
        Some(message) => message,
        None => {
            let count = done(actions, actions.len() as int);
            if count == 0 {
                "没有需要同步的变化"@
            } else {
                number::decimal(count) + " 个位置已"@ + action
            }
        },
    }
}

fn count_done(actions: &Vec<String>) -> (count: u64)
    ensures
        count == done(chars::texts(actions@), actions@.len() as int),
{
    let mut count: u64 = 0;
    let mut i: usize = 0;
    while i < actions.len()
        invariant
            i <= actions@.len(),
            count <= i,
            count == done(chars::texts(actions@), i as int),
        decreases actions@.len() - i,
    {
        assert(chars::texts(actions@)[i as int] == actions@[i as int]@);
        if !same_text(actions[i].as_str(), "skipped") {
            count += 1;
        }
        i += 1;
    }
    count
}

pub fn record_detail(error: &Option<String>, actions: &Vec<String>, action: &str) -> (out: String)
    ensures
        out@ == record_words(chars::text_view(*error), chars::texts(actions@), action@),
{
    match error {
        Some(message) => message.clone(),
        None => {
            let count = count_done(actions);
            if count == 0 {
                "没有需要同步的变化".to_owned()
            } else {
                glue3(number_text(count).as_str(), " 个位置已", action)
            }
        },
    }
}

/// Remembers how a sync of a game went at a moment, in place of the one before.
pub fn remember_at(
    records: &mut Keyed<SyncRecord>,
    id: &str,
    action: &str,
    ok: bool,
    error: &Option<String>,
    actions: &Vec<String>,
    now: String,
)
    requires
        old(records).wf(),
    ensures
        final(records).wf(),
        final(records)@ == old(records)@.insert(id@, final(records)@[id@]),
        ({
            let record = final(records)@[id@];
            &&& record.at@ == now@
            &&& record.ok == ok
            &&& record.action@ == action@
            &&& record.detail@ == record_words(
                chars::text_view(*error),
                chars::texts(actions@),
                action@,
            )
        }),
{
    let record = SyncRecord {
        at: now,
        ok,
        action: action.to_owned(),
        detail: record_detail(error, actions, action),
    };
    records.insert(id, record);
}

/// Remembers how a sync of a game went just now.
pub fn remember(
    records: &mut Keyed<SyncRecord>,
    id: &str,
    action: &str,
    ok: bool,
    error: &Option<String>,
    actions: &Vec<String>,
)
    requires
        old(records).wf(),
    ensures
        final(records).wf(),
        final(records)@ == old(records)@.insert(id@, final(records)@[id@]),
        ({
            let record = final(records)@[id@];
            &&& clock::is_moment(record.at@)
            &&& record.ok == ok
            &&& record.action@ == action@
            &&& record.detail@ == record_words(
                chars::text_view(*error),
                chars::texts(actions@),
                action@,
            )
        }),
{
    remember_at(records, id, action, ok, error, actions, moment());
}

/// A game that is switched off is neither fetched nor uploaded by itself.
pub proof fn a_game_switched_off_is_left_alone(
    enabled: bool,
    games: Seq<(Seq<char>, Game)>,
    id: Seq<char>,
)
    requires
        model::has_game(games, id) ==> !model::game_at(games, id).sync_enabled,
    ensures
        !fetches_before(enabled, games, id),
        !uploads_after(enabled, games, id),
{
}

/// While the sync is off nothing is fetched or uploaded by itself.
pub proof fn nothing_moves_while_sync_is_off(games: Seq<(Seq<char>, Game)>, id: Seq<char>)
    ensures
        !fetches_before(false, games, id),
        !uploads_after(false, games, id),
{
}

/// Saves are fetched before a game starts for every game of the library that has save locations,
/// as long as the sync is on for all games and for this one; and for no other. Whether the game
/// has been in the cloud before does not matter.
pub proof fn saves_are_fetched_for_every_game_that_syncs(
    enabled: bool,
    games: Seq<(Seq<char>, Game)>,
    i: int,
)
    requires
        model::ids_are_distinct(games),
        0 <= i < games.len(),
    ensures
        fetches_before(enabled, games, games[i].0) <==> (enabled && games[i].1.sync_enabled
            && games[i].1.save_paths.len() > 0),
{
    model::a_game_is_found_under_its_id(games, i);
}

/// Saves are uploaded after every game of the library, as long as the sync is on for all games
/// and for this one. A game that has never been in the cloud is uploaded too.
pub proof fn saves_are_uploaded_for_every_game_that_syncs(
    enabled: bool,
    games: Seq<(Seq<char>, Game)>,
    i: int,
)
    requires
        model::ids_are_distinct(games),
        0 <= i < games.len(),
    ensures
        uploads_after(enabled, games, games[i].0) <==> (enabled && games[i].1.sync_enabled),
{
    model::a_game_is_found_under_its_id(games, i);
}

/// Nothing is fetched or uploaded for a game that is not in the library, nor can it be moved.
pub proof fn an_unknown_game_is_not_moved(
    enabled: bool,
    games: Seq<(Seq<char>, Game)>,
    id: Seq<char>,
)
    requires
        forall|i: int| 0 <= i < games.len() ==> (#[trigger] games[i]).0 != id,
    ensures
        !fetches_before(enabled, games, id),
        !uploads_after(enabled, games, id),
        syncable(games, id) == Err::<Seq<char>, Seq<char>>("配置中找不到游戏: "@ + id),
{
    model::position_is_first(games, id, 0);
}

/// A game of the library can be synced exactly where it has save locations. It goes by its own
/// name, and one that has none is named in the refusal.
pub proof fn save_locations_decide_what_can_be_synced(games: Seq<(Seq<char>, Game)>, i: int)
    requires
        model::ids_are_distinct(games),
        0 <= i < games.len(),
    ensures
        games[i].1.save_paths.len() > 0 ==> syncable(games, games[i].0) == Ok::<
            Seq<char>,
            Seq<char>,
        >(games[i].1.name),
        games[i].1.save_paths.len() == 0 ==> syncable(games, games[i].0) == Err::<
            Seq<char>,
            Seq<char>,
        >("「"@ + games[i].1.name + "」还没有配置存档位置"@),
{
    model::a_game_is_found_under_its_id(games, i);
}

/// Uploading everything is about exactly the games that have save locations, each of them once
/// and in the order of the library.
pub proof fn everything_with_saves_is_uploaded(games: Seq<(Seq<char>, Game)>, n: int)
    requires
        0 <= n <= games.len(),
    ensures
        forall|i: int|
            0 <= i < n && games[i].1.save_paths.len() > 0 ==> with_saves(games, n).contains(
                (#[trigger] games[i]).0,
            ),
        forall|k: int|
            0 <= k < with_saves(games, n).len() ==> exists|i: int|
                0 <= i < n && (#[trigger] games[i]).0 == #[trigger] with_saves(games, n)[k]
                    && games[i].1.save_paths.len() > 0,
        with_saves(games, n).len() <= n,
        (forall|i: int| 0 <= i < n ==> (#[trigger] games[i]).1.save_paths.len() > 0)
            ==> with_saves(games, n) == games.take(n).map_values(
            |entry: (Seq<char>, Game)| entry.0,
        ),
    decreases n,
{
    if n > 0 {
        everything_with_saves_is_uploaded(games, n - 1);
        let before = with_saves(games, n - 1);
        let all = with_saves(games, n);
        assert forall|i: int| 0 <= i < n && games[i].1.save_paths.len() > 0 implies all.contains(
            (#[trigger] games[i]).0,
        ) by {
            if i < n - 1 {
                let k = before.index_of(games[i].0);
                assert(all[k] == games[i].0);
            } else {
                assert(all[all.len() - 1] == games[i].0);
            }
        }
        assert forall|k: int| 0 <= k < all.len() implies exists|i: int|
            0 <= i < n && (#[trigger] games[i]).0 == #[trigger] all[k]
                && games[i].1.save_paths.len() > 0 by {
            if k < before.len() {
                assert(before[k] == all[k]);
                let i = choose|i: int|
                    0 <= i < n - 1 && (#[trigger] games[i]).0 == before[k]
                        && games[i].1.save_paths.len() > 0;
                assert(games[i].0 == all[k]);
            } else {
                assert(games[n - 1].0 == all[k]);
            }
        }
        let ids = |entry: (Seq<char>, Game)| entry.0;
        if forall|i: int| 0 <= i < n ==> (#[trigger] games[i]).1.save_paths.len() > 0 {
            assert(games[n - 1].1.save_paths.len() > 0);
            assert(all =~= games.take(n).map_values(ids)) by {
                assert(before == games.take(n - 1).map_values(ids));
                assert forall|k: int| 0 <= k < n implies all[k] == #[trigger] games.take(
                    n,
                ).map_values(ids)[k] by {
                    if k < n - 1 {
                        assert(before[k] == games.take(n - 1).map_values(ids)[k]);
                    }
                }
            }
        }
    } else {
        assert(games.take(n).map_values(|entry: (Seq<char>, Game)| entry.0) =~= with_saves(
            games,
            n,
        ));
    }
}

/// What is remembered of a sync: what went wrong where something did; else that nothing had
/// changed, where every location was skipped; and else how many were not skipped.
pub proof fn a_record_says_what_was_done(actions: Seq<Seq<char>>, action: Seq<char>)
    ensures
        forall|message: Seq<char>| #[trigger]
            record_words(Some(message), actions, action) == message,
        (forall|i: int| 0 <= i < actions.len() ==> #[trigger] actions[i] == "skipped"@)
            ==> record_words(None, actions, action) == "没有需要同步的变化"@,
        (forall|i: int| 0 <= i < actions.len() ==> #[trigger] actions[i] != "skipped"@)
            && actions.len() > 0 ==> record_words(None, actions, action) == number::decimal(
            actions.len(),
        ) + " 个位置已"@ + action,
{
    lemma_done(actions, actions.len() as int);
}

proof fn lemma_done(actions: Seq<Seq<char>>, n: int)
    requires
        0 <= n <= actions.len(),
    ensures
        (forall|i: int| 0 <= i < n ==> #[trigger] actions[i] == "skipped"@) ==> done(actions, n)
            == 0,
        (forall|i: int| 0 <= i < n ==> #[trigger] actions[i] != "skipped"@) ==> done(actions, n)
            == n,
    decreases n,
{
    if n > 0 {
        lemma_done(actions, n - 1);
        assert(actions[n - 1] == actions[n - 1]);
    }
}

/// One more location adds one to what is counted, unless it was skipped.
pub proof fn a_location_counts_once(actions: Seq<Seq<char>>, own: Seq<char>)
    ensures
        own == "skipped"@ ==> done(actions.push(own), (actions.len() + 1) as int) == done(
            actions,
            actions.len() as int,
        ),
        own != "skipped"@ ==> done(actions.push(own), (actions.len() + 1) as int) == done(
            actions,
            actions.len() as int,
        ) + 1,
{
    lemma_done_of_front(actions, own, actions.len() as int);
}

proof fn lemma_done_of_front(actions: Seq<Seq<char>>, own: Seq<char>, n: int)
    requires
        0 <= n <= actions.len(),
    ensures
        done(actions.push(own), n) == done(actions, n),
    decreases n,
{
    if n > 0 {
        lemma_done_of_front(actions, own, n - 1);
    }
}

/// A version is named by a date of eight digits, a `T`, a time of six digits and a `Z`, and by
/// nothing else.
pub proof fn a_version_is_named_by_a_moment(date: Seq<char>, time: Seq<char>, name: Seq<char>)
    ensures
        date.len() == 8 && time.len() == 6 && number::all_digits(date) && number::all_digits(time)
            ==> names_version(date.push('T') + time.push('Z')),
        names_version(name) ==> name == name.take(8).push('T') + name.subrange(9, 15).push('Z')
            && number::all_digits(name.take(8)) && number::all_digits(name.subrange(9, 15)),
{
    let made = date.push('T') + time.push('Z');
    if date.len() == 8 && time.len() == 6 && number::all_digits(date) && number::all_digits(time) {
        assert forall|i: int| 0 <= i < 15 && i != 8 implies chars::is_digit(#[trigger] made[i]) by {
            if i < 8 {
                assert(made[i] == date[i]);
            } else {
                assert(made[i] == time[i - 9]);
            }
        }
    }
    if names_version(name) {
        assert(name =~= name.take(8).push('T') + name.subrange(9, 15).push('Z'));
    }
}

/// An upload went well exactly where it went well for every game.
pub proof fn one_failure_is_a_failure(outcomes: Seq<Outcome>, i: int)
    ensures
        0 <= i < outcomes.len() && !outcomes[i].ok ==> !all_well(outcomes),
        (forall|k: int| 0 <= k < outcomes.len() ==> (#[trigger] outcomes[k]).ok) ==> all_well(
            outcomes,
        ),
{
    if 0 <= i < outcomes.len() && !outcomes[i].ok && all_well(outcomes) {
        assert(outcomes[i].ok);
    }
}

/// What is said where the cloud does not answer in time, and of a name that is no version.
pub proof fn what_is_said_after_waiting(key: String, seconds: u64, version: Seq<char>)
    ensures
        ({
            let time = number::decimal(seconds as nat);
            &&& waited_too_long(Waiting::Test, seconds) == "测试连接超过 "@ + time
                + " 秒没有回应 —— 桶名/端点/凭据对不对?网络通不通?"@
            &&& waited_too_long(Waiting::Versions { key }, seconds) == "列《"@ + key@
                + "》的版本超过 "@ + time + " 秒没有回应 —— 网络通不通?"@
            &&& waited_too_long(Waiting::Games, seconds) == "列云端游戏超过 "@ + time
                + " 秒没有回应 —— 网络通不通?云端的东西是不是太多了?"@
            &&& waited_too_long(Waiting::Index, seconds) == "读云端索引超过 "@ + time
                + " 秒没有回应 —— 网络通不通?"@
            &&& waited_too_long(Waiting::Restore { name: key }, seconds) == "恢复《"@ + key@
                + "》超过 "@ + number::decimal((seconds / 60) as nat)
                + " 分钟没有结束 —— 网络通不通?"@
        }),
        bad_version(version) == "不是合法的版本名: "@ + version + "（形如 20260911T101500Z）"@,
        json::has_member(pull_failure(version), "ok"@, JsonValue::Bool(false)),
        json::has_member(pull_failure(version), "error"@, JsonValue::Text(version)),
{
    let members = seq![("ok"@, JsonValue::Bool(false)), ("error"@, JsonValue::Text(version))];
    assert(pull_failure(version) == JsonValue::Object(members));
    assert(members[0] == ("ok"@, JsonValue::Bool(false)));
    assert(members[1] == ("error"@, JsonValue::Text(version)));
}

} // verus!
