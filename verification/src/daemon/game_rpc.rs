//! Requests about games: the library, and starting or stopping one game.

use crate::config::locations;
use crate::config::locations::infer_reference;
use crate::config::model;
use crate::config::model::{Config, Game, GameConfig, Settings};
use crate::daemon::game_json;
use crate::daemon::game_json::{path_value, reference_value};
use crate::daemon::game_write;
use crate::daemon::protocol;
use crate::daemon::protocol::success;
use crate::daemon::session::Session;
use crate::game::library;
use crate::game::library::duplicate_exe_warning;
use crate::json;
use crate::json::{no_members, number, number_or_null, text, with, Json, JsonValue};
use crate::mount::table::{MountEntry, MountTable};
use crate::path::FsPath;
use crate::text::chars;
use crate::text::glue::glue2;
use crate::text::keyed::Keyed;
use vstd::prelude::*;

verus! {

/// Removes a game from the library.
pub fn remove(config: &mut Config, id: &str) -> (out: Result<Json, String>)
    ensures
        old(config).wf() ==> final(config).wf(),
        match out {
            Ok(reply) => model::has_game(old(config)@.games, id@) && reply@
                == protocol::success_json() && final(config)@ == (Settings {
                games: library::without_game(old(config)@.games, id@),
                ..old(config)@
            }),
            Err(message) => !model::has_game(old(config)@.games, id@) && message@
                == game_write::unknown_game(id@) && final(config)@ == old(config)@,
        },
{
    if library::remove_game(config, id) {
        Ok(success())
    } else {
        Err(glue2("配置中找不到游戏: ", id))
    }
}

// ---------------------------------------------------------------------------------------------
// Adding what a scan found

pub open spec fn added_members(id: Seq<char>, game: Game) -> Seq<(Seq<char>, JsonValue)> {
    seq![
        ("id"@, JsonValue::Text(id)),
        ("name"@, JsonValue::Text(game.name)),
        ("exe_path"@, game_json::path_json(game.exe_path)),
    ]
}

pub open spec fn warning_json(id: Seq<char>, message: Seq<char>) -> JsonValue {
    JsonValue::Object(seq![("id"@, JsonValue::Text(id)), ("message"@, JsonValue::Text(message))])
}

/// The warnings about the games that were added, in their order.
pub open spec fn warning_list(
    added: Seq<(Seq<char>, Game)>,
    warnings: Seq<Option<Seq<char>>>,
    n: int,
) -> Seq<JsonValue>
    decreases n,
{
    if n <= 0 {
        Seq::empty()
    } else {
        let before = warning_list(added, warnings, n - 1);
        match warnings[n - 1] {
            Some(message) => before.push(warning_json(added[n - 1].0, message)),
            None => before,
        }
    }
}

/// What was added, and the warnings about it: `warnings` holds one place for each game that was
/// added.
pub open spec fn added_json(
    added: Seq<(Seq<char>, Game)>,
    warnings: Seq<Option<Seq<char>>>,
) -> JsonValue {
    JsonValue::Object(
        seq![
            (
                "added"@,
                JsonValue::List(
                    added.map_values(
                        |entry: (Seq<char>, Game)|
                            JsonValue::Object(added_members(entry.0, entry.1)),
                    ),
                ),
            ),
            ("warnings"@, JsonValue::List(warning_list(added, warnings, added.len() as int))),
        ],
    )
}

/// The word for the user about each game that was added: `exes` are the programs of the library,
/// and `wanted` those of the games that were added, as the file system spells them.
pub open spec fn warnings_about(
    games: Seq<(Seq<char>, Game)>,
    exes: Seq<Option<FsPath>>,
    added: Seq<(Seq<char>, Game)>,
    wanted: Seq<FsPath>,
) -> Seq<Option<Seq<char>>> {
    Seq::new(
        added.len(),
        |k: int| library::shared_exe(games, exes, wanted[k]@, Some(added[k].0)),
    )
}

fn added_value(id: &str, game: &GameConfig) -> (out: Json)
    ensures
        out@ == JsonValue::Object(added_members(id@, game@)),
{
    let out = with(no_members(), "id", text(id));
    let out = with(out, "name", text(game.name.as_str()));
    let out = with(out, "exe_path", path_value(&game.exe_path));
    assert(json::members_view(out@) =~= added_members(id@, game@));
    Json::Object(out)
}

fn warning_value(id: &str, message: &str) -> (out: Json)
    ensures
        out@ == warning_json(id@, message@),
{
    let out = with(no_members(), "id", text(id));
    let out = with(out, "message", text(message));
    assert(json::members_view(out@) =~= seq![
        ("id"@, JsonValue::Text(id@)),
        ("message"@, JsonValue::Text(message@)),
    ]);
    Json::Object(out)
}

/// What is said of the games that a scan added to the library: which ones, and which of them
/// share their program with another game.
pub fn report_added(
    config: &Config,
    exes: &Vec<Option<FsPath>>,
    added: &Vec<(String, GameConfig)>,
    wanted: &Vec<FsPath>,
) -> (out: Json)
    requires
        wanted@.len() == added@.len(),
    ensures
        out@ == added_json(
            model::games_view(added@),
            warnings_about(config@.games, exes@, model::games_view(added@), wanted@),
        ),
{
    let ghost all = model::games_view(added@);
    let ghost warnings = warnings_about(config@.games, exes@, all, wanted@);
    let mut games: Vec<Json> = Vec::new();
    let mut notes: Vec<Json> = Vec::new();
    let mut i: usize = 0;
    while i < added.len()
        invariant
            i <= added@.len() == wanted@.len(),
            all == model::games_view(added@),
            warnings == warnings_about(config@.games, exes@, all, wanted@),
            games@.len() == i,
            forall|k: int|
                0 <= k < i ==> (#[trigger] games@[k])@ == JsonValue::Object(
                    added_members(all[k].0, all[k].1),
                ),
            json::items_view(notes@) == warning_list(all, warnings, i as int),
        decreases added@.len() - i,
    {
        assert(all[i as int] == (added@[i as int].0@, added@[i as int].1@));
        games.push(added_value(added[i].0.as_str(), &added[i].1));
        match duplicate_exe_warning(config, exes, &wanted[i], Some(added[i].0.as_str())) {
            Some(message) => {
                let ghost before = notes@;
                notes.push(warning_value(added[i].0.as_str(), message.as_str()));
                assert(notes@.drop_last() =~= before);
            },
            None => {},
        }
        i += 1;
    }
    proof {
        json::items_view_items(games@);
        assert(json::items_view(games@) =~= all.map_values(
            |entry: (Seq<char>, Game)| JsonValue::Object(added_members(entry.0, entry.1)),
        ));
    }
    let out = with(no_members(), "added", Json::List(games));
    let out = with(out, "warnings", Json::List(notes));
    assert(json::members_view(out@) =~= seq![
        (
            "added"@,
            JsonValue::List(
                all.map_values(
                    |entry: (Seq<char>, Game)| JsonValue::Object(added_members(entry.0, entry.1)),
                ),
            ),
        ),
        ("warnings"@, JsonValue::List(warning_list(all, warnings, all.len() as int))),
    ]);
    Json::Object(out)
}

/// The place of a path on its disk, for a client that fills in both.
pub fn infer_mount(mounts: &MountTable, canonical: &Option<FsPath>) -> (out: Json)
    ensures
        out@ == JsonValue::Object(
            seq![
                (
                    "mount"@,
                    game_json::reference_json(
                        locations::infer(mounts@, model::path_view(*canonical)),
                    ),
                ),
            ],
        ),
{
    let out = with(no_members(), "mount", reference_value(&infer_reference(mounts, canonical)));
    assert(json::members_view(out@) =~= seq![
        (
            "mount"@,
            game_json::reference_json(locations::infer(mounts@, model::path_view(*canonical))),
        ),
    ]);
    Json::Object(out)
}

// ---------------------------------------------------------------------------------------------
// Before a launch

/// Where a game is to be started: its directory and its program, of the moment.
pub open spec fn launch_places(
    games: Seq<(Seq<char>, Game)>,
    id: Seq<char>,
    mounts: Seq<MountEntry>,
) -> Result<(Seq<u8>, Seq<u8>), Seq<char>> {
    if !model::has_game(games, id) {
        Err(game_write::unknown_game(id))
    } else {
        let game = model::game_at(games, id);
        match locations::game_dir_now(game, mounts) {
            Err(message) => Err(message),
            Ok(dir) => match locations::exe_now(game, mounts) {
                Err(message) => Err(message),
                Ok(exe) => Ok((dir, exe)),
            },
        }
    }
}

pub fn find_launch_places(config: &Config, id: &str, mounts: &MountTable) -> (out: Result<
    (FsPath, FsPath),
    String,
>)
    ensures
        match out {
            Ok((dir, exe)) => launch_places(config@.games, id@, mounts@) == Ok::<
                (Seq<u8>, Seq<u8>),
                Seq<char>,
            >((dir@, exe@)),
            Err(message) => launch_places(config@.games, id@, mounts@) == Err::<
                (Seq<u8>, Seq<u8>),
                Seq<char>,
            >(message@),
        },
{
    match config.game(id) {
        None => Err(glue2("配置中找不到游戏: ", id)),
        Some(game) => match game.resolved_game_dir_with(mounts) {
            Err(message) => Err(message),
            Ok(dir) => match game.resolved_exe_with(mounts) {
                Err(message) => Err(message),
                Ok(exe) => Ok((dir, exe)),
            },
        },
    }
}

/// A launch needs a directory and a program that are here now.
pub fn check_launch_places(dir_is_dir: bool, exe_is_file: bool) -> (out: Result<(), String>)
    ensures
        match out {
            Ok(_) => dir_is_dir && exe_is_file,
            Err(message) => !(dir_is_dir && exe_is_file) && message@
                == "游戏目录或可执行文件不存在，请检查磁盘和游戏位置"@,
        },
{
    if dir_is_dir && exe_is_file {
        Ok(())
    } else {
        Err("游戏目录或可执行文件不存在，请检查磁盘和游戏位置".to_owned())
    }
}

/// What may be the same game in the cloud.
pub struct Suspect {
    pub cloud_id: String,
    pub cloud_key: String,
    pub name: String,
    pub versions: u64,
    pub latest: Option<String>,
    pub size: u64,
}

/// What is to be done about a game in the cloud before it is started.
pub enum Decision {
    /// Nothing: the sync of this game, or all sync, is off.
    Skip,
    /// The game is known there.
    Pull,
    /// The program says which game it is there.
    Adopt { cloud_id: String, cloud_key: String },
    /// The game is a new one there.
    Fresh,
    /// The user has to say; with what may be the same game.
    Ask { found: Option<Suspect> },
}

pub open spec fn suspect_json(found: Option<Suspect>) -> JsonValue {
    match found {
        Some(found) => JsonValue::Object(
            seq![
                ("cloud_id"@, JsonValue::Text(found.cloud_id@)),
                ("cloud_key"@, JsonValue::Text(found.cloud_key@)),
                ("name"@, JsonValue::Text(found.name@)),
                ("versions"@, JsonValue::Number(found.versions as int)),
                ("latest"@, json::optional_text(chars::text_view(found.latest))),
                ("size"@, JsonValue::Number(found.size as int)),
            ],
        ),
        None => JsonValue::Null,
    }
}

fn suspect_value(found: &Option<Suspect>) -> (out: Json)
    ensures
        out@ == suspect_json(*found),
{
    match found {
        Some(found) => {
            let out = with(no_members(), "cloud_id", text(found.cloud_id.as_str()));
            let out = with(out, "cloud_key", text(found.cloud_key.as_str()));
            let out = with(out, "name", text(found.name.as_str()));
            let out = with(out, "versions", number(found.versions));
            let out = with(out, "latest", json::text_or_null(&found.latest));
            let out = with(out, "size", number(found.size));
            assert(json::members_view(out@) =~= seq![
                ("cloud_id"@, JsonValue::Text(found.cloud_id@)),
                ("cloud_key"@, JsonValue::Text(found.cloud_key@)),
                ("name"@, JsonValue::Text(found.name@)),
                ("versions"@, JsonValue::Number(found.versions as int)),
                ("latest"@, json::optional_text(chars::text_view(found.latest))),
                ("size"@, JsonValue::Number(found.size as int)),
            ]);
            Json::Object(out)
        },
        None => Json::Null,
    }
}

/// What a client is asked before a launch.
pub open spec fn question_json(found: Option<Suspect>) -> JsonValue {
    JsonValue::Object(
        seq![("needs_sync_decision"@, JsonValue::Bool(true)), ("cloud"@, suspect_json(found))],
    )
}

/// The question that comes before a launch. It is asked only where a client can answer it;
/// otherwise the game is started without it.
pub fn question_before_launch(decision: &Decision, selfcheck: bool) -> (out: Option<Json>)
    ensures
        match out {
            Some(reply) => selfcheck && decision is Ask && reply@ == question_json(decision->found),
            None => !(selfcheck && decision is Ask),
        },
{
    match decision {
        Decision::Ask { found } => if selfcheck {
            let out = with(no_members(), "needs_sync_decision", Json::Bool(true));
            let out = with(out, "cloud", suspect_value(found));
            assert(json::members_view(out@) =~= seq![
                ("needs_sync_decision"@, JsonValue::Bool(true)),
                ("cloud"@, suspect_json(*found)),
            ]);
            Some(Json::Object(out))
        } else {
            None
        },
        _ => None,
    }
}

pub open spec fn optional_json(value: Option<Json>) -> JsonValue {
    match value {
        Some(value) => value@,
        None => JsonValue::Null,
    }
}

/// The reply to a launch. `pulled` is what came of fetching the saves before it, where that was
/// tried.
pub fn launch_reply(
    session: &Session,
    game_dir: &FsPath,
    wine_prefix: &FsPath,
    prefix_source: &str,
    pulled: Option<Json>,
) -> (out: Json)
    ensures
        out@ == JsonValue::Object(
            seq![
                ("session_id"@, JsonValue::Text(session.session_id@)),
                ("gamescope_pid"@, json::optional_number(session.gamescope_pid)),
                ("game_dir"@, game_json::path_json(game_dir@)),
                ("wine_prefix"@, game_json::path_json(wine_prefix@)),
                ("prefix_source"@, JsonValue::Text(prefix_source@)),
                ("sync_pull"@, optional_json(pulled)),
            ],
        ),
{
    let ghost fetched = optional_json(pulled);
    let pulled = match pulled {
        Some(value) => value,
        None => Json::Null,
    };
    let out = with(no_members(), "session_id", text(session.session_id.as_str()));
    let out = with(out, "gamescope_pid", number_or_null(session.gamescope_pid));
    let out = with(out, "game_dir", path_value(game_dir));
    let out = with(out, "wine_prefix", path_value(wine_prefix));
    let out = with(out, "prefix_source", text(prefix_source));
    let out = with(out, "sync_pull", pulled);
    assert(json::members_view(out@) =~= seq![
        ("session_id"@, JsonValue::Text(session.session_id@)),
        ("gamescope_pid"@, json::optional_number(session.gamescope_pid)),
        ("game_dir"@, game_json::path_json(game_dir@)),
        ("wine_prefix"@, game_json::path_json(wine_prefix@)),
        ("prefix_source"@, JsonValue::Text(prefix_source@)),
        ("sync_pull"@, fetched),
    ]);
    Json::Object(out)
}

// ---------------------------------------------------------------------------------------------
// After a stop

/// The runs that the user stopped by hand: for each game the processes at that moment.
pub open spec fn stopped_runs(
    ignored: Map<Seq<char>, Vec<i32>>,
    session: Session,
    pids: Vec<i32>,
) -> Map<Seq<char>, Vec<i32>> {
    match session.game_id {
        Some(id) => if session.watch_only {
            ignored.insert(id@, pids)
        } else {
            ignored
        },
        None => ignored,
    }
}

/// Takes down that a session was stopped by hand. A run that was only followed is not followed
/// again: `pids` are the processes with its name at this moment. A new run has new ones.
pub fn after_stop(ignored: &mut Keyed<Vec<i32>>, session: &Session, pids: Vec<i32>) -> (out: Json)
    requires
        old(ignored).wf(),
    ensures
        final(ignored).wf(),
        final(ignored)@ == stopped_runs(old(ignored)@, *session, pids),
        out@ == protocol::success_json(),
{
    match &session.game_id {
        Some(id) => if session.watch_only {
            ignored.insert(id.as_str(), pids);
        },
        None => {},
    }
    success()
}

/// What a client hears of a session that has ended.
pub fn exited() -> (out: Json)
    ensures
        out@ == JsonValue::Object(seq![("exited"@, JsonValue::Bool(true))]),
{
    let out = with(no_members(), "exited", Json::Bool(true));
    assert(json::members_view(out@) =~= seq![("exited"@, JsonValue::Bool(true))]);
    Json::Object(out)
}

// ---------------------------------------------------------------------------------------------
// What holds of these requests

/// A game that was added is reported with its id, its name and its program.
pub proof fn an_added_game_is_reported(id: Seq<char>, game: Game)
    ensures
        json::has_member(JsonValue::Object(added_members(id, game)), "id"@, JsonValue::Text(id)),
        json::has_member(JsonValue::Object(added_members(id, game)), "name"@, JsonValue::Text(game.name)),
        json::has_member(JsonValue::Object(added_members(id, game)), "exe_path"@, JsonValue::Text(crate::path::lossy_text(game.exe_path))),
{
    let members = added_members(id, game);
    assert(members[0] == ("id"@, JsonValue::Text(id)));
    assert(members[1] == ("name"@, JsonValue::Text(game.name)));
    assert(members[2] == ("exe_path"@, JsonValue::Text(crate::path::lossy_text(game.exe_path))));
}

/// Every game that was added is reported, in its order.
pub proof fn all_that_was_added_is_reported(
    added: Seq<(Seq<char>, Game)>,
    warnings: Seq<Option<Seq<char>>>,
)
    ensures
        exists|list: Seq<JsonValue>| #[trigger]
            json::has_member(added_json(added, warnings), "added"@, JsonValue::List(list))
                && list.len() == added.len() && forall|i: int|
                0 <= i < added.len() ==> #[trigger] list[i] == JsonValue::Object(
                    added_members(added[i].0, added[i].1),
                ),
        json::has_member(
            added_json(added, warnings),
            "warnings"@,
            JsonValue::List(warning_list(added, warnings, added.len() as int)),
        ),
{
    let list = added.map_values(
        |entry: (Seq<char>, Game)| JsonValue::Object(added_members(entry.0, entry.1)),
    );
    let members = added_json(added, warnings)->Object_0;
    assert(members[0] == ("added"@, JsonValue::List(list)));
    assert(members[1].0 == "warnings"@);
    assert(json::has_member(added_json(added, warnings), "added"@, JsonValue::List(list)));
}

/// A warning about a game that was added is passed on under the id of that game, and games
/// without one are not mentioned.
pub proof fn a_warning_names_its_game(
    added: Seq<(Seq<char>, Game)>,
    warnings: Seq<Option<Seq<char>>>,
    n: int,
)
    requires
        0 <= n <= added.len() == warnings.len(),
    ensures
        forall|i: int|
            0 <= i < n && warnings[i] is Some ==> warning_list(added, warnings, n).contains(
                warning_json((#[trigger] added[i]).0, warnings[i].unwrap()),
            ),
        (forall|i: int| 0 <= i < n ==> (#[trigger] warnings[i]) is None) ==> warning_list(
            added,
            warnings,
            n,
        ).len() == 0,
        warning_list(added, warnings, n).len() <= n,
    decreases n,
{
    if n > 0 {
        a_warning_names_its_game(added, warnings, n - 1);
        let before = warning_list(added, warnings, n - 1);
        let all = warning_list(added, warnings, n);
        assert(warnings[n - 1] is None ==> all == before);
        assert forall|i: int| 0 <= i < n && warnings[i] is Some implies all.contains(
            warning_json((#[trigger] added[i]).0, warnings[i].unwrap()),
        ) by {
            let own = warning_json(added[i].0, warnings[i].unwrap());
            if i < n - 1 {
                let k = before.index_of(own);
                assert(all[k] == own);
            } else {
                assert(all[all.len() - 1] == own);
            }
        }
    }
}

/// A game is started from its own directory and program of the moment. Where one of them cannot
/// be told the reason is given, that of the directory first.
pub proof fn a_launch_goes_to_the_places_of_the_game(
    games: Seq<(Seq<char>, Game)>,
    i: int,
    mounts: Seq<MountEntry>,
)
    requires
        model::ids_are_distinct(games),
        0 <= i < games.len(),
    ensures
        match (
            locations::game_dir_now(games[i].1, mounts),
            locations::exe_now(games[i].1, mounts),
        ) {
            (Ok(dir), Ok(exe)) => launch_places(games, games[i].0, mounts) == Ok::<
                (Seq<u8>, Seq<u8>),
                Seq<char>,
            >((dir, exe)),
            (Err(message), _) => launch_places(games, games[i].0, mounts) == Err::<
                (Seq<u8>, Seq<u8>),
                Seq<char>,
            >(message),
            (_, Err(message)) => launch_places(games, games[i].0, mounts) == Err::<
                (Seq<u8>, Seq<u8>),
                Seq<char>,
            >(message),
        },
{
    model::a_game_is_found_under_its_id(games, i);
}

/// What the user is asked before a launch says which game of the cloud may be the same one, and
/// nothing of a game where none was found.
pub proof fn a_question_says_what_was_found(found: Suspect)
    ensures
        json::has_member(suspect_json(Some(found)), "cloud_id"@, JsonValue::Text(found.cloud_id@)),
        json::has_member(suspect_json(Some(found)), "cloud_key"@, JsonValue::Text(found.cloud_key@)),
        json::has_member(suspect_json(Some(found)), "name"@, JsonValue::Text(found.name@)),
        json::has_member(suspect_json(Some(found)), "versions"@, JsonValue::Number(found.versions as int)),
        json::has_member(suspect_json(Some(found)), "latest"@, json::optional_text(chars::text_view(found.latest))),
        json::has_member(suspect_json(Some(found)), "size"@, JsonValue::Number(found.size as int)),
        json::has_member(
            question_json(Some(found)),
            "needs_sync_decision"@,
            JsonValue::Bool(true),
        ),
        json::has_member(question_json(Some(found)), "cloud"@, suspect_json(Some(found))),
        json::has_member(question_json(None), "cloud"@, JsonValue::Null),
{
    let question = question_json(Some(found))->Object_0;
    assert(question[0] == ("needs_sync_decision"@, JsonValue::Bool(true)));
    assert(question[1] == ("cloud"@, suspect_json(Some(found))));
    assert(question_json(None)->Object_0[1] == ("cloud"@, JsonValue::Null));
    let members = suspect_json(Some(found))->Object_0;
    assert(members[0] == ("cloud_id"@, JsonValue::Text(found.cloud_id@)));
    assert(members[1] == ("cloud_key"@, JsonValue::Text(found.cloud_key@)));
    assert(members[2] == ("name"@, JsonValue::Text(found.name@)));
    assert(members[3] == ("versions"@, JsonValue::Number(found.versions as int)));
    assert(members[4] == ("latest"@, json::optional_text(chars::text_view(found.latest))));
    assert(members[5] == ("size"@, JsonValue::Number(found.size as int)));
}

/// A run that was only followed and is stopped by hand is taken down with its processes. Stopping
/// a game that was started here takes nothing down, and no other game is concerned.
pub proof fn only_a_followed_run_is_taken_down(
    ignored: Map<Seq<char>, Vec<i32>>,
    session: Session,
    pids: Vec<i32>,
    other: Seq<char>,
)
    ensures
        ({
            let after = stopped_runs(ignored, session, pids);
            &&& session.game_id is Some && session.watch_only ==> after.contains_key(
                session.game_id.unwrap()@,
            ) && after[session.game_id.unwrap()@] == pids
            &&& !session.watch_only ==> after == ignored
            &&& session.game_id is None ==> after == ignored
            &&& (session.game_id is None || session.game_id.unwrap()@ != other) ==> (
            after.contains_key(other) == ignored.contains_key(other) && after[other]
                == ignored[other])
        }),
{
}

/// A warning says which game it is about, and what there is to know.
pub proof fn a_warning_says_what_there_is_to_know(id: Seq<char>, message: Seq<char>)
    ensures
        json::has_member(warning_json(id, message), "id"@, JsonValue::Text(id)),
        json::has_member(warning_json(id, message), "message"@, JsonValue::Text(message)),
{
    let members = seq![("id"@, JsonValue::Text(id)), ("message"@, JsonValue::Text(message))];
    assert(warning_json(id, message) == JsonValue::Object(members));
    assert(members[0] == ("id"@, JsonValue::Text(id)));
    assert(members[1] == ("message"@, JsonValue::Text(message)));
}

} // verus!
