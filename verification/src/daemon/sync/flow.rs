//! Before saves are moved: whether they may be, and what it takes.
//!
//! Two things are found out by others: whether the save locations of a game can be told at this
//! moment, and whether the program that moves saves can be run. Both come as an answer or as the
//! reason why not.

use crate::config::model;
use crate::config::model::{copy_text, Config, Game};
use crate::daemon::sync::actions;
use crate::daemon::sync::actions::{
    check_version, games_to_sync, pull_failed, pull_timed_out, pull_wanted, sync_targets,
    upload_wanted,
};
use crate::daemon::sync::identity;
use crate::json::{Json, JsonValue};
use crate::text::chars;
use crate::text::number;
use vstd::prelude::*;

verus! {

/// What it takes to move the saves of a game: its name, where its versions lie in the cloud, and
/// its identity there. `T` are texts.
pub struct Move<T> {
    pub name: T,
    pub key: T,
    pub cloud_id: Option<T>,
}

pub open spec fn move_view(own: Move<String>) -> Move<Seq<char>> {
    Move { name: own.name@, key: own.key@, cloud_id: chars::text_view(own.cloud_id) }
}

pub open spec fn answer_view(answer: Result<(), String>) -> Result<(), Seq<char>> {
    match answer {
        Ok(_) => Ok(()),
        Err(reason) => Err(reason@),
    }
}

/// What it takes to move the saves of a game, or why they cannot be moved now.
pub open spec fn movable(
    games: Seq<(Seq<char>, Game)>,
    id: Seq<char>,
    located: Result<(), Seq<char>>,
) -> Result<Move<Seq<char>>, Seq<char>> {
    match actions::syncable(games, id) {
        Err(reason) => Err(reason),
        Ok(name) => match located {
            Err(reason) => Err(reason),
            Ok(_) => Ok(
                Move {
                    name,
                    key: identity::cloud_key(id, model::game_at(games, id)),
                    cloud_id: model::game_at(games, id).cloud_id,
                },
            ),
        },
    }
}

pub open spec fn result_view(out: Result<Move<String>, String>) -> Result<
    Move<Seq<char>>,
    Seq<char>,
> {
    match out {
        Ok(own) => Ok(move_view(own)),
        Err(reason) => Err(reason@),
    }
}

/// What it takes to move the saves of a game, whoever asks for it.
pub fn plan_move(config: &Config, id: &str, located: &Result<(), String>) -> (out: Result<
    Move<String>,
    String,
>)
    ensures
        result_view(out) == movable(config@.games, id@, answer_view(*located)),
{
    let name = match sync_targets(config, id) {
        Ok(name) => name,
        Err(reason) => {
            return Err(reason);
        },
    };
    match located {
        Err(reason) => {
            return Err(reason.clone());
        },
        Ok(_) => {},
    }
    match config.game(id) {
        Some(game) => {
            let key = match &game.cloud_dir {
                Some(key) => key.clone(),
                None => id.to_owned(),
            };
            Ok(Move { name, key, cloud_id: copy_text(&game.cloud_id) })
        },
        None => Err(crate::text::glue::glue2("配置中找不到游戏: ", id)),
    }
}

// ---------------------------------------------------------------------------------------------
// Before a game starts

/// What is to be done about the saves before a game starts.
pub enum Pull {
    Nothing,
    /// They cannot be fetched; this is said, and the game starts.
    Report(Json),
    Go(Move<String>),
}

pub fn plan_pull(
    config: &Config,
    id: &str,
    located: &Result<(), String>,
    engine: &Result<(), String>,
) -> (plan: Pull)
    ensures
        plan is Nothing <==> !(config@.sync.enabled && model::has_game(config@.games, id@)
            && model::game_at(config@.games, id@).save_paths.len() > 0 && model::game_at(
            config@.games,
            id@,
        ).sync_enabled),
        plan is Go <==> plan !is Nothing && *located is Ok && *engine is Ok,
        if !actions::fetches_before(config@.sync.enabled, config@.games, id@) {
            plan is Nothing
        } else {
            match movable(config@.games, id@, answer_view(*located)) {
                Err(reason) => plan matches Pull::Report(report) && report@
                    == actions::pull_failure(reason),
                Ok(own) => match answer_view(*engine) {
                    Err(reason) => plan matches Pull::Report(report) && report@
                        == actions::pull_failure(reason),
                    Ok(_) => plan matches Pull::Go(mine) && move_view(mine) == own,
                },
            }
        },
{
    if !pull_wanted(config, id) {
        return Pull::Nothing;
    }
    match plan_move(config, id, located) {
        Err(reason) => Pull::Report(pull_failed(reason.as_str())),
        Ok(own) => match engine {
            Err(reason) => Pull::Report(pull_failed(reason.as_str())),
            Ok(_) => Pull::Go(own),
        },
    }
}

/// What is said of fetching the saves: the report on it, or that it took longer than the time
/// that a game waits for it.
pub fn finish_pull(report: Option<Json>, seconds: u64) -> (out: Json)
    ensures
        out@ == match report {
            Some(report) => report@,
            None => actions::pull_failure(
                "拉取超过 "@ + number::decimal(seconds as nat) + " 秒，已跳过"@,
            ),
        },
{
    match report {
        Some(report) => report,
        None => pull_timed_out(seconds),
    }
}

// ---------------------------------------------------------------------------------------------
// After a game

/// What is to be done about the saves after a game.
pub enum Upload {
    /// The sync is off, for all games or for this one.
    Off,
    /// There is nothing that could be uploaded, and why.
    Nothing(String),
    /// It cannot be done, and why.
    Fail(String),
    Go(Move<String>),
}

pub fn plan_upload(
    config: &Config,
    id: &str,
    located: &Result<(), String>,
    engine: &Result<(), String>,
) -> (plan: Upload)
    ensures
        plan is Off <==> !(config@.sync.enabled && model::has_game(config@.games, id@)
            && model::game_at(config@.games, id@).sync_enabled),
        plan is Go <==> plan !is Off && model::game_at(config@.games, id@).save_paths.len() > 0
            && *located is Ok && *engine is Ok,
        if !actions::uploads_after(config@.sync.enabled, config@.games, id@) {
            plan is Off
        } else {
            match movable(config@.games, id@, answer_view(*located)) {
                Err(reason) => plan matches Upload::Nothing(own) && own@ == reason,
                Ok(own) => match answer_view(*engine) {
                    Err(reason) => plan matches Upload::Fail(mine) && mine@ == reason,
                    Ok(_) => plan matches Upload::Go(mine) && move_view(mine) == own,
                },
            }
        },
{
    if !upload_wanted(config, id) {
        return Upload::Off;
    }
    match plan_move(config, id, located) {
        Err(reason) => Upload::Nothing(reason),
        Ok(own) => match engine {
            Err(reason) => Upload::Fail(reason.clone()),
            Ok(_) => Upload::Go(own),
        },
    }
}

// ---------------------------------------------------------------------------------------------
// When the user asks

/// The games of an upload that the user asked for: without the program that moves saves there is
/// none.
pub fn begin_upload(config: &Config, only: &Option<String>, engine: &Result<(), String>) -> (out:
    Result<Vec<String>, String>)
    ensures
        match answer_view(*engine) {
            Err(reason) => out is Err && out->Err_0@ == reason,
            Ok(_) => match out {
                Ok(ids) => ids@.len() > 0 && chars::texts(ids@) == (match chars::text_view(*only) {
                    Some(id) => seq![id],
                    None => actions::with_saves(config@.games, config@.games.len() as int),
                }),
                Err(message) => *only is None && actions::with_saves(
                    config@.games,
                    config@.games.len() as int,
                ).len() == 0 && message@ == "还没有任何游戏配置了存档位置"@,
            },
        },
{
    match engine {
        Err(reason) => Err(reason.clone()),
        Ok(_) => games_to_sync(config, only),
    }
}

/// What it takes to put the saves of a game back. A name that cannot be one of a version is
/// refused first.
pub open spec fn restorable(
    games: Seq<(Seq<char>, Game)>,
    id: Seq<char>,
    version: Option<Seq<char>>,
    engine: Result<(), Seq<char>>,
    located: Result<(), Seq<char>>,
) -> Result<Move<Seq<char>>, Seq<char>> {
    if version is Some && !actions::names_version(version.unwrap()) {
        Err(actions::bad_version(version.unwrap()))
    } else {
        match engine {
            Err(reason) => Err(reason),
            Ok(_) => movable(games, id, located),
        }
    }
}

pub fn plan_restore(
    config: &Config,
    id: &str,
    version: &Option<String>,
    engine: &Result<(), String>,
    located: &Result<(), String>,
) -> (out: Result<Move<String>, String>)
    ensures
        result_view(out) == restorable(
            config@.games,
            id@,
            chars::text_view(*version),
            answer_view(*engine),
            answer_view(*located),
        ),
{
    match version {
        Some(version) => match check_version(version.as_str()) {
            Ok(_) => {},
            Err(message) => {
                return Err(message);
            },
        },
        None => {},
    }
    match engine {
        Err(reason) => Err(reason.clone()),
        Ok(_) => plan_move(config, id, located),
    }
}

// ---------------------------------------------------------------------------------------------
// What holds of moving saves

/// The switch of a game stops what happens by itself, and not what the user asks for: whether
/// the saves of a game can be put back does not depend on it.
pub proof fn the_switch_is_about_what_happens_by_itself(
    games: Seq<(Seq<char>, Game)>,
    id: Seq<char>,
    version: Option<Seq<char>>,
    engine: Result<(), Seq<char>>,
    located: Result<(), Seq<char>>,
    on: bool,
)
    requires
        model::has_game(games, id),
    ensures
        restorable(
            model::with_game(
                games,
                id,
                Game { sync_enabled: on, ..model::game_at(games, id) },
            ),
            id,
            version,
            engine,
            located,
        ) == restorable(games, id, version, engine, located),
{
    let own = Game { sync_enabled: on, ..model::game_at(games, id) };
    let after = model::with_game(games, id, own);
    model::position_is_first(games, id, 0);
    model::position_is_first(after, id, 0);
    let at = model::position(games, id, 0).unwrap();
    assert(after[at].0 == id);
    assert forall|k: int| 0 <= k < at implies (#[trigger] after[k]).0 != id by {
        assert(after[k] == games[k]);
    }
}

/// What it takes to move the saves of a game of the library: its name, its identity in the cloud
/// where it has one, and the place that was noted for its versions, or else its own id.
pub proof fn a_game_is_moved_to_its_own_place(games: Seq<(Seq<char>, Game)>, i: int)
    requires
        model::ids_are_distinct(games),
        0 <= i < games.len(),
        games[i].1.save_paths.len() > 0,
    ensures
        match movable(games, games[i].0, Ok(())) {
            Ok(own) => {
                &&& own.name == games[i].1.name
                &&& own.cloud_id == games[i].1.cloud_id
                &&& games[i].1.cloud_dir is None ==> own.key == games[i].0
                &&& games[i].1.cloud_dir is Some ==> own.key == games[i].1.cloud_dir.unwrap()
            },
            Err(_) => false,
        },
        forall|reason: Seq<char>| #[trigger]
            movable(games, games[i].0, Err(reason)) == Err::<Move<Seq<char>>, Seq<char>>(reason),
{
    model::a_game_is_found_under_its_id(games, i);
}

/// A game without save locations is never moved, wherever they could be, and nor is one that is
/// not in the library.
pub proof fn nothing_is_moved_without_save_locations(
    games: Seq<(Seq<char>, Game)>,
    id: Seq<char>,
    located: Result<(), Seq<char>>,
)
    requires
        forall|i: int|
            0 <= i < games.len() && (#[trigger] games[i]).0 == id ==> games[i].1.save_paths.len()
                == 0,
    ensures
        movable(games, id, located) is Err,
{
    model::position_is_first(games, id, 0);
}

/// Saves are put back like they are moved otherwise, once the version has the form of one and the
/// program that moves saves can be run. A bad version is refused first, by its name.
pub proof fn a_version_is_put_back(
    games: Seq<(Seq<char>, Game)>,
    id: Seq<char>,
    version: Option<Seq<char>>,
    located: Result<(), Seq<char>>,
)
    ensures
        version is None ==> restorable(games, id, version, Ok(()), located) == movable(
            games,
            id,
            located,
        ),
        version is Some && actions::names_version(version.unwrap()) ==> restorable(
            games,
            id,
            version,
            Ok(()),
            located,
        ) == movable(games, id, located),
        version is Some && !actions::names_version(version.unwrap()) ==> forall|
            engine: Result<(), Seq<char>>,
        | #[trigger]
            restorable(games, id, version, engine, located) == Err::<Move<Seq<char>>, Seq<char>>(
                "不是合法的版本名: "@ + version.unwrap() + "（形如 20260911T101500Z）"@,
            ),
        version is None ==> forall|reason: Seq<char>| #[trigger]
            restorable(games, id, version, Err(reason), located) == Err::<
                Move<Seq<char>>,
                Seq<char>,
            >(reason),
{
}

} // verus!
