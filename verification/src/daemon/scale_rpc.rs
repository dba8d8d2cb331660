//! Requests about a game that runs: scaling it, and the resolution that it turns out to have.

use crate::config::model;
use crate::config::model::{Config, Game, Settings};
use crate::config::profile;
use crate::config::profile::Profile;
use crate::daemon::session::Session;
use crate::json;
use crate::json::{no_members, number, text, with, Json, JsonValue};
use crate::text::chars;
use crate::text::chars::same_text;
use crate::text::glue::{glue2, glue3};
use crate::text::split;
use crate::text::split::joined;
use vstd::prelude::*;

verus! {

/// More steps than this make no difference.
pub const MAX_STEPS: u32 = 20;

pub open spec fn session_at(sessions: Seq<Session>, id: Seq<char>, from: int) -> Option<int>
    decreases sessions.len() - from,
{
    if from < 0 || from >= sessions.len() {
        None
    } else if sessions[from].session_id@ == id {
        Some(from)
    } else {
        session_at(sessions, id, from + 1)
    }
}

/// The session under an id: one that has ended is not found.
pub fn lookup_session<'a>(sessions: &'a Vec<Session>, id: &str) -> (out: Result<&'a Session, String>)
    ensures
        match out {
            Ok(session) => session_at(sessions@, id@, 0) is Some && *session
                == sessions@[session_at(sessions@, id@, 0).unwrap()],
            Err(message) => session_at(sessions@, id@, 0) is None && message@
                == "session not found: "@ + id@,
        },
{
    let mut i: usize = 0;
    while i < sessions.len()
        invariant
            i <= sessions@.len(),
            session_at(sessions@, id@, 0) == session_at(sessions@, id@, i as int),
        decreases sessions@.len() - i,
    {
        if same_text(sessions[i].session_id.as_str(), id) {
            return Ok(&sessions[i]);
        }
        i += 1;
    }
    Err(glue2("session not found: ", id))
}

// ---------------------------------------------------------------------------------------------
// Actions

/// A session that an action had an effect on.
pub struct Applied {
    pub session: String,
    pub detail: String,
}

/// A session that an action failed on.
pub struct Failed {
    pub session: String,
    pub error: String,
}

pub open spec fn failure_words(failed: Seq<Failed>) -> Seq<Seq<char>> {
    failed.map_values(|one: Failed| one.session@ + ": "@ + one.error@)
}

/// Why an action had no effect at all.
pub open spec fn no_effect(session: Session, failed: Seq<Failed>) -> Seq<char> {
    if failed.len() > 0 {
        split::join(failure_words(failed), "; "@)
    } else if session.gamescope_pid is None {
        "会话 "@ + session.session_id@ + " 只是观测（watch_only），kotori 没有它的 gamescope 可调"@
    } else {
        "没有正在运行的游戏"@
    }
}

pub open spec fn applied_json(one: Applied) -> JsonValue {
    JsonValue::Object(
        seq![
            ("session"@, JsonValue::Text(one.session@)),
            ("detail"@, JsonValue::Text(one.detail@)),
        ],
    )
}

pub open spec fn failed_json(one: Failed) -> JsonValue {
    JsonValue::Object(
        seq![
            ("session"@, JsonValue::Text(one.session@)),
            ("error"@, JsonValue::Text(one.error@)),
        ],
    )
}

pub open spec fn action_json(
    action: Seq<char>,
    applied: Seq<Applied>,
    failed: Seq<Failed>,
) -> JsonValue {
    JsonValue::Object(
        seq![
            ("success"@, JsonValue::Bool(true)),
            ("action"@, JsonValue::Text(action)),
            ("sessions"@, JsonValue::List(applied.map_values(|one: Applied| applied_json(one)))),
            ("failed"@, JsonValue::List(failed.map_values(|one: Failed| failed_json(one)))),
        ],
    )
}

fn failure_text(failed: &Vec<Failed>) -> (out: String)
    ensures
        out@ == split::join(failure_words(failed@), "; "@),
{
    let mut list: Vec<String> = Vec::new();
    let mut i: usize = 0;
    while i < failed.len()
        invariant
            i <= failed@.len(),
            list@.len() == i,
            forall|k: int|
                0 <= k < i ==> (#[trigger] list@[k])@ == failed@[k].session@ + ": "@
                    + failed@[k].error@,
        decreases failed@.len() - i,
    {
        list.push(glue3(failed[i].session.as_str(), ": ", failed[i].error.as_str()));
        i += 1;
    }
    assert(chars::texts(list@) =~= failure_words(failed@));
    joined(&list, "; ")
}

fn applied_list(applied: &Vec<Applied>) -> (out: Json)
    ensures
        out@ == JsonValue::List(applied@.map_values(|one: Applied| applied_json(one))),
{
    let mut items: Vec<Json> = Vec::new();
    let mut i: usize = 0;
    while i < applied.len()
        invariant
            i <= applied@.len(),
            items@.len() == i,
            forall|k: int| 0 <= k < i ==> (#[trigger] items@[k])@ == applied_json(applied@[k]),
        decreases applied@.len() - i,
    {
        let one = with(no_members(), "session", text(applied[i].session.as_str()));
        let one = with(one, "detail", text(applied[i].detail.as_str()));
        assert(json::members_view(one@) =~= seq![
            ("session"@, JsonValue::Text(applied@[i as int].session@)),
            ("detail"@, JsonValue::Text(applied@[i as int].detail@)),
        ]);
        items.push(Json::Object(one));
        i += 1;
    }
    proof {
        json::items_view_items(items@);
        assert(json::items_view(items@) =~= applied@.map_values(|one: Applied| applied_json(one)));
    }
    Json::List(items)
}

fn failed_list(failed: &Vec<Failed>) -> (out: Json)
    ensures
        out@ == JsonValue::List(failed@.map_values(|one: Failed| failed_json(one))),
{
    let mut items: Vec<Json> = Vec::new();
    let mut i: usize = 0;
    while i < failed.len()
        invariant
            i <= failed@.len(),
            items@.len() == i,
            forall|k: int| 0 <= k < i ==> (#[trigger] items@[k])@ == failed_json(failed@[k]),
        decreases failed@.len() - i,
    {
        let one = with(no_members(), "session", text(failed[i].session.as_str()));
        let one = with(one, "error", text(failed[i].error.as_str()));
        assert(json::members_view(one@) =~= seq![
            ("session"@, JsonValue::Text(failed@[i as int].session@)),
            ("error"@, JsonValue::Text(failed@[i as int].error@)),
        ]);
        items.push(Json::Object(one));
        i += 1;
    }
    proof {
        json::items_view_items(items@);
        assert(json::items_view(items@) =~= failed@.map_values(|one: Failed| failed_json(one)));
    }
    Json::List(items)
}

/// What is said of an action. One without any effect is an error, with the reason; one that
/// had an effect on some sessions names those on which it had none.
pub fn run_action(
    session: &Session,
    action: &str,
    applied: &Vec<Applied>,
    failed: &Vec<Failed>,
) -> (out: Result<Json, String>)
    ensures
        match out {
            Ok(reply) => applied@.len() > 0 && reply@ == action_json(action@, applied@, failed@),
            Err(message) => applied@.len() == 0 && message@ == action@ + " 没有生效："@ + no_effect(
                *session,
                failed@,
            ),
        },
{
    if applied.len() == 0 {
        let detail = if failed.len() > 0 {
            failure_text(failed)
        } else if session.gamescope_pid.is_none() {
            glue3(
                "会话 ",
                session.session_id.as_str(),
                " 只是观测（watch_only），kotori 没有它的 gamescope 可调",
            )
        } else {
            "没有正在运行的游戏".to_owned()
        };
        return Err(glue3(action, " 没有生效：", detail.as_str()));
    }
    let out = with(no_members(), "success", Json::Bool(true));
    let out = with(out, "action", text(action));
    let out = with(out, "sessions", applied_list(applied));
    let out = with(out, "failed", failed_list(failed));
    assert(json::members_view(out@) =~= seq![
        ("success"@, JsonValue::Bool(true)),
        ("action"@, JsonValue::Text(action@)),
        ("sessions"@, JsonValue::List(applied@.map_values(|one: Applied| applied_json(one)))),
        ("failed"@, JsonValue::List(failed@.map_values(|one: Failed| failed_json(one)))),
    ]);
    Ok(Json::Object(out))
}

/// A step of the sharpness, in the sense of the user: sharper or softer.
#[derive(Debug, Clone, Copy, PartialEq, Eq, Structural)]
pub enum Sharpness {
    Sharper,
    Softer,
}

/// How a change of the sharpness is made: in which direction, and in how many steps.
pub open spec fn sharpness_steps(delta: i32) -> Option<(Sharpness, u32)> {
    if delta == 0 {
        None
    } else {
        let size = if delta > 0 {
            delta as int
        } else {
            -delta
        };
        Some(
            (
                if delta > 0 {
                    Sharpness::Sharper
                } else {
                    Sharpness::Softer
                },
                if size > MAX_STEPS {
                    MAX_STEPS
                } else {
                    size as u32
                },
            ),
        )
    }
}

pub fn adjust_sharpness(delta: i32) -> (out: Result<(Sharpness, u32), String>)
    ensures
        match out {
            Ok(steps) => sharpness_steps(delta) == Some(steps),
            Err(message) => sharpness_steps(delta) is None && message@ == "锐度步长不能为 0"@,
        },
{
    if delta == 0 {
        return Err("锐度步长不能为 0".to_owned());
    }
    if delta > 0 {
        let steps: u32 = if delta > 20 {
            MAX_STEPS
        } else {
            delta as u32
        };
        Ok((Sharpness::Sharper, steps))
    } else {
        let steps: u32 = if delta < -20 {
            MAX_STEPS
        } else {
            (-delta) as u32
        };
        Ok((Sharpness::Softer, steps))
    }
}

/// The reply to a change of the sharpness all of whose steps were made.
pub fn sharpness_reply(steps: u32) -> (out: Json)
    ensures
        out@ == JsonValue::Object(
            seq![("success"@, JsonValue::Bool(true)), ("steps"@, JsonValue::Number(steps as int))],
        ),
{
    let out = with(no_members(), "success", Json::Bool(true));
    let out = with(out, "steps", number(steps as u64));
    assert(json::members_view(out@) =~= seq![
        ("success"@, JsonValue::Bool(true)),
        ("steps"@, JsonValue::Number(steps as int)),
    ]);
    Json::Object(out)
}

/// The settings that gamescope has right now.
pub struct Live {
    pub filter: String,
    pub scaler: String,
    pub sharpness: Option<u32>,
}

/// The state of a session, with the settings of the moment where they can be read.
pub open spec fn status_with_live(
    status: Seq<(Seq<char>, JsonValue)>,
    live: Option<Live>,
) -> Seq<(Seq<char>, JsonValue)> {
    match live {
        Some(live) => status.push(
            (
                "live"@,
                JsonValue::Object(
                    seq![
                        ("filter"@, JsonValue::Text(live.filter@)),
                        ("scaler"@, JsonValue::Text(live.scaler@)),
                        ("sharpness"@, json::optional_number(live.sharpness)),
                    ],
                ),
            ),
        ),
        None => status,
    }
}

pub fn scale_status(status: Vec<(String, Json)>, live: Option<Live>) -> (out: Json)
    ensures
        out@ == JsonValue::Object(status_with_live(json::members_view(status@), live)),
{
    match live {
        Some(live) => {
            let own = with(no_members(), "filter", text(live.filter.as_str()));
            let own = with(own, "scaler", text(live.scaler.as_str()));
            let own = with(own, "sharpness", json::number_or_null(live.sharpness));
            assert(json::members_view(own@) =~= seq![
                ("filter"@, JsonValue::Text(live.filter@)),
                ("scaler"@, JsonValue::Text(live.scaler@)),
                ("sharpness"@, json::optional_number(live.sharpness)),
            ]);
            Json::Object(with(status, "live", Json::Object(own)))
        },
        None => Json::Object(status),
    }
}

// ---------------------------------------------------------------------------------------------
// The resolution of a game

/// A game with the resolution that was found: only one that names none takes it.
pub open spec fn with_resolution(game: Game, size: (u32, u32)) -> Game {
    let own = game.scale_profile;
    if profile::whole_size(own.internal_width, own.internal_height) is Some {
        game
    } else {
        Game {
            scale_profile: Profile {
                internal_width: Some(size.0),
                internal_height: Some(size.1),
                ..own
            },
            ..game
        }
    }
}

pub open spec fn takes_resolution(games: Seq<(Seq<char>, Game)>, id: Seq<char>) -> bool {
    model::has_game(games, id) && ({
        let own = model::game_at(games, id).scale_profile;
        profile::whole_size(own.internal_width, own.internal_height) is None
    })
}

/// Takes down the resolution that a running game turned out to have. What the user filled in,
/// perhaps in the meantime, stays; a game that was removed is left alone.
pub fn note_resolution(config: &mut Config, id: &str, size: (u32, u32)) -> (written: bool)
    ensures
        old(config).wf() ==> final(config).wf(),
        written == takes_resolution(old(config)@.games, id@),
        final(config)@ == if written {
            Settings {
                games: model::with_game(
                    old(config)@.games,
                    id@,
                    with_resolution(model::game_at(old(config)@.games, id@), size),
                ),
                ..old(config)@
            }
        } else {
            old(config)@
        },
{
    let at = match config.find(id) {
        Some(at) => at,
        None => {
            return false;
        },
    };
    let ghost games = config@.games;
    assert(games[at as int] == (config.games@[at as int].0@, config.games@[at as int].1@));
    if config.games[at].1.scale_profile.explicit_internal_size().is_some() {
        return false;
    }
    let mut game = config.games[at].1.copy();
    game.scale_profile.internal_width = Some(size.0);
    game.scale_profile.internal_height = Some(size.1);
    config.put_game(at, game);
    true
}

/// A resolution is taken down once: a second one makes no difference.
pub proof fn the_first_resolution_stays(game: Game, first: (u32, u32), second: (u32, u32))
    requires
        first.0 > 0 && first.1 > 0,
    ensures
        with_resolution(with_resolution(game, first), second) == with_resolution(game, first),
{
}

/// A change of the sharpness by up to twenty takes as many steps as were asked for.
pub proof fn sharpness_moves_as_far_as_asked(delta: i32)
    requires
        -20 <= delta <= 20,
        delta != 0,
    ensures
        sharpness_steps(delta) == Some(
            (
                if delta > 0 {
                    Sharpness::Sharper
                } else {
                    Sharpness::Softer
                },
                (if delta > 0 {
                    delta as int
                } else {
                    -delta
                }) as u32,
            ),
        ),
{
}

/// A session is found under its id: the first one that has it.
pub proof fn a_session_is_found_under_its_id(sessions: Seq<Session>, id: Seq<char>, from: int)
    requires
        0 <= from,
    ensures
        match session_at(sessions, id, from) {
            Some(i) => from <= i < sessions.len() && sessions[i].session_id@ == id && forall|k: int|
                from <= k < i ==> (#[trigger] sessions[k]).session_id@ != id,
            None => forall|k: int|
                from <= k < sessions.len() ==> (#[trigger] sessions[k]).session_id@ != id,
        },
    decreases sessions.len() - from,
{
    if from < sessions.len() && sessions[from].session_id@ != id {
        a_session_is_found_under_its_id(sessions, id, from + 1);
    }
}

/// A change of the sharpness goes in the direction that was asked for, in twenty steps at most;
/// no change is none.
pub proof fn sharpness_moves_twenty_steps_at_most(delta: i32)
    ensures
        delta == 0 ==> sharpness_steps(delta) is None,
        delta > 20 ==> sharpness_steps(delta) == Some((Sharpness::Sharper, 20u32)),
        delta < -20 ==> sharpness_steps(delta) == Some((Sharpness::Softer, 20u32)),
{
}

/// A resolution that was found is taken down for a game that names none, as it was found, and
/// nothing else of the game changes; one that names its own keeps it.
pub proof fn a_found_resolution_is_taken_down(game: Game, size: (u32, u32))
    ensures
        ({
            let own = game.scale_profile;
            let named = own.internal_width is Some && own.internal_height is Some
                && own.internal_width.unwrap() > 0 && own.internal_height.unwrap() > 0;
            let after = with_resolution(game, size);
            &&& named ==> after == game
            &&& !named ==> after == (Game {
                scale_profile: Profile {
                    internal_width: Some(size.0),
                    internal_height: Some(size.1),
                    ..own
                },
                ..game
            })
        }),
{
}

/// Whether a resolution is taken down goes by the game under the id.
pub proof fn a_resolution_is_taken_down_for_its_game(games: Seq<(Seq<char>, Game)>, i: int)
    requires
        model::ids_are_distinct(games),
        0 <= i < games.len(),
    ensures
        ({
            let own = games[i].1.scale_profile;
            takes_resolution(games, games[i].0) <==> own.internal_width is None
                || own.internal_height is None || own.internal_width == Some(0u32)
                || own.internal_height == Some(0u32)
        }),
{
    model::a_game_is_found_under_its_id(games, i);
}

/// What is said of an action: that it had an effect, which action, on which sessions, and on
/// which it failed.
pub proof fn an_action_is_reported(action: Seq<char>, applied: Seq<Applied>, failed: Seq<Failed>)
    ensures
        json::has_member(action_json(action, applied, failed), "success"@, JsonValue::Bool(true)),
        json::has_member(action_json(action, applied, failed), "action"@, JsonValue::Text(action)),
        exists|list: Seq<JsonValue>| #[trigger]
            json::has_member(
                action_json(action, applied, failed),
                "sessions"@,
                JsonValue::List(list),
            ) && list.len() == applied.len() && forall|i: int|
                0 <= i < applied.len() ==> json::has_member(
                    #[trigger] list[i],
                    "session"@,
                    JsonValue::Text(applied[i].session@),
                ) && json::has_member(list[i], "detail"@, JsonValue::Text(applied[i].detail@)),
        exists|list: Seq<JsonValue>| #[trigger]
            json::has_member(
                action_json(action, applied, failed),
                "failed"@,
                JsonValue::List(list),
            ) && list.len() == failed.len() && forall|i: int|
                0 <= i < failed.len() ==> json::has_member(
                    #[trigger] list[i],
                    "session"@,
                    JsonValue::Text(failed[i].session@),
                ) && json::has_member(list[i], "error"@, JsonValue::Text(failed[i].error@)),
{
    let value = action_json(action, applied, failed);
    let members = value->Object_0;
    assert(members[0] == ("success"@, JsonValue::Bool(true)));
    assert(members[1] == ("action"@, JsonValue::Text(action)));
    let did = applied.map_values(|one: Applied| applied_json(one));
    let not = failed.map_values(|one: Failed| failed_json(one));
    assert(members[2] == ("sessions"@, JsonValue::List(did)));
    assert(members[3] == ("failed"@, JsonValue::List(not)));
    assert forall|i: int| 0 <= i < applied.len() implies json::has_member(
        #[trigger] did[i],
        "session"@,
        JsonValue::Text(applied[i].session@),
    ) && json::has_member(did[i], "detail"@, JsonValue::Text(applied[i].detail@)) by {
        let own = did[i]->Object_0;
        assert(own[0] == ("session"@, JsonValue::Text(applied[i].session@)));
        assert(own[1] == ("detail"@, JsonValue::Text(applied[i].detail@)));
    }
    assert forall|i: int| 0 <= i < failed.len() implies json::has_member(
        #[trigger] not[i],
        "session"@,
        JsonValue::Text(failed[i].session@),
    ) && json::has_member(not[i], "error"@, JsonValue::Text(failed[i].error@)) by {
        let own = not[i]->Object_0;
        assert(own[0] == ("session"@, JsonValue::Text(failed[i].session@)));
        assert(own[1] == ("error"@, JsonValue::Text(failed[i].error@)));
    }
    assert(json::has_member(value, "sessions"@, JsonValue::List(did)));
    assert(json::has_member(value, "failed"@, JsonValue::List(not)));
}

/// Why an action had no effect: what went wrong where something did; else that the session is
/// only followed, where it is; else that no game runs.
pub proof fn why_nothing_happened(session: Session, failed: Seq<Failed>)
    ensures
        failed.len() == 1 ==> no_effect(session, failed) == failed[0].session@ + ": "@
            + failed[0].error@,
        failed.len() > 0 ==> no_effect(session, failed) == split::join(
            failed.map_values(|one: Failed| one.session@ + ": "@ + one.error@),
            "; "@,
        ),
        failed.len() == 0 && session.gamescope_pid is None ==> no_effect(session, failed)
            == "会话 "@ + session.session_id@
            + " 只是观测（watch_only），kotori 没有它的 gamescope 可调"@,
        failed.len() == 0 && session.gamescope_pid is Some ==> no_effect(session, failed)
            == "没有正在运行的游戏"@,
{
    let words = failure_words(failed);
    assert(words =~= failed.map_values(|one: Failed| one.session@ + ": "@ + one.error@));
    if failed.len() == 1 {
        assert(words =~= seq![failed[0].session@ + ": "@ + failed[0].error@]);
        split::one_piece_is_itself(words[0], "; "@);
    }
}

/// The settings that gamescope has now are added to the state of a session, where they could be
/// read, and nothing else of it changes.
pub proof fn the_settings_of_the_moment_are_added(
    status: Seq<(Seq<char>, JsonValue)>,
    live: Live,
)
    ensures
        status_with_live(status, None) == status,
        status_with_live(status, Some(live)).drop_last() == status,
        status_with_live(status, Some(live)).last().0 == "live"@,
        ({
            let own = status_with_live(status, Some(live)).last().1;
            &&& json::has_member(own, "filter"@, JsonValue::Text(live.filter@))
            &&& json::has_member(own, "scaler"@, JsonValue::Text(live.scaler@))
            &&& json::has_member(own, "sharpness"@, json::optional_number(live.sharpness))
        }),
{
    let all = status_with_live(status, Some(live));
    assert(all.drop_last() =~= status);
    let own = all.last().1->Object_0;
    assert(own[0] == ("filter"@, JsonValue::Text(live.filter@)));
    assert(own[1] == ("scaler"@, JsonValue::Text(live.scaler@)));
    assert(own[2] == ("sharpness"@, json::optional_number(live.sharpness)));
}

/// A resolution is not taken down for a game that is not there.
pub proof fn a_removed_game_takes_no_resolution(games: Seq<(Seq<char>, Game)>, id: Seq<char>)
    requires
        !model::has_game(games, id),
    ensures
        !takes_resolution(games, id),
{
}

/// What is said of a game that an action took effect on, and of one that it did not.
pub proof fn what_is_said_of_each_game(one: Applied, other: Failed)
    ensures
        json::has_member(applied_json(one), "session"@, JsonValue::Text(one.session@)),
        json::has_member(applied_json(one), "detail"@, JsonValue::Text(one.detail@)),
        json::has_member(failed_json(other), "session"@, JsonValue::Text(other.session@)),
        json::has_member(failed_json(other), "error"@, JsonValue::Text(other.error@)),
{
    let a = seq![
        ("session"@, JsonValue::Text(one.session@)),
        ("detail"@, JsonValue::Text(one.detail@)),
    ];
    assert(applied_json(one) == JsonValue::Object(a));
    assert(a[0] == ("session"@, JsonValue::Text(one.session@)));
    assert(a[1] == ("detail"@, JsonValue::Text(one.detail@)));
    let b = seq![
        ("session"@, JsonValue::Text(other.session@)),
        ("error"@, JsonValue::Text(other.error@)),
    ];
    assert(failed_json(other) == JsonValue::Object(b));
    assert(b[0] == ("session"@, JsonValue::Text(other.session@)));
    assert(b[1] == ("error"@, JsonValue::Text(other.error@)));
}

} // verus!
