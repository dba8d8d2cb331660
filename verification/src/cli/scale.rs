//! `kotori scale`: which game is meant, and what came of it.

use crate::cli::command::{push_line, ScaleCommand};
use crate::json;
use crate::json::{no_members, signed, text, with, Json, JsonValue};
use crate::text::chars;
use crate::text::glue::{glue2, glue3, glue4, glue5};
use crate::text::number;
use crate::text::number::number_text;
use crate::text::split;
use crate::text::split::joined;
use vstd::prelude::*;

verus! {

// ---------------------------------------------------------------------------------------------
// What the daemon is asked

/// A request about a running game.
pub struct ScaleCall {
    pub method: &'static str,
    /// The action, where the request names one.
    pub action: Option<&'static str>,
    pub delta: Option<i32>,
    pub session_id: Option<String>,
}

pub open spec fn name_view(name: Option<&'static str>) -> Option<Seq<char>> {
    match name {
        Some(name) => Some(name@),
        None => None,
    }
}

pub open spec fn session_of(command: ScaleCommand) -> Option<String> {
    match command {
        ScaleCommand::Status => None,
        ScaleCommand::Fsr { session_id } => session_id,
        ScaleCommand::Nis { session_id } => session_id,
        ScaleCommand::Integer { session_id } => session_id,
        ScaleCommand::Linear { session_id } => session_id,
        ScaleCommand::Sharpness { session_id, .. } => session_id,
        ScaleCommand::Toggle { session_id } => session_id,
        ScaleCommand::Up { session_id } => session_id,
        ScaleCommand::Down { session_id } => session_id,
        ScaleCommand::Reset { session_id } => session_id,
        ScaleCommand::Fullscreen { session_id } => session_id,
    }
}

/// The method, the action and the number of steps that a command asks for.
pub open spec fn asked(command: ScaleCommand) -> (Seq<char>, Option<Seq<char>>, Option<i32>) {
    match command {
        ScaleCommand::Status => ("daemon.status"@, None, None),
        ScaleCommand::Fsr { .. } => ("scale.toggle_fsr"@, None, None),
        ScaleCommand::Nis { .. } => ("scale.action"@, Some("toggle-nis"@), None),
        ScaleCommand::Integer { .. } => ("scale.toggle_integer"@, None, None),
        ScaleCommand::Linear { .. } => ("scale.action"@, Some("toggle-linear"@), None),
        ScaleCommand::Sharpness { delta, .. } => ("scale.adjust_sharpness"@, None, Some(delta)),
        ScaleCommand::Toggle { .. } => ("scale.action"@, Some("toggle-scale"@), None),
        ScaleCommand::Up { .. } => ("scale.action"@, Some("scale-up"@), None),
        ScaleCommand::Down { .. } => ("scale.action"@, Some("scale-down"@), None),
        ScaleCommand::Reset { .. } => ("scale.action"@, Some("reset-scale"@), None),
        ScaleCommand::Fullscreen { .. } => ("scale.action"@, Some("toggle-fullscreen"@), None),
    }
}

fn named(action: &'static str, session_id: Option<String>) -> (call: ScaleCall)
    ensures
        call.method@ == "scale.action"@,
        call.action == Some(action),
        call.delta is None,
        call.session_id == session_id,
{
    ScaleCall { method: "scale.action", action: Some(action), delta: None, session_id }
}

/// What has to be asked for a command; the status is put together from several answers.
pub fn scale_call(command: ScaleCommand) -> (call: Option<ScaleCall>)
    ensures
        match call {
            Some(call) => !(command is Status) && (
                call.method@,
                name_view(call.action),
                call.delta,
            ) == asked(command) && call.session_id == session_of(command),
            None => command is Status,
        },
{
    match command {
        ScaleCommand::Status => None,
        ScaleCommand::Fsr { session_id } => Some(
            ScaleCall { method: "scale.toggle_fsr", action: None, delta: None, session_id },
        ),
        ScaleCommand::Nis { session_id } => Some(named("toggle-nis", session_id)),
        ScaleCommand::Integer { session_id } => Some(
            ScaleCall { method: "scale.toggle_integer", action: None, delta: None, session_id },
        ),
        ScaleCommand::Linear { session_id } => Some(named("toggle-linear", session_id)),
        ScaleCommand::Sharpness { delta, session_id } => Some(
            ScaleCall {
                method: "scale.adjust_sharpness",
                action: None,
                delta: Some(delta),
                session_id,
            },
        ),
        ScaleCommand::Toggle { session_id } => Some(named("toggle-scale", session_id)),
        ScaleCommand::Up { session_id } => Some(named("scale-up", session_id)),
        ScaleCommand::Down { session_id } => Some(named("scale-down", session_id)),
        ScaleCommand::Reset { session_id } => Some(named("reset-scale", session_id)),
        ScaleCommand::Fullscreen { session_id } => Some(named("toggle-fullscreen", session_id)),
    }
}

pub open spec fn call_params(session: Seq<char>, action: Option<Seq<char>>, delta: Option<i32>) -> Seq<
    (Seq<char>, JsonValue),
> {
    let start = seq![("session_id"@, JsonValue::Text(session))];
    let named = match action {
        Some(action) => start.push(("action"@, JsonValue::Text(action))),
        None => start,
    };
    match delta {
        Some(delta) => named.push(("delta"@, JsonValue::Number(delta as int))),
        None => named,
    }
}

impl ScaleCall {
    /// What goes with the request, once it is known which game is meant.
    pub fn params(&self, session: &str) -> (params: Vec<(String, Json)>)
        ensures
            json::members_view(params@) == call_params(
                session@,
                name_view(self.action),
                self.delta,
            ),
    {
        let params = with(no_members(), "session_id", text(session));
        assert(json::members_view(params@) =~= seq![("session_id"@, JsonValue::Text(session@))]);
        let params = match self.action {
            Some(action) => with(params, "action", text(action)),
            None => params,
        };
        match self.delta {
            Some(delta) => with(params, "delta", signed(delta as i64)),
            None => params,
        }
    }

    /// What the action is called where the answer does not say.
    pub fn name(&self) -> (name: &'static str)
        ensures
            name@ == match self.action {
                Some(action) => action@,
                None => self.method@,
            },
    {
        match self.action {
            Some(action) => action,
            None => self.method,
        }
    }
}

// ---------------------------------------------------------------------------------------------
// Which game is meant

pub open spec fn running(status: JsonValue) -> Seq<JsonValue> {
    match json::as_list(json::at(status, "sessions"@)) {
        Some(sessions) => sessions,
        None => Seq::empty(),
    }
}

pub open spec fn choice_line(session: JsonValue) -> Seq<char> {
    "  "@ + json::text_or(json::text_at(session, "session_id"@), "?"@) + " — "@ + json::text_or(
        json::text_at(session, "game_id"@),
        "?"@,
    )
}

/// The session that is meant. One that is named is taken as it is; otherwise it is the one game
/// that runs. Of several nobody guesses which.
pub open spec fn meant(status: JsonValue, given: Option<Seq<char>>) -> Result<Seq<char>, Seq<char>> {
    let sessions = running(status);
    match given {
        Some(id) => Ok(id),
        None => if sessions.len() == 0 {
            Err("没有正在运行的游戏（缩放只对 kotori 启动、且还在运行的游戏生效）"@)
        } else if sessions.len() == 1 {
            Ok(json::text_or(json::text_at(sessions[0], "session_id"@), ""@))
        } else {
            Err(
                "同时有多个游戏在运行，请指定 session_id：\n"@ + split::join(
                    sessions.map_values(|session: JsonValue| choice_line(session)),
                    "\n"@,
                ),
            )
        },
    }
}

fn choices(sessions: &Vec<Json>) -> (out: Vec<String>)
    ensures
        chars::texts(out@) == json::items_view(sessions@).map_values(
            |session: JsonValue| choice_line(session),
        ),
{
    proof {
        json::items_view_items(sessions@);
    }
    let mut out: Vec<String> = Vec::new();
    let mut i: usize = 0;
    while i < sessions.len()
        invariant
            i <= sessions@.len(),
            out@.len() == i,
            forall|k: int| 0 <= k < i ==> (#[trigger] out@[k])@ == choice_line(sessions@[k]@),
        decreases sessions@.len() - i,
    {
        out.push(
            glue4(
                "  ",
                sessions[i].text_at_or("session_id", "?"),
                " — ",
                sessions[i].text_at_or("game_id", "?"),
            ),
        );
        i += 1;
    }
    assert(chars::texts(out@) =~= json::items_view(sessions@).map_values(
        |session: JsonValue| choice_line(session),
    ));
    out
}

pub fn resolve_session(status: &Json, given: Option<String>) -> (out: Result<String, String>)
    ensures
        match out {
            Ok(session) => meant(
                status@,
                match given {
                    Some(id) => Some(id@),
                    None => None,
                },
            ) == Ok::<Seq<char>, Seq<char>>(session@),
            Err(message) => meant(
                status@,
                match given {
                    Some(id) => Some(id@),
                    None => None,
                },
            ) == Err::<Seq<char>, Seq<char>>(message@),
        },
{
    match given {
        Some(id) => {
            return Ok(id);
        },
        None => {},
    }
    let nothing = "没有正在运行的游戏（缩放只对 kotori 启动、且还在运行的游戏生效）";
    match status.list_at("sessions") {
        Some(sessions) => {
            proof {
                json::items_view_items(sessions@);
            }
            if sessions.len() == 0 {
                Err(nothing.to_owned())
            } else if sessions.len() == 1 {
                Ok(sessions[0].text_at_or("session_id", "").to_owned())
            } else {
                let list = joined(&choices(sessions), "\n");
                Err(
                    glue2(
                        "同时有多个游戏在运行，请指定 session_id：\n",
                        list.as_str(),
                    ),
                )
            }
        },
        None => Err(nothing.to_owned()),
    }
}

// ---------------------------------------------------------------------------------------------
// What runs, and how it is scaled now

pub open spec fn seconds_of(session: JsonValue) -> nat {
    match json::as_unsigned(json::at(session, "elapsed_secs"@)) {
        Some(n) => n as nat,
        None => 0,
    }
}

pub open spec fn running_line(session: JsonValue) -> Seq<char> {
    "  "@ + json::text_or(json::text_at(session, "session_id"@), "?"@) + " — "@ + json::text_or(
        json::text_at(session, "game_id"@),
        "?"@,
    ) + "（已运行 "@ + number::decimal(seconds_of(session)) + "s）"@
}

/// Nobody scales the game: it was only seen to run.
pub open spec fn only_watched(session: JsonValue) -> bool {
    json::at(session, "gamescope_pid"@) is Null
}

pub open spec fn live_line(answer: JsonValue) -> Seq<char> {
    let live = json::at(answer, "live"@);
    match live {
        JsonValue::Object(_) => "      现在：滤镜 "@ + json::text_or(
            json::text_at(live, "filter"@),
            "?"@,
        ) + " / 缩放器 "@ + json::text_or(json::text_at(live, "scaler"@), "?"@) + " / 锐度 "@
            + number::decimal(
            match json::as_unsigned(json::at(live, "sharpness"@)) {
                Some(n) => n as nat,
                None => 0,
            },
        ),
        _ => "      现在：读不到（Xwayland 还没就绪,或者已经退出）"@,
    }
}

/// Whether the daemon has to be asked how a game is scaled.
pub fn is_scaled(session: &Json) -> (yes: bool)
    ensures
        yes == !only_watched(session@),
{
    match session.get("gamescope_pid") {
        Some(pid) => !pid.is_null(),
        None => false,
    }
}

/// How a game is scaled now, as the daemon answers.
pub fn live_text(answer: &Json) -> (line: String)
    ensures
        line@ == live_line(answer@),
{
    match answer.get("live") {
        Some(live) => match live {
            Json::Object(_) => {
                let start = glue5(
                    "      现在：滤镜 ",
                    live.text_at_or("filter", "?"),
                    " / 缩放器 ",
                    live.text_at_or("scaler", "?"),
                    " / 锐度 ",
                );
                glue2(start.as_str(), number_text(live.number_at("sharpness")).as_str())
            },
            _ => "      现在：读不到（Xwayland 还没就绪,或者已经退出）".to_owned(),
        },
        None => "      现在：读不到（Xwayland 还没就绪,或者已经退出）".to_owned(),
    }
}

/// The lines about a session; `answer` is what the daemon says of how it is scaled.
pub open spec fn session_lines(session: JsonValue, answer: Json) -> Seq<Seq<char>> {
    seq![
        running_line(session),
        if only_watched(session) {
            "      仅观测（watch_only）：kotori 没有它的 gamescope 可调"@
        } else {
            live_line(answer@)
        },
    ]
}

/// The lines about the first n sessions.
pub open spec fn lines_upto(sessions: Seq<JsonValue>, answers: Seq<Json>, n: int) -> Seq<Seq<char>>
    decreases n,
{
    if n <= 0 {
        Seq::empty()
    } else {
        lines_upto(sessions, answers, n - 1) + session_lines(sessions[n - 1], answers[n - 1])
    }
}

pub open spec fn status_words(status: JsonValue, answers: Seq<Json>) -> Seq<Seq<char>> {
    let sessions = running(status);
    if sessions.len() == 0 {
        seq!["正在运行的游戏：无"@]
    } else {
        seq!["正在运行的游戏："@] + lines_upto(sessions, answers, sessions.len() as int)
    }
}

/// What runs, and how each game is scaled. `answers` holds for each session what the daemon says
/// of it; for one that is only watched it is not looked at.
pub fn status_lines(status: &Json, answers: &Vec<Json>) -> (lines: Vec<String>)
    requires
        answers@.len() == running(status@).len(),
    ensures
        chars::texts(lines@) == status_words(status@, answers@),
{
    let mut lines: Vec<String> = Vec::new();
    assert(chars::texts(lines@) =~= Seq::<Seq<char>>::empty());
    let sessions = match status.list_at("sessions") {
        Some(sessions) => sessions,
        None => {
            push_line(&mut lines, "正在运行的游戏：无".to_owned());
            assert(chars::texts(lines@) =~= status_words(status@, answers@));
            return lines;
        },
    };
    proof {
        json::items_view_items(sessions@);
    }
    if sessions.len() == 0 {
        push_line(&mut lines, "正在运行的游戏：无".to_owned());
        assert(chars::texts(lines@) =~= status_words(status@, answers@));
        return lines;
    }
    push_line(&mut lines, "正在运行的游戏：".to_owned());
    let ghost all = json::items_view(sessions@);
    let ghost start = seq!["正在运行的游戏："@];
    assert(chars::texts(lines@) =~= start + lines_upto(all, answers@, 0));
    let mut i: usize = 0;
    while i < sessions.len()
        invariant
            i <= sessions@.len() == all.len() == answers@.len(),
            forall|k: int| 0 <= k < sessions@.len() ==> #[trigger] all[k] == sessions@[k]@,
            chars::texts(lines@) == start + lines_upto(all, answers@, i as int),
        decreases sessions@.len() - i,
    {
        assert(all[i as int] == sessions@[i as int]@);
        let session = &sessions[i];
        let ghost before = chars::texts(lines@);
        let head = glue5(
            "  ",
            session.text_at_or("session_id", "?"),
            " — ",
            session.text_at_or("game_id", "?"),
            "（已运行 ",
        );
        push_line(
            &mut lines,
            glue3(
                head.as_str(),
                number_text(session.number_at("elapsed_secs")).as_str(),
                "s）",
            ),
        );
        if is_scaled(session) {
            push_line(&mut lines, live_text(&answers[i]));
        } else {
            push_line(
                &mut lines,
                "      仅观测（watch_only）：kotori 没有它的 gamescope 可调".to_owned(),
            );
        }
        assert(chars::texts(lines@) =~= before + session_lines(all[i as int], answers@[i as int]));
        assert(before + session_lines(all[i as int], answers@[i as int]) =~= start + lines_upto(
            all,
            answers@,
            i + 1,
        ));
        i += 1;
    }
    lines
}

// ---------------------------------------------------------------------------------------------
// What an action did

pub open spec fn applied_words(entry: JsonValue) -> Seq<char> {
    let session = json::text_or(json::text_at(entry, "session"@), "?"@);
    let detail = json::text_or(json::text_at(entry, "detail"@), ""@);
    if detail.len() == 0 {
        session
    } else {
        session + "（"@ + detail + "）"@
    }
}

pub open spec fn sessions_words(result: JsonValue) -> Seq<char> {
    match json::as_list(json::at(result, "sessions"@)) {
        Some(list) => split::join(
            list.map_values(|entry: JsonValue| applied_words(entry)),
            ", "@,
        ),
        None => ""@,
    }
}

pub open spec fn failed_line(entry: JsonValue) -> Seq<char> {
    "  ⚠ 会话 "@ + json::text_or(json::text_at(entry, "session"@), "?"@) + " 没生效："@
        + json::text_or(json::text_at(entry, "error"@), "?"@)
}

/// What an action did, in words: where it took effect, and where it did not.
pub open spec fn action_lines(result: JsonValue, fallback: Seq<char>) -> Seq<Seq<char>> {
    seq![
        "已应用缩放动作 "@ + json::text_or(json::text_at(result, "action"@), fallback)
            + "（会话 "@ + sessions_words(result) + "）"@,
    ] + match json::as_list(json::at(result, "failed"@)) {
        Some(list) => list.map_values(|entry: JsonValue| failed_line(entry)),
        None => Seq::empty(),
    }
}

fn applied_text(entry: &Json) -> (out: String)
    ensures
        out@ == applied_words(entry@),
{
    proof {
        reveal_strlit("");
    }
    let session = entry.text_at_or("session", "?");
    let detail = entry.text_at_or("detail", "");
    if detail.is_empty() {
        session.to_owned()
    } else {
        glue4(session, "（", detail, "）")
    }
}

fn sessions_text(result: &Json) -> (out: String)
    ensures
        out@ == sessions_words(result@),
{
    match result.list_at("sessions") {
        Some(list) => {
            proof {
                json::items_view_items(list@);
            }
            let mut words: Vec<String> = Vec::new();
            let mut i: usize = 0;
            while i < list.len()
                invariant
                    i <= list@.len(),
                    words@.len() == i,
                    forall|k: int|
                        0 <= k < i ==> (#[trigger] words@[k])@ == applied_words(list@[k]@),
                decreases list@.len() - i,
            {
                words.push(applied_text(&list[i]));
                i += 1;
            }
            assert(chars::texts(words@) =~= json::items_view(list@).map_values(
                |entry: JsonValue| applied_words(entry),
            ));
            joined(&words, ", ")
        },
        None => "".to_owned(),
    }
}

pub fn report_action(result: &Json, fallback: &str) -> (lines: Vec<String>)
    ensures
        chars::texts(lines@) == action_lines(result@, fallback@),
{
    let mut lines: Vec<String> = Vec::new();
    assert(chars::texts(lines@) =~= Seq::<Seq<char>>::empty());
    push_line(
        &mut lines,
        glue5(
            "已应用缩放动作 ",
            result.text_at_or("action", fallback),
            "（会话 ",
            sessions_text(result).as_str(),
            "）",
        ),
    );
    let ghost start = chars::texts(lines@);
    match result.list_at("failed") {
        Some(list) => {
            proof {
                json::items_view_items(list@);
            }
            let ghost all = json::items_view(list@);
            let ghost words = all.map_values(|entry: JsonValue| failed_line(entry));
            let mut i: usize = 0;
            assert(start + words.take(0) =~= start);
            while i < list.len()
                invariant
                    i <= list@.len() == all.len(),
                    words == all.map_values(|entry: JsonValue| failed_line(entry)),
                    forall|k: int| 0 <= k < list@.len() ==> #[trigger] all[k] == list@[k]@,
                    chars::texts(lines@) == start + words.take(i as int),
                decreases list@.len() - i,
            {
                assert(all[i as int] == list@[i as int]@);
                push_line(
                    &mut lines,
                    glue4(
                        "  ⚠ 会话 ",
                        list[i].text_at_or("session", "?"),
                        " 没生效：",
                        list[i].text_at_or("error", "?"),
                    ),
                );
                assert(start + words.take(i + 1) =~= (start + words.take(i as int)).push(
                    words[i as int],
                ));
                i += 1;
            }
            assert(words.take(i as int) =~= words);
            assert(start + words =~= action_lines(result@, fallback@));
        },
        None => {
            assert(start =~= action_lines(result@, fallback@));
        },
    }
    lines
}

/// Where several games run, none of them is touched unless it is named.
pub proof fn nobody_guesses(status: JsonValue)
    requires
        running(status).len() > 1,
    ensures
        meant(status, None) is Err,
        forall|id: Seq<char>| #[trigger] meant(status, Some(id)) == Ok::<Seq<char>, Seq<char>>(id),
{
}

/// Each command has its request: four of them a method of their own, the others an action by name.
pub proof fn each_command_has_its_request(session_id: Option<String>, delta: i32)
    ensures
        asked(ScaleCommand::Status) == ("daemon.status"@, None::<Seq<char>>, None::<i32>),
        asked(ScaleCommand::Fsr { session_id }) == (
            "scale.toggle_fsr"@,
            None::<Seq<char>>,
            None::<i32>,
        ),
        asked(ScaleCommand::Nis { session_id }) == (
            "scale.action"@,
            Some("toggle-nis"@),
            None::<i32>,
        ),
        asked(ScaleCommand::Integer { session_id }) == (
            "scale.toggle_integer"@,
            None::<Seq<char>>,
            None::<i32>,
        ),
        asked(ScaleCommand::Linear { session_id }) == (
            "scale.action"@,
            Some("toggle-linear"@),
            None::<i32>,
        ),
        asked(ScaleCommand::Sharpness { delta, session_id }) == (
            "scale.adjust_sharpness"@,
            None::<Seq<char>>,
            Some(delta),
        ),
        asked(ScaleCommand::Toggle { session_id }) == (
            "scale.action"@,
            Some("toggle-scale"@),
            None::<i32>,
        ),
        asked(ScaleCommand::Up { session_id }) == ("scale.action"@, Some("scale-up"@), None::<i32>),
        asked(ScaleCommand::Down { session_id }) == (
            "scale.action"@,
            Some("scale-down"@),
            None::<i32>,
        ),
        asked(ScaleCommand::Reset { session_id }) == (
            "scale.action"@,
            Some("reset-scale"@),
            None::<i32>,
        ),
        asked(ScaleCommand::Fullscreen { session_id }) == (
            "scale.action"@,
            Some("toggle-fullscreen"@),
            None::<i32>,
        ),
{
}

/// The session that a command names is the one that is asked about.
pub proof fn a_named_session_is_asked_about(session_id: Option<String>, delta: i32)
    ensures
        session_of(ScaleCommand::Fsr { session_id }) == session_id,
        session_of(ScaleCommand::Nis { session_id }) == session_id,
        session_of(ScaleCommand::Integer { session_id }) == session_id,
        session_of(ScaleCommand::Linear { session_id }) == session_id,
        session_of(ScaleCommand::Sharpness { delta, session_id }) == session_id,
        session_of(ScaleCommand::Toggle { session_id }) == session_id,
        session_of(ScaleCommand::Up { session_id }) == session_id,
        session_of(ScaleCommand::Down { session_id }) == session_id,
        session_of(ScaleCommand::Reset { session_id }) == session_id,
        session_of(ScaleCommand::Fullscreen { session_id }) == session_id,
        session_of(ScaleCommand::Status) is None,
{
}

/// A request says which session is meant, and the action and the steps where there are any.
pub proof fn what_goes_with_a_request(
    session: Seq<char>,
    action: Option<Seq<char>>,
    delta: Option<i32>,
)
    ensures
        ({
            let params = JsonValue::Object(call_params(session, action, delta));
            &&& json::has_member(params, "session_id"@, JsonValue::Text(session))
            &&& action is Some ==> json::has_member(
                params,
                "action"@,
                JsonValue::Text(action.unwrap()),
            )
            &&& delta is Some ==> json::has_member(
                params,
                "delta"@,
                JsonValue::Number(delta.unwrap() as int),
            )
        }),
        call_params(session, action, delta).len() == 1 + (if action is Some {
            1int
        } else {
            0
        }) + (if delta is Some {
            1int
        } else {
            0
        }),
{
    let members = call_params(session, action, delta);
    assert(members[0] == ("session_id"@, JsonValue::Text(session)));
    if action is Some {
        assert(members[1] == ("action"@, JsonValue::Text(action.unwrap())));
    }
    if delta is Some {
        assert(members.last() == ("delta"@, JsonValue::Number(delta.unwrap() as int)));
        assert(members[members.len() - 1] == members.last());
    }
}

/// Which game is meant: the one that is named, else the one that runs. Where none runs that is
/// said.
pub proof fn which_game_is_meant(
    status: JsonValue,
    sessions: Seq<JsonValue>,
    id: Seq<char>,
)
    requires
        json::field(status, "sessions"@) == Some(JsonValue::List(sessions)),
    ensures
        meant(status, Some(id)) == Ok::<Seq<char>, Seq<char>>(id),
        sessions.len() == 1 && json::field(sessions[0], "session_id"@) == Some(JsonValue::Text(id))
            ==> meant(status, None) == Ok::<Seq<char>, Seq<char>>(id),
        sessions.len() == 0 ==> meant(status, None) == Err::<Seq<char>, Seq<char>>(
            "没有正在运行的游戏（缩放只对 kotori 启动、且还在运行的游戏生效）"@,
        ),
        sessions.len() > 1 ==> meant(status, None) is Err,
{
}

/// What is said of a game that runs: its session, its name and for how long it has run. One that is
/// only watched is not scaled, and that is said in place of how it is scaled.
pub proof fn what_is_said_of_a_running_game(
    session: JsonValue,
    answer: Json,
    id: Seq<char>,
    game: Seq<char>,
    seconds: u64,
    pid: int,
)
    requires
        json::field(session, "session_id"@) == Some(JsonValue::Text(id)),
        json::field(session, "game_id"@) == Some(JsonValue::Text(game)),
        json::field(session, "elapsed_secs"@) == Some(JsonValue::Number(seconds as int)),
    ensures
        choice_line(session) == "  "@ + id + " — "@ + game,
        session_lines(session, answer)[0] == "  "@ + id + " — "@ + game + "（已运行 "@
            + number::decimal(seconds as nat) + "s）"@,
        json::field(session, "gamescope_pid"@) == Some(JsonValue::Number(pid)) ==> session_lines(
            session,
            answer,
        )[1] == live_line(answer@),
        json::field(session, "gamescope_pid"@) is None ==> session_lines(session, answer)[1]
            == "      仅观测（watch_only）：kotori 没有它的 gamescope 可调"@,
        session_lines(session, answer).len() == 2,
{
}

/// How a game is scaled: its filter, its scaler and its sharpness.
pub proof fn what_is_said_of_the_scaling(
    answer: JsonValue,
    live: Seq<(Seq<char>, JsonValue)>,
    filter: Seq<char>,
    scaler: Seq<char>,
    sharpness: u64,
)
    ensures
        json::field(answer, "live"@) == Some(JsonValue::Object(live)) && json::field(
            JsonValue::Object(live),
            "filter"@,
        ) == Some(JsonValue::Text(filter)) && json::field(JsonValue::Object(live), "scaler"@)
            == Some(JsonValue::Text(scaler)) && json::field(
            JsonValue::Object(live),
            "sharpness"@,
        ) == Some(JsonValue::Number(sharpness as int)) ==> live_line(answer)
            == "      现在：滤镜 "@ + filter + " / 缩放器 "@ + scaler + " / 锐度 "@ + number::decimal(
            sharpness as nat,
        ),
        json::field(answer, "live"@) is None ==> live_line(answer)
            == "      现在：读不到（Xwayland 还没就绪,或者已经退出）"@,
{
}

proof fn lemma_lines(sessions: Seq<JsonValue>, answers: Seq<Json>, n: int)
    requires
        0 <= n <= sessions.len(),
    ensures
        lines_upto(sessions, answers, n).len() == 2 * n,
        forall|i: int|
            0 <= i < n ==> lines_upto(sessions, answers, n)[2 * i] == session_lines(
                #[trigger] sessions[i],
                answers[i],
            )[0] && lines_upto(sessions, answers, n)[2 * i + 1] == session_lines(
                sessions[i],
                answers[i],
            )[1],
    decreases n,
{
    if n > 0 {
        lemma_lines(sessions, answers, n - 1);
    }
}

/// Every game that runs has its two lines, in the order in which the games are listed.
pub proof fn every_running_game_is_shown(
    status: JsonValue,
    sessions: Seq<JsonValue>,
    answers: Seq<Json>,
    i: int,
)
    requires
        json::field(status, "sessions"@) == Some(JsonValue::List(sessions)),
        answers.len() == sessions.len(),
    ensures
        sessions.len() == 0 ==> status_words(status, answers) == seq!["正在运行的游戏：无"@],
        sessions.len() > 0 ==> status_words(status, answers).len() == 1 + 2 * sessions.len()
            && status_words(status, answers)[0] == "正在运行的游戏："@,
        0 <= i < sessions.len() ==> status_words(status, answers)[1 + 2 * i] == session_lines(
            sessions[i],
            answers[i],
        )[0] && status_words(status, answers)[2 + 2 * i] == session_lines(
            sessions[i],
            answers[i],
        )[1],
{
    lemma_lines(sessions, answers, sessions.len() as int);
    if 0 <= i < sessions.len() {
        let upto = lines_upto(sessions, answers, sessions.len() as int);
        let words = status_words(status, answers);
        assert(upto[2 * i] == session_lines(sessions[i], answers[i])[0]);
        assert(words[1 + 2 * i] == upto[2 * i]);
        assert(words[2 + 2 * i] == upto[2 * i + 1]);
    }
}

/// What an action did: its name, where it took effect, and a line for each game where it did not.
pub proof fn what_is_said_of_an_action(
    result: JsonValue,
    fallback: Seq<char>,
    action: Seq<char>,
    failed: Seq<JsonValue>,
    i: int,
    session: Seq<char>,
    error: Seq<char>,
)
    ensures
        json::field(result, "action"@) == Some(JsonValue::Text(action)) ==> action_lines(
            result,
            fallback,
        )[0] == "已应用缩放动作 "@ + action + "（会话 "@ + sessions_words(result) + "）"@,
        json::field(result, "action"@) is None ==> action_lines(result, fallback)[0]
            == "已应用缩放动作 "@ + fallback + "（会话 "@ + sessions_words(result) + "）"@,
        json::field(result, "failed"@) is None ==> action_lines(result, fallback).len() == 1,
        json::field(result, "failed"@) == Some(JsonValue::List(failed)) ==> action_lines(
            result,
            fallback,
        ).len() == 1 + failed.len(),
        json::field(result, "failed"@) == Some(JsonValue::List(failed)) && 0 <= i < failed.len()
            && json::field(failed[i], "session"@) == Some(JsonValue::Text(session)) && json::field(
            failed[i],
            "error"@,
        ) == Some(JsonValue::Text(error)) ==> action_lines(result, fallback)[1 + i]
            == "  ⚠ 会话 "@ + session + " 没生效："@ + error,
{
}

/// Where an action took effect: the sessions, each with what there is to say of it in brackets.
pub proof fn where_an_action_took_effect(
    entry: JsonValue,
    result: JsonValue,
    session: Seq<char>,
    detail: Seq<char>,
)
    requires
        json::field(entry, "session"@) == Some(JsonValue::Text(session)),
    ensures
        json::field(entry, "detail"@) is None ==> applied_words(entry) == session,
        json::field(entry, "detail"@) == Some(JsonValue::Text(detail)) && detail.len() > 0
            ==> applied_words(entry) == session + "（"@ + detail + "）"@,
        json::field(result, "sessions"@) == Some(JsonValue::List(seq![entry])) ==> sessions_words(
            result,
        ) == applied_words(entry),
{
    reveal_strlit("");
    let list = seq![entry].map_values(|entry: JsonValue| applied_words(entry));
    assert(list =~= seq![applied_words(entry)]);
    split::one_piece_is_itself(applied_words(entry), ", "@);
}

} // verus!
