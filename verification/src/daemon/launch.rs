//! Starting a game, step by step.
//!
//! What has to be asked of the machine, of the cloud and of the user stands outside; here is in
//! which order it is asked, and what an answer leads to. Nothing that is about the cloud keeps a
//! game from starting, except the one question that the user has to answer first.

use crate::config::model;
use crate::config::model::{Config, Game, GameConfig};
use crate::daemon::game_json;
use crate::daemon::game_rpc;
use crate::daemon::game_rpc::{
    check_launch_places, find_launch_places, launch_reply, question_before_launch, Decision,
};
use crate::daemon::session;
use crate::daemon::session::{launch_spec, Launch, LaunchSpec, Session};
use crate::json;
use crate::json::{Json, JsonValue};
use crate::mount::table::{MountEntry, MountTable};
use crate::path::FsPath;
use vstd::prelude::*;

verus! {

/// What is being waited for.
#[derive(Debug, Clone, Copy, PartialEq, Eq, Structural)]
pub enum Phase {
    /// Whether the directory and the program are there.
    Looking,
    /// Which game of the cloud it is.
    Checking,
    /// That what was decided about the cloud is taken down.
    Settling,
    /// The newest saves.
    Fetching,
    /// The session.
    Starting,
    /// Nothing any more.
    Over,
}

/// A launch under way.
pub struct Launching {
    pub id: String,
    pub game: GameConfig,
    pub game_dir: FsPath,
    pub exe: FsPath,
    pub wine_prefix: FsPath,
    /// Where the prefix comes from, in words.
    pub prefix_source: String,
    /// The client can answer the question that may come before the launch.
    pub selfcheck: bool,
    pub phase: Phase,
    /// What came of fetching the saves, where that was tried.
    pub pulled: Option<Json>,
}

/// What a launch under way knows.
#[verifier::ext_equal]
pub struct Underway {
    pub id: Seq<char>,
    pub game: Game,
    pub game_dir: Seq<u8>,
    pub exe: Seq<u8>,
    pub wine_prefix: Seq<u8>,
    pub prefix_source: Seq<char>,
    pub selfcheck: bool,
    pub phase: Phase,
    pub pulled: JsonValue,
}

impl View for Launching {
    type V = Underway;

    open spec fn view(&self) -> Underway {
        Underway {
            id: self.id@,
            game: self.game@,
            game_dir: self.game_dir@,
            exe: self.exe@,
            wine_prefix: self.wine_prefix@,
            prefix_source: self.prefix_source@,
            selfcheck: self.selfcheck,
            phase: self.phase,
            pulled: game_rpc::optional_json(self.pulled),
        }
    }
}

/// An answer to what was asked for.
pub enum Event {
    Seen { dir_is_dir: bool, exe_is_file: bool },
    Decided(Decision),
    /// What was decided is taken down, or could not be.
    Settled(Result<(), String>),
    /// The saves are here, or why they are not; nothing where there was nothing to fetch.
    Fetched(Option<Json>),
    Started(Result<Session, String>),
}

/// What is to be done next.
pub enum Action {
    Check,
    Settle(Decision),
    Fetch,
    Start(LaunchSpec),
    Reply(Result<Json, String>),
}

/// What an action says.
pub enum Act {
    Check,
    Settle(Decision),
    Fetch,
    Start(Launch),
    Reply(Result<JsonValue, Seq<char>>),
}

pub open spec fn action_view(action: Action) -> Act {
    match action {
        Action::Check => Act::Check,
        Action::Settle(decision) => Act::Settle(decision),
        Action::Fetch => Act::Fetch,
        Action::Start(spec) => Act::Start(spec@),
        Action::Reply(Ok(value)) => Act::Reply(Ok(value@)),
        Action::Reply(Err(message)) => Act::Reply(Err(message@)),
    }
}

/// The event is an answer to what is being waited for.
pub open spec fn answers(phase: Phase, event: Event) -> bool {
    match event {
        Event::Seen { .. } => phase == Phase::Looking,
        Event::Decided(_) => phase == Phase::Checking,
        Event::Settled(_) => phase == Phase::Settling,
        Event::Fetched(_) => phase == Phase::Fetching,
        Event::Started(_) => phase == Phase::Starting,
    }
}

/// The reply to a launch that led to a session.
pub open spec fn started_json(launch: Underway, session: Session) -> JsonValue {
    JsonValue::Object(
        seq![
            ("session_id"@, JsonValue::Text(session.session_id@)),
            ("gamescope_pid"@, json::optional_number(session.gamescope_pid)),
            ("game_dir"@, game_json::path_json(launch.game_dir)),
            ("wine_prefix"@, game_json::path_json(launch.wine_prefix)),
            ("prefix_source"@, JsonValue::Text(launch.prefix_source)),
            ("sync_pull"@, launch.pulled),
        ],
    )
}

/// What an event leads to: what the launch knows then, and what is to be done.
pub open spec fn next(launch: Underway, event: Event) -> (Underway, Act) {
    match event {
        Event::Seen { dir_is_dir, exe_is_file } => if dir_is_dir && exe_is_file {
            (Underway { phase: Phase::Checking, ..launch }, Act::Check)
        } else {
            (
                Underway { phase: Phase::Over, ..launch },
                Act::Reply(Err("游戏目录或可执行文件不存在，请检查磁盘和游戏位置"@)),
            )
        },
        Event::Decided(decision) => if launch.selfcheck && decision is Ask {
            (
                Underway { phase: Phase::Over, ..launch },
                Act::Reply(Ok(game_rpc::question_json(decision->found))),
            )
        } else {
            (Underway { phase: Phase::Settling, ..launch }, Act::Settle(decision))
        },
        Event::Settled(_) => (Underway { phase: Phase::Fetching, ..launch }, Act::Fetch),
        Event::Fetched(pulled) => (
            Underway {
                phase: Phase::Starting,
                pulled: game_rpc::optional_json(pulled),
                ..launch
            },
            Act::Start(
                session::starting(
                    launch.id,
                    launch.game,
                    launch.game_dir,
                    launch.exe,
                    launch.wine_prefix,
                ),
            ),
        ),
        Event::Started(Ok(session)) => (
            Underway { phase: Phase::Over, ..launch },
            Act::Reply(Ok(started_json(launch, session))),
        ),
        Event::Started(Err(message)) => (
            Underway { phase: Phase::Over, ..launch },
            Act::Reply(Err(message@)),
        ),
    }
}

impl Launching {
    /// Starts a launch: the next thing to know is whether `game_dir` and `exe` are there. A game
    /// that is not in the library, and one whose place cannot be told, is not started.
    pub fn begin(
        config: &Config,
        id: &str,
        mounts: &MountTable,
        wine_prefix: FsPath,
        prefix_source: String,
        selfcheck: bool,
    ) -> (out: Result<Launching, String>)
        ensures
            match out {
                Ok(launch) => {
                    &&& model::has_game(config@.games, id@)
                    &&& game_rpc::launch_places(config@.games, id@, mounts@) == Ok::<
                        (Seq<u8>, Seq<u8>),
                        Seq<char>,
                    >((launch.game_dir@, launch.exe@))
                    &&& launch@ == (Underway {
                        id: id@,
                        game: model::game_at(config@.games, id@),
                        game_dir: launch.game_dir@,
                        exe: launch.exe@,
                        wine_prefix: wine_prefix@,
                        prefix_source: prefix_source@,
                        selfcheck,
                        phase: Phase::Looking,
                        pulled: JsonValue::Null,
                    })
                },
                Err(message) => game_rpc::launch_places(config@.games, id@, mounts@) == Err::<
                    (Seq<u8>, Seq<u8>),
                    Seq<char>,
                >(message@),
            },
    {
        match find_launch_places(config, id, mounts) {
            Err(message) => Err(message),
            Ok((game_dir, exe)) => match config.game(id) {
                None => Err(crate::text::glue::glue2("配置中找不到游戏: ", id)),
                Some(game) => Ok(
                    Launching {
                        id: id.to_owned(),
                        game: game.copy(),
                        game_dir,
                        exe,
                        wine_prefix,
                        prefix_source,
                        selfcheck,
                        phase: Phase::Looking,
                        pulled: None,
                    },
                ),
            },
        }
    }

    /// Takes an answer, and says what is to be done next.
    pub fn step(&mut self, event: Event) -> (action: Action)
        requires
            answers(old(self).phase, event),
        ensures
            (final(self)@, action_view(action)) == next(old(self)@, event),
    {
        match event {
            Event::Seen { dir_is_dir, exe_is_file } => match check_launch_places(
                dir_is_dir,
                exe_is_file,
            ) {
                Ok(_) => {
                    self.phase = Phase::Checking;
                    Action::Check
                },
                Err(message) => {
                    self.phase = Phase::Over;
                    Action::Reply(Err(message))
                },
            },
            Event::Decided(decision) => match question_before_launch(&decision, self.selfcheck) {
                Some(question) => {
                    self.phase = Phase::Over;
                    Action::Reply(Ok(question))
                },
                None => {
                    self.phase = Phase::Settling;
                    Action::Settle(decision)
                },
            },
            Event::Settled(_) => {
                self.phase = Phase::Fetching;
                Action::Fetch
            },
            Event::Fetched(pulled) => {
                self.phase = Phase::Starting;
                self.pulled = pulled;
                Action::Start(
                    launch_spec(
                        self.id.as_str(),
                        &self.game,
                        &self.game_dir,
                        &self.exe,
                        &self.wine_prefix,
                    ),
                )
            },
            Event::Started(Ok(session)) => {
                self.phase = Phase::Over;
                let pulled = match &self.pulled {
                    Some(value) => Some(value.copy()),
                    None => None,
                };
                Action::Reply(
                    Ok(
                        launch_reply(
                            &session,
                            &self.game_dir,
                            &self.wine_prefix,
                            self.prefix_source.as_str(),
                            pulled,
                        ),
                    ),
                )
            },
            Event::Started(Err(message)) => {
                self.phase = Phase::Over;
                Action::Reply(Err(message))
            },
        }
    }
}

// ---------------------------------------------------------------------------------------------
// What holds of launches

/// The sync never keeps a game from starting: whatever was decided about the cloud, whether it
/// could be taken down, and whatever came of fetching the saves, the game is started next, in
/// the same way. Only a question that the client can answer comes first.
pub proof fn sync_never_blocks_a_game(
    launch: Underway,
    decision: Decision,
    settled: Result<(), String>,
    pulled: Option<Json>,
)
    requires
        launch.phase == Phase::Checking,
        !(launch.selfcheck && decision is Ask),
    ensures
        ({
            let decided = next(launch, Event::Decided(decision));
            let taken_down = next(decided.0, Event::Settled(settled));
            let fetched = next(taken_down.0, Event::Fetched(pulled));
            &&& decided.1 is Settle && answers(decided.0.phase, Event::Settled(settled))
            &&& taken_down.1 is Fetch && answers(taken_down.0.phase, Event::Fetched(pulled))
            &&& fetched.1 == Act::Start(
                session::starting(
                    launch.id,
                    launch.game,
                    launch.game_dir,
                    launch.exe,
                    launch.wine_prefix,
                ),
            )
        }),
{
}

/// While the user has a question to answer nothing is taken down, fetched or started: the launch
/// is over with the question, and the client asks again with the answer.
pub proof fn a_question_stops_the_launch(launch: Underway, decision: Decision)
    requires
        launch.selfcheck,
        decision is Ask,
    ensures
        next(launch, Event::Decided(decision)).0.phase == Phase::Over,
        next(launch, Event::Decided(decision)).1 == Act::Reply(
            Ok::<JsonValue, Seq<char>>(game_rpc::question_json(decision->found)),
        ),
        forall|event: Event| !answers(Phase::Over, event),
{
}

/// The saves are fetched before the game can read them: a game is started only in answer to what
/// came of fetching them, and after its places were seen.
pub proof fn saves_come_before_the_game(launch: Underway, event: Event)
    requires
        answers(launch.phase, event),
        next(launch, event).1 is Start,
    ensures
        event is Fetched,
        launch.phase == Phase::Fetching,
{
}

/// What a game is started with is what was found for the launch and what the library says of the
/// game, whatever came of fetching the saves: its directory, its prefix, its arguments, its
/// profile, its process name and its way of starting.
pub proof fn what_was_found_is_what_is_started(launch: Underway, pulled: Option<Json>)
    ensures
        match next(launch, Event::Fetched(pulled)).1 {
            Act::Start(spec) => {
                &&& spec.game_id == launch.id
                &&& spec.game_dir == launch.game_dir
                &&& spec.wine_prefix == Some(launch.wine_prefix)
                &&& spec.exe == crate::path::lossy_text(launch.exe)
                &&& spec.args == launch.game.launch_args
                &&& spec.profile == launch.game.scale_profile
                &&& spec.process_name == launch.game.process_name
                &&& spec.direct_launch == launch.game.direct_launch
                &&& !spec.watch_only
            },
            _ => false,
        },
{
}

/// The reply to a launch names the directory and the prefix that the game was started with, the
/// session that came of it, and what came of fetching the saves.
pub proof fn the_reply_names_what_was_started(
    launch: Underway,
    pulled: Option<Json>,
    session: Session,
)
    ensures
        ({
            let fetched = next(launch, Event::Fetched(pulled));
            let reply = next(fetched.0, Event::Started(Ok(session))).1;
            match (fetched.1, reply) {
                (Act::Start(spec), Act::Reply(Ok(value))) => {
                    &&& spec.wine_prefix is Some
                    &&& json::has_member(
                        value,
                        "wine_prefix"@,
                        JsonValue::Text(crate::path::lossy_text(spec.wine_prefix.unwrap())),
                    )
                    &&& json::has_member(
                        value,
                        "game_dir"@,
                        JsonValue::Text(crate::path::lossy_text(spec.game_dir)),
                    )
                    &&& json::has_member(
                        value,
                        "session_id"@,
                        JsonValue::Text(session.session_id@),
                    )
                    &&& json::has_member(
                        value,
                        "prefix_source"@,
                        JsonValue::Text(launch.prefix_source),
                    )
                    &&& json::has_member(
                        value,
                        "gamescope_pid"@,
                        json::optional_number(session.gamescope_pid),
                    )
                    &&& json::has_member(
                        value,
                        "sync_pull"@,
                        match pulled {
                            Some(report) => report@,
                            None => JsonValue::Null,
                        },
                    )
                },
                _ => false,
            }
        }),
{
    let fetched = next(launch, Event::Fetched(pulled));
    let value = started_json(fetched.0, session);
    let members = value->Object_0;
    assert(members[0] == ("session_id"@, JsonValue::Text(session.session_id@)));
    assert(members[1].0 == "gamescope_pid"@);
    assert(members[2].0 == "game_dir"@);
    assert(members[3].0 == "wine_prefix"@);
    assert(members[4].0 == "prefix_source"@);
    assert(members[5].0 == "sync_pull"@);
}

/// A launch stays about the same game, in the same places: no answer changes what was found.
pub proof fn a_launch_stays_the_same_launch(launch: Underway, event: Event)
    ensures
        ({
            let after = next(launch, event).0;
            &&& after.id == launch.id
            &&& after.game == launch.game
            &&& after.game_dir == launch.game_dir
            &&& after.exe == launch.exe
            &&& after.wine_prefix == launch.wine_prefix
            &&& after.prefix_source == launch.prefix_source
            &&& after.selfcheck == launch.selfcheck
            &&& event !is Fetched ==> after.pulled == launch.pulled
        }),
{
}

/// A launch goes on where the directory and the program are both there, and ends with a refusal
/// where one is missing.
pub proof fn both_places_are_needed(launch: Underway, dir_is_dir: bool, exe_is_file: bool)
    ensures
        ({
            let step = next(launch, Event::Seen { dir_is_dir, exe_is_file });
            &&& dir_is_dir && exe_is_file ==> step.1 is Check && step.0.phase == Phase::Checking
            &&& !dir_is_dir || !exe_is_file ==> step.0.phase == Phase::Over && step.1
                == Act::Reply(
                Err::<JsonValue, Seq<char>>(
                    "游戏目录或可执行文件不存在，请检查磁盘和游戏位置"@,
                ),
            )
        }),
{
}

/// What was decided about the cloud is what is taken down, and a session that could not be
/// started is answered with the reason.
pub proof fn decisions_and_failures_are_passed_on(
    launch: Underway,
    decision: Decision,
    message: String,
)
    ensures
        !launch.selfcheck || decision !is Ask ==> next(launch, Event::Decided(decision)).1
            == Act::Settle(decision),
        next(launch, Event::Started(Err(message))).1 == Act::Reply(
            Err::<JsonValue, Seq<char>>(message@),
        ),
        next(launch, Event::Started(Err(message))).0.phase == Phase::Over,
{
}

} // verus!
