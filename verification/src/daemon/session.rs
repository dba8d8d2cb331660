//! Sessions: a game that runs, and what it takes to start one or to follow one.

use crate::config::model;
use crate::config::model::{copy_text, Game, GameConfig};
use crate::config::profile::{Profile, ScaleProfile};
use crate::path;
use crate::path::FsPath;
use crate::text::chars;
use crate::text::chars::copy_texts;
use vstd::prelude::*;

verus! {

/// A game that runs.
pub struct Session {
    pub session_id: String,
    pub game_id: Option<String>,
    /// The gamescope that it runs in; a session that is only followed has none.
    pub gamescope_pid: Option<u32>,
    pub process_name: Option<String>,
    /// Somebody else started the game.
    pub watch_only: bool,
    pub elapsed_seconds: u64,
}

/// How a game is started or followed.
pub struct LaunchSpec {
    pub game_id: String,
    pub exe: String,
    pub args: Vec<String>,
    pub game_dir: FsPath,
    pub wine_prefix: Option<FsPath>,
    pub profile: ScaleProfile,
    pub process_name: Option<String>,
    pub watch_only: bool,
    pub direct_launch: bool,
}

/// What a launch says.
#[verifier::ext_equal]
pub struct Launch {
    pub game_id: Seq<char>,
    pub exe: Seq<char>,
    pub args: Seq<Seq<char>>,
    pub game_dir: Seq<u8>,
    pub wine_prefix: Option<Seq<u8>>,
    pub profile: Profile,
    pub process_name: Option<Seq<char>>,
    pub watch_only: bool,
    pub direct_launch: bool,
}

impl View for LaunchSpec {
    type V = Launch;

    open spec fn view(&self) -> Launch {
        Launch {
            game_id: self.game_id@,
            exe: self.exe@,
            args: chars::texts(self.args@),
            game_dir: self.game_dir@,
            wine_prefix: model::path_view(self.wine_prefix),
            profile: self.profile@,
            process_name: chars::text_view(self.process_name),
            watch_only: self.watch_only,
            direct_launch: self.direct_launch,
        }
    }
}

/// How a game is started.
pub open spec fn starting(
    id: Seq<char>,
    game: Game,
    game_dir: Seq<u8>,
    exe: Seq<u8>,
    wine_prefix: Seq<u8>,
) -> Launch {
    Launch {
        game_id: id,
        exe: path::lossy_text(exe),
        args: game.launch_args,
        game_dir,
        wine_prefix: Some(wine_prefix),
        profile: game.scale_profile,
        process_name: game.process_name,
        watch_only: false,
        direct_launch: game.direct_launch,
    }
}

pub fn launch_spec(
    id: &str,
    game: &GameConfig,
    game_dir: &FsPath,
    exe: &FsPath,
    wine_prefix: &FsPath,
) -> (spec: LaunchSpec)
    ensures
        spec@ == starting(id@, game@, game_dir@, exe@, wine_prefix@),
        spec.game_id@ == id@,
        spec.game_dir@ == game_dir@,
        spec.wine_prefix is Some && spec.wine_prefix.unwrap()@ == wine_prefix@,
        chars::texts(spec.args@) == game@.launch_args,
        spec.profile@ == game@.scale_profile,
        chars::text_view(spec.process_name) == game@.process_name,
        spec.direct_launch == game.direct_launch,
        !spec.watch_only,
{
    LaunchSpec {
        game_id: id.to_owned(),
        exe: exe.text(),
        args: copy_texts(&game.launch_args),
        game_dir: game_dir.copy(),
        wine_prefix: Some(wine_prefix.copy()),
        profile: game.scale_profile.copy(),
        process_name: copy_text(&game.process_name),
        watch_only: false,
        direct_launch: game.direct_launch,
    }
}

/// How a game that runs already is followed: nothing is started, and no prefix is ours to close.
pub open spec fn following(
    id: Seq<char>,
    name: Seq<char>,
    game_dir: Seq<u8>,
    profile: Profile,
) -> Launch {
    Launch {
        game_id: id,
        exe: Seq::empty(),
        args: Seq::empty(),
        game_dir,
        wine_prefix: None,
        profile,
        process_name: Some(name),
        watch_only: true,
        direct_launch: false,
    }
}

pub fn watch_spec(id: &str, name: &str, game_dir: &FsPath, profile: &ScaleProfile) -> (spec:
    LaunchSpec)
    ensures
        spec@ == following(id@, name@, game_dir@, profile@),
{
    let spec = LaunchSpec {
        game_id: id.to_owned(),
        exe: String::new(),
        args: Vec::new(),
        game_dir: game_dir.copy(),
        wine_prefix: None,
        profile: profile.copy(),
        process_name: Some(name.to_owned()),
        watch_only: true,
        direct_launch: false,
    };
    assert(spec@ =~~= following(id@, name@, game_dir@, profile@));
    spec
}

// ---------------------------------------------------------------------------------------------
// What holds of launches

/// A game is started as the library has it, where it was found: with its own arguments, profile,
/// process name and way of starting, in the directory that was found for it, and with the prefix
/// that was found for it.
pub proof fn a_game_is_started_as_it_is_stored(
    id: Seq<char>,
    game: Game,
    game_dir: Seq<u8>,
    exe: Seq<u8>,
    wine_prefix: Seq<u8>,
)
    ensures
        ({
            let launch = starting(id, game, game_dir, exe, wine_prefix);
            &&& launch.game_id == id
            &&& launch.exe == path::lossy_text(exe)
            &&& launch.args == game.launch_args
            &&& launch.game_dir == game_dir
            &&& launch.wine_prefix == Some(wine_prefix)
            &&& launch.profile == game.scale_profile
            &&& launch.process_name == game.process_name
            &&& launch.direct_launch == game.direct_launch
            &&& !launch.watch_only
        }),
{
}

/// Following a game starts nothing: there is no program, no argument and no prefix, and the
/// process that is followed is the one that was named.
pub proof fn following_starts_nothing(
    id: Seq<char>,
    name: Seq<char>,
    game_dir: Seq<u8>,
    profile: Profile,
)
    ensures
        ({
            let launch = following(id, name, game_dir, profile);
            &&& launch.game_id == id
            &&& launch.process_name == Some(name)
            &&& launch.game_dir == game_dir
            &&& launch.profile == profile
            &&& launch.watch_only
            &&& launch.exe.len() == 0 && launch.args.len() == 0
            &&& launch.wine_prefix is None
            &&& !launch.direct_launch
        }),
{
}

} // verus!
