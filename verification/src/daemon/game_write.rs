//! The two ways in which a client writes to the library: a new game, and changes to one.
//!
//! A reference to a place on a disk is what counts; the path beside it is dropped. A reference
//! is worked out only at the moment when the user hands over a path, and one that the user gave,
//! or said is not wanted, is never replaced.

use crate::clock;
use crate::clock::moment;
use crate::config::locations;
use crate::config::locations::infer_reference;
use crate::config::model;
use crate::config::model::{
    copy_path, copy_saves, copy_text, Config, Game, GameConfig, SaveLocation, SavePath, Settings,
};
use crate::config::profile;
use crate::config::profile::{Profile, ScaleProfile};
use crate::daemon::protocol;
use crate::daemon::protocol::success;
use crate::game::ids;
use crate::game::ids::generate_unique_game_id;
use crate::game::library;
use crate::game::library::exe_owner;
use crate::json;
use crate::json::{no_members, text, with, Json, JsonValue};
use crate::mount::table;
use crate::mount::table::{copy_reference, MountEntry, MountPath, MountTable, Reference};
use crate::path;
use crate::path::FsPath;
use crate::text::chars;
use crate::text::chars::copy_texts;
use crate::text::glue::{glue2, glue3};
use crate::text::search;
use crate::text::search::{is_blank, trimmed};
use vstd::prelude::*;
use vstd::utf8::*;

verus! {

pub open spec fn unknown_game(id: Seq<char>) -> Seq<char> {
    "配置中找不到游戏: "@ + id
}

// ---------------------------------------------------------------------------------------------
// A new game

/// What a client says of a new game.
pub struct NewGame {
    pub name: String,
    pub exe_path: FsPath,
    pub game_dir: Option<FsPath>,
    pub game_dir_mount: Option<MountPath>,
    pub exe_mount: Option<MountPath>,
}

/// What the machine says of a new game.
pub struct NewGameFacts {
    /// The program is a file here.
    pub exe_is_file: bool,
    /// The directory that was given is one here.
    pub dir_is_dir: bool,
    /// The programs of the games, as the file system spells them, and the one of the new game.
    pub exes: Vec<Option<FsPath>>,
    pub wanted: FsPath,
    /// The directory and the program as the file system spells them, where they are here.
    pub canonical_dir: Option<FsPath>,
    pub canonical_exe: Option<FsPath>,
    pub fingerprint: Option<String>,
}

/// The directory of a new game: the one that was given, else where the program is.
pub open spec fn directory_of(new: NewGame) -> Seq<u8> {
    let given = match new.game_dir {
        Some(dir) => dir@,
        None => Seq::empty(),
    };
    if given.len() > 0 {
        given
    } else {
        match path::parent_of(new.exe_path@) {
            Some(parent) => parent,
            None => encode_utf8("."@),
        }
    }
}

pub fn directory_for(new: &NewGame) -> (dir: FsPath)
    ensures
        dir@ == directory_of(*new),
{
    match &new.game_dir {
        Some(dir) => if !dir.is_empty() {
            return dir.copy();
        },
        None => {},
    }
    match new.exe_path.parent() {
        Some(parent) => parent,
        None => FsPath::from_text("."),
    }
}

pub open spec fn reference_complaint(reference: Option<Reference>) -> Option<Seq<char>> {
    match reference {
        Some(reference) => if table::is_valid(reference) {
            None
        } else {
            Some(table::complaint(reference))
        },
        None => None,
    }
}

fn check_reference(reference: &Option<MountPath>) -> (out: Result<(), String>)
    ensures
        match out {
            Ok(_) => reference_complaint(table::reference_view(*reference)) is None,
            Err(message) => reference_complaint(table::reference_view(*reference)) == Some(
                message@,
            ),
        },
{
    match reference {
        Some(reference) => reference.validate(),
        None => Ok(()),
    }
}

pub open spec fn owned_words(owner: Seq<char>) -> Seq<char> {
    "可执行文件已经属于「"@ + owner
        + "」：同一个 exe 只能建一条档案（两条档案会让云端的版本历史分家、观测同一个进程时分不清谁在跑）"@
}

/// What stands in the way of a new game. With a reference a path need not lead anywhere now: the
/// disk may be in another machine.
pub open spec fn creation_complaint(
    games: Seq<(Seq<char>, Game)>,
    new: NewGame,
    facts: NewGameFacts,
) -> Option<Seq<char>> {
    let dir_reference = table::reference_view(new.game_dir_mount);
    let exe_reference = table::reference_view(new.exe_mount);
    let given = match new.game_dir {
        Some(dir) => dir@,
        None => Seq::empty(),
    };
    let owner = library::owner_at(games, facts.exes@, facts.wanted@, None, 0);
    if search::trim(new.name@).len() == 0 {
        Some("名称不能为空"@)
    } else if reference_complaint(dir_reference) is Some {
        reference_complaint(dir_reference)
    } else if reference_complaint(exe_reference) is Some {
        reference_complaint(exe_reference)
    } else if exe_reference is None && !facts.exe_is_file {
        Some("可执行文件不存在: "@ + path::lossy_text(new.exe_path@))
    } else if given.len() > 0 && dir_reference is None && !facts.dir_is_dir {
        Some("游戏目录不存在: "@ + path::lossy_text(given))
    } else if owner is Some {
        Some(owned_words(games[owner.unwrap()].1.name))
    } else if ids::is_unique_id(games, search::trim(new.name@), Seq::empty()) {
        Some("这个名称无法生成合法的游戏 ID，请换一个"@)
    } else {
        None
    }
}

/// The game that is made: with the references that were given, else with those that its paths
/// lead to now.
pub open spec fn created(
    new: NewGame,
    facts: NewGameFacts,
    mounts: Seq<MountEntry>,
    now: Seq<char>,
) -> Game {
    let game_dir_mount = match table::reference_view(new.game_dir_mount) {
        Some(reference) => Some(reference),
        None => locations::infer(mounts, model::path_view(facts.canonical_dir)),
    };
    let exe_mount = match table::reference_view(new.exe_mount) {
        Some(reference) => Some(reference),
        None => locations::infer(mounts, model::path_view(facts.canonical_exe)),
    };
    Game {
        name: search::trim(new.name@),
        game_dir: if game_dir_mount is Some {
            Seq::empty()
        } else {
            directory_of(new)
        },
        game_dir_mount,
        exe_path: if exe_mount is Some {
            Seq::empty()
        } else {
            new.exe_path@
        },
        exe_mount,
        exe_fingerprint: chars::text_view(facts.fingerprint),
        launch_args: Seq::empty(),
        save_paths: Seq::empty(),
        wine_prefix: None,
        auto_watch: true,
        direct_launch: false,
        process_name: None,
        scale_profile: profile::default_profile(),
        created_at: now,
        cloud_id: None,
        cloud_dir: None,
        cloud_rejected: Seq::empty(),
        sync_enabled: true,
        cloud_conclusion: None,
    }
}

pub open spec fn created_json(id: Seq<char>, name: Seq<char>) -> JsonValue {
    JsonValue::Object(seq![("id"@, JsonValue::Text(id)), ("name"@, JsonValue::Text(name))])
}

fn build_game(
    new: &NewGame,
    facts: &NewGameFacts,
    mounts: &MountTable,
    name: String,
    now: String,
) -> (game: GameConfig)
    requires
        name@ == search::trim(new.name@),
    ensures
        game@ == created(*new, *facts, mounts@, now@),
{
    let game_dir_mount = match &new.game_dir_mount {
        Some(reference) => Some(reference.copy()),
        None => infer_reference(mounts, &facts.canonical_dir),
    };
    let exe_mount = match &new.exe_mount {
        Some(reference) => Some(reference.copy()),
        None => infer_reference(mounts, &facts.canonical_exe),
    };
    let game_dir = if game_dir_mount.is_some() {
        FsPath::empty()
    } else {
        directory_for(new)
    };
    let exe_path = if exe_mount.is_some() {
        FsPath::empty()
    } else {
        new.exe_path.copy()
    };
    let game = GameConfig {
        name,
        game_dir,
        game_dir_mount,
        exe_path,
        exe_mount,
        exe_fingerprint: copy_text(&facts.fingerprint),
        launch_args: Vec::new(),
        save_paths: Vec::new(),
        wine_prefix: None,
        auto_watch: true,
        direct_launch: false,
        process_name: None,
        scale_profile: ScaleProfile::default_for(),
        created_at: now,
        cloud_id: None,
        cloud_dir: None,
        cloud_rejected: Vec::new(),
        sync_enabled: true,
        cloud_conclusion: None,
    };
    assert(game@.launch_args =~= Seq::<Seq<char>>::empty());
    assert(game@.save_paths =~= Seq::empty());
    assert(game@.cloud_rejected =~= Seq::<Seq<char>>::empty());
    game
}

/// A game was added: under a new id, with what the user described and the machine says.
pub open spec fn creation(
    before: Settings,
    after: Settings,
    reply: JsonValue,
    id: Seq<char>,
    game: Game,
) -> bool {
    ids::is_unique_id(before.games, game.name, id) && id.len() > 0 && reply == created_json(
        id,
        game.name,
    ) && after == (Settings { games: before.games.push((id, game)), ..before })
}

/// Adds a game that the user described, as of a moment. Nothing is added where something stands
/// in the way.
pub fn create_game_at(
    config: &mut Config,
    new: &NewGame,
    facts: &NewGameFacts,
    mounts: &MountTable,
    now: String,
) -> (out: Result<Json, String>)
    ensures
        old(config).wf() ==> final(config).wf(),
        match out {
            Ok(reply) => creation_complaint(old(config)@.games, *new, *facts) is None && exists|
                id: Seq<char>,
            | #[trigger]
                creation(
                    old(config)@,
                    final(config)@,
                    reply@,
                    id,
                    created(*new, *facts, mounts@, now@),
                ),
            Err(message) => creation_complaint(old(config)@.games, *new, *facts) == Some(message@)
                && final(config)@ == old(config)@,
        },
{
    let ghost games = config@.games;
    let name = trimmed(new.name.as_str());
    if name.as_str().is_empty() {
        return Err("名称不能为空".to_owned());
    }
    match check_reference(&new.game_dir_mount) {
        Ok(_) => {},
        Err(message) => {
            return Err(message);
        },
    }
    match check_reference(&new.exe_mount) {
        Ok(_) => {},
        Err(message) => {
            return Err(message);
        },
    }
    if new.exe_mount.is_none() && !facts.exe_is_file {
        return Err(glue2("可执行文件不存在: ", new.exe_path.text().as_str()));
    }
    match &new.game_dir {
        Some(dir) => if !dir.is_empty() && new.game_dir_mount.is_none() && !facts.dir_is_dir {
            return Err(glue2("游戏目录不存在: ", dir.text().as_str()));
        },
        None => {},
    }
    match exe_owner(config, &facts.exes, &facts.wanted, None) {
        Some(owner) => {
            return Err(
                glue3(
                    "可执行文件已经属于「",
                    owner.as_str(),
                    "」：同一个 exe 只能建一条档案（两条档案会让云端的版本历史分家、观测同一个进程时分不清谁在跑）",
                ),
            );
        },
        None => {},
    }
    let id = generate_unique_game_id(config, name.as_str());
    if id.as_str().is_empty() {
        assert(id@ =~= Seq::<char>::empty());
        return Err("这个名称无法生成合法的游戏 ID，请换一个".to_owned());
    }
    proof {
        if ids::is_unique_id(games, name@, Seq::empty()) {
            ids::a_new_id_is_determined(games, name@, id@, Seq::empty());
        }
    }
    let reply = with(no_members(), "id", text(id.as_str()));
    let reply = with(reply, "name", text(name.as_str()));
    assert(json::members_view(reply@) =~= seq![
        ("id"@, JsonValue::Text(id@)),
        ("name"@, JsonValue::Text(name@)),
    ]);
    let ghost before = config@;
    let ghost taken = id@;
    let game = build_game(new, facts, mounts, name, now);
    let ghost own = game@;
    config.push_game(id, game);
    assert(creation(before, config@, Json::Object(reply)@, taken, own));
    Ok(Json::Object(reply))
}

/// Adds a game that the user described, as of now.
pub fn create_game(
    config: &mut Config,
    new: &NewGame,
    facts: &NewGameFacts,
    mounts: &MountTable,
) -> (out: Result<Json, String>)
    ensures
        old(config).wf() ==> final(config).wf(),
        match out {
            Ok(reply) => creation_complaint(old(config)@.games, *new, *facts) is None && exists|
                id: Seq<char>,
                now: Seq<char>,
            |
                clock::is_moment(now) && #[trigger] creation(
                    old(config)@,
                    final(config)@,
                    reply@,
                    id,
                    created(*new, *facts, mounts@, now),
                ),
            Err(message) => creation_complaint(old(config)@.games, *new, *facts) == Some(message@)
                && final(config)@ == old(config)@,
        },
{
    create_game_at(config, new, facts, mounts, moment())
}

// ---------------------------------------------------------------------------------------------
// Changes to a game

/// What a client wants changed. What is not mentioned stays as it is; for what may be missing,
/// `Some(None)` takes it away.
pub struct GamePatch {
    pub name: Option<String>,
    pub game_dir: Option<FsPath>,
    pub exe_path: Option<FsPath>,
    pub game_dir_mount: Option<Option<MountPath>>,
    pub exe_mount: Option<Option<MountPath>>,
    pub launch_args: Option<Vec<String>>,
    pub save_paths: Option<Vec<SavePath>>,
    pub wine_prefix: Option<Option<FsPath>>,
    pub auto_watch: Option<bool>,
    pub sync_enabled: Option<bool>,
    pub direct_launch: Option<bool>,
    pub process_name: Option<Option<String>>,
    pub profile: Option<ScaleProfile>,
}

/// What the machine says of the places in a patch.
pub struct PatchFacts {
    pub dir_is_dir: bool,
    pub exe_is_file: bool,
    pub canonical_dir: Option<FsPath>,
    pub canonical_exe: Option<FsPath>,
    /// The fingerprint of the program that the patch names.
    pub fingerprint: Option<String>,
    /// The fingerprint of the program that the reference of the patch leads to.
    pub mounted_fingerprint: Option<String>,
    /// The save locations of the patch as the file system spells them.
    pub canonical_saves: Vec<Option<FsPath>>,
    /// What keeps a save location from being found, by its place in the patch.
    pub save_problems: Vec<Option<String>>,
}

pub open spec fn game_outcome(out: Result<GameConfig, String>) -> Result<Game, Seq<char>> {
    match out {
        Ok(game) => Ok(game@),
        Err(message) => Err(message@),
    }
}

/// The reference that a patch gives.
pub open spec fn given(reference: Option<Option<MountPath>>) -> Option<Reference> {
    match reference {
        Some(reference) => table::reference_view(reference),
        None => None,
    }
}

/// The game as far as its places matter to the save locations of the same patch.
pub open spec fn moved(game: Game, patch: GamePatch) -> Game {
    let game_dir = match patch.game_dir {
        Some(dir) => dir@,
        None => game.game_dir,
    };
    let dropped = match patch.game_dir {
        Some(dir) => dir@.len() > 0,
        None => false,
    };
    Game {
        game_dir,
        game_dir_mount: if patch.game_dir_mount is Some {
            given(patch.game_dir_mount)
        } else if dropped {
            None
        } else {
            game.game_dir_mount
        },
        exe_mount: if patch.exe_mount is Some {
            given(patch.exe_mount)
        } else {
            game.exe_mount
        },
        ..game
    }
}

/// The first problem with a save location that goes by its path.
pub open spec fn first_problem(
    saves: Seq<SaveLocation>,
    problems: Seq<Option<String>>,
    from: int,
) -> Option<Seq<char>>
    decreases saves.len() - from,
{
    if from < 0 || from >= saves.len() {
        None
    } else if saves[from].mount is None && from < problems.len() && problems[from] is Some {
        Some(problems[from].unwrap()@)
    } else {
        first_problem(saves, problems, from + 1)
    }
}

/// The save locations of a patch, brought together with the stored ones, and the directory that
/// relative ones start from.
pub open spec fn saves_of(
    game: Game,
    patch: GamePatch,
    canonical_saves: Seq<Option<FsPath>>,
    mounts: Seq<MountEntry>,
) -> Result<(Seq<SaveLocation>, Seq<u8>), Seq<char>> {
    let incoming = match patch.save_paths {
        Some(list) => model::saves_view(list@),
        None => Seq::empty(),
    };
    match locations::game_dir_now(moved(game, patch), mounts) {
        Ok(dir) => Ok(
            (locations::all_reconciled(game.save_paths, incoming, mounts, canonical_saves), dir),
        ),
        Err(message) => Err(message),
    }
}

fn moved_game(game: &GameConfig, patch: &GamePatch) -> (out: GameConfig)
    ensures
        out@ == moved(game@, *patch),
{
    let mut out = game.copy();
    match &patch.game_dir {
        Some(dir) => {
            out.game_dir = dir.copy();
            if !dir.is_empty() {
                out.game_dir_mount = None;
            }
        },
        None => {},
    }
    match &patch.game_dir_mount {
        Some(reference) => {
            out.game_dir_mount = copy_reference(reference);
        },
        None => {},
    }
    match &patch.exe_mount {
        Some(reference) => {
            out.exe_mount = copy_reference(reference);
        },
        None => {},
    }
    out
}

/// The save locations that a patch leads to, and the directory that relative ones start from:
/// what has to be looked at before the patch is applied.
pub fn saves_after(
    game: &GameConfig,
    patch: &GamePatch,
    canonical_saves: &Vec<Option<FsPath>>,
    mounts: &MountTable,
) -> (out: Result<(Vec<SavePath>, FsPath), String>)
    ensures
        match out {
            Ok((saves, dir)) => saves_of(game@, *patch, canonical_saves@, mounts@) == Ok::<
                (Seq<SaveLocation>, Seq<u8>),
                Seq<char>,
            >((model::saves_view(saves@), dir@)),
            Err(message) => saves_of(game@, *patch, canonical_saves@, mounts@) == Err::<
                (Seq<SaveLocation>, Seq<u8>),
                Seq<char>,
            >(message@),
        },
{
    let incoming = match &patch.save_paths {
        Some(list) => copy_saves(list),
        None => {
            let none: Vec<SavePath> = Vec::new();
            assert(model::saves_view(none@) =~= Seq::empty());
            none
        },
    };
    let saves = game.reconcile_save_paths(incoming, mounts, canonical_saves);
    match moved_game(game, patch).resolved_game_dir_with(mounts) {
        Ok(dir) => Ok((saves, dir)),
        Err(message) => Err(message),
    }
}

pub open spec fn saves_step(
    game: Game,
    patch: GamePatch,
    facts: PatchFacts,
    mounts: Seq<MountEntry>,
) -> Result<Seq<SaveLocation>, Seq<char>> {
    match patch.save_paths {
        None => Ok(game.save_paths),
        Some(_) => match saves_of(game, patch, facts.canonical_saves@, mounts) {
            Ok((saves, _)) => match first_problem(saves, facts.save_problems@, 0) {
                Some(message) => Err(message),
                None => Ok(saves),
            },
            Err(message) => Err(message),
        },
    }
}

fn check_saves(
    game: &GameConfig,
    patch: &GamePatch,
    facts: &PatchFacts,
    mounts: &MountTable,
) -> (out: Result<Vec<SavePath>, String>)
    ensures
        match out {
            Ok(saves) => saves_step(game@, *patch, *facts, mounts@) == Ok::<
                Seq<SaveLocation>,
                Seq<char>,
            >(model::saves_view(saves@)),
            Err(message) => saves_step(game@, *patch, *facts, mounts@) == Err::<
                Seq<SaveLocation>,
                Seq<char>,
            >(message@),
        },
{
    if patch.save_paths.is_none() {
        return Ok(copy_saves(&game.save_paths));
    }
    let saves = match saves_after(game, patch, &facts.canonical_saves, mounts) {
        Ok((saves, _)) => saves,
        Err(message) => {
            return Err(message);
        },
    };
    let ghost all = model::saves_view(saves@);
    let mut i: usize = 0;
    while i < saves.len()
        invariant
            i <= saves@.len(),
            all == model::saves_view(saves@),
            patch.save_paths is Some,
            saves_of(game@, *patch, facts.canonical_saves@, mounts@) is Ok,
            saves_of(game@, *patch, facts.canonical_saves@, mounts@)->Ok_0.0 == all,
            first_problem(all, facts.save_problems@, 0) == first_problem(
                all,
                facts.save_problems@,
                i as int,
            ),
        decreases saves@.len() - i,
    {
        assert(all[i as int] == saves@[i as int]@);
        if saves[i].mount.is_none() && i < facts.save_problems.len() {
            match &facts.save_problems[i] {
                Some(message) => {
                    return Err(message.clone());
                },
                None => {},
            }
        }
        i += 1;
    }
    Ok(saves)
}

pub open spec fn name_step(game: Game, patch: GamePatch) -> Result<Game, Seq<char>> {
    match patch.name {
        Some(name) => if search::trim(name@).len() == 0 {
            Err("名称不能为空"@)
        } else {
            Ok(Game { name: name@, ..game })
        },
        None => Ok(game),
    }
}

fn change_name(game: GameConfig, patch: &GamePatch) -> (out: Result<GameConfig, String>)
    ensures
        game_outcome(out) == name_step(game@, *patch),
{
    let mut game = game;
    match &patch.name {
        Some(name) => {
            if is_blank(name.as_str()) {
                return Err("名称不能为空".to_owned());
            }
            game.name = name.clone();
        },
        None => {},
    }
    Ok(game)
}

pub open spec fn dir_step(
    game: Game,
    patch: GamePatch,
    facts: PatchFacts,
    mounts: Seq<MountEntry>,
) -> Result<Game, Seq<char>> {
    match patch.game_dir {
        None => Ok(game),
        Some(dir) => {
            let referenced = given(patch.game_dir_mount) is Some;
            if dir@.len() == 0 && !referenced && game.game_dir_mount is None {
                Err("游戏目录和挂载引用至少需要填写一项"@)
            } else if dir@.len() > 0 && !referenced && !facts.dir_is_dir {
                Err("游戏目录不存在: "@ + path::lossy_text(dir@))
            } else if dir@.len() == 0 {
                Ok(Game { game_dir: dir@, ..game })
            } else {
                let game_dir_mount = if patch.game_dir_mount is Some {
                    None
                } else {
                    locations::infer(mounts, model::path_view(facts.canonical_dir))
                };
                Ok(
                    Game {
                        game_dir_mount,
                        game_dir: if game_dir_mount is Some {
                            Seq::empty()
                        } else {
                            dir@
                        },
                        ..game
                    },
                )
            }
        },
    }
}

fn has_given(reference: &Option<Option<MountPath>>) -> (yes: bool)
    ensures
        yes == (given(*reference) is Some),
{
    match reference {
        Some(reference) => reference.is_some(),
        None => false,
    }
}

fn change_dir(
    game: GameConfig,
    patch: &GamePatch,
    facts: &PatchFacts,
    mounts: &MountTable,
) -> (out: Result<GameConfig, String>)
    ensures
        game_outcome(out) == dir_step(game@, *patch, *facts, mounts@),
{
    let mut game = game;
    match &patch.game_dir {
        Some(dir) => {
            let referenced = has_given(&patch.game_dir_mount);
            if dir.is_empty() && !referenced && game.game_dir_mount.is_none() {
                return Err("游戏目录和挂载引用至少需要填写一项".to_owned());
            }
            if !dir.is_empty() && !referenced && !facts.dir_is_dir {
                return Err(glue2("游戏目录不存在: ", dir.text().as_str()));
            }
            game.game_dir = dir.copy();
            if !dir.is_empty() {
                game.game_dir_mount = None;
                if patch.game_dir_mount.is_none() {
                    game.game_dir_mount = infer_reference(mounts, &facts.canonical_dir);
                }
                if game.game_dir_mount.is_some() {
                    game.game_dir = FsPath::empty();
                }
            }
        },
        None => {},
    }
    Ok(game)
}

pub open spec fn exe_step(
    game: Game,
    patch: GamePatch,
    facts: PatchFacts,
    mounts: Seq<MountEntry>,
) -> Result<Game, Seq<char>> {
    match patch.exe_path {
        None => Ok(game),
        Some(exe) => if !facts.exe_is_file && given(patch.exe_mount) is None {
            Err("可执行文件不存在: "@ + path::lossy_text(exe@))
        } else {
            let exe_mount = if patch.exe_mount is Some {
                None
            } else {
                locations::infer(mounts, model::path_view(facts.canonical_exe))
            };
            Ok(
                Game {
                    // Worked out again for every program that is handed over: an old answer
                    // could tie the game to another one in the cloud.
                    exe_fingerprint: chars::text_view(facts.fingerprint),
                    exe_mount,
                    exe_path: if exe_mount is Some {
                        Seq::empty()
                    } else {
                        exe@
                    },
                    ..game
                },
            )
        },
    }
}

fn change_exe(
    game: GameConfig,
    patch: &GamePatch,
    facts: &PatchFacts,
    mounts: &MountTable,
) -> (out: Result<GameConfig, String>)
    ensures
        game_outcome(out) == exe_step(game@, *patch, *facts, mounts@),
{
    let mut game = game;
    match &patch.exe_path {
        Some(exe) => {
            if !facts.exe_is_file && !has_given(&patch.exe_mount) {
                return Err(glue2("可执行文件不存在: ", exe.text().as_str()));
            }
            game.exe_fingerprint = copy_text(&facts.fingerprint);
            game.exe_path = exe.copy();
            game.exe_mount = None;
            if patch.exe_mount.is_none() {
                game.exe_mount = infer_reference(mounts, &facts.canonical_exe);
            }
            if game.exe_mount.is_some() {
                game.exe_path = FsPath::empty();
            }
        },
        None => {},
    }
    Ok(game)
}

pub open spec fn dir_reference_step(game: Game, patch: GamePatch) -> Result<Game, Seq<char>> {
    match patch.game_dir_mount {
        None => Ok(game),
        Some(None) => Ok(Game { game_dir_mount: None, ..game }),
        Some(Some(reference)) => if table::is_valid(reference@) {
            Ok(Game { game_dir_mount: Some(reference@), game_dir: Seq::empty(), ..game })
        } else {
            Err(table::complaint(reference@))
        },
    }
}

fn change_dir_reference(game: GameConfig, patch: &GamePatch) -> (out: Result<GameConfig, String>)
    ensures
        game_outcome(out) == dir_reference_step(game@, *patch),
{
    let mut game = game;
    match &patch.game_dir_mount {
        Some(Some(reference)) => {
            match reference.validate() {
                Ok(_) => {},
                Err(message) => {
                    return Err(message);
                },
            }
            game.game_dir_mount = Some(reference.copy());
            game.game_dir = FsPath::empty();
        },
        Some(None) => {
            game.game_dir_mount = None;
        },
        None => {},
    }
    Ok(game)
}

pub open spec fn exe_reference_step(
    game: Game,
    patch: GamePatch,
    facts: PatchFacts,
    mounts: Seq<MountEntry>,
) -> Result<Game, Seq<char>> {
    match patch.exe_mount {
        None => Ok(game),
        Some(None) => Ok(Game { exe_mount: None, ..game }),
        Some(Some(reference)) => if table::is_valid(reference@) {
            Ok(
                Game {
                    exe_mount: Some(reference@),
                    exe_path: Seq::empty(),
                    exe_fingerprint: match table::resolution(mounts, reference@) {
                        Ok(_) => chars::text_view(facts.mounted_fingerprint),
                        Err(_) => None,
                    },
                    ..game
                },
            )
        } else {
            Err(table::complaint(reference@))
        },
    }
}

fn change_exe_reference(
    game: GameConfig,
    patch: &GamePatch,
    facts: &PatchFacts,
    mounts: &MountTable,
) -> (out: Result<GameConfig, String>)
    ensures
        game_outcome(out) == exe_reference_step(game@, *patch, *facts, mounts@),
{
    let mut game = game;
    match &patch.exe_mount {
        Some(Some(reference)) => {
            match reference.validate() {
                Ok(_) => {},
                Err(message) => {
                    return Err(message);
                },
            }
            game.exe_mount = Some(reference.copy());
            game.exe_path = FsPath::empty();
            game.exe_fingerprint = match mounts.resolve(reference) {
                Ok(_) => copy_text(&facts.mounted_fingerprint),
                Err(_) => None,
            };
        },
        Some(None) => {
            game.exe_mount = None;
        },
        None => {},
    }
    Ok(game)
}

/// What a name of a process comes to: one that is blank is none.
pub open spec fn process_of(name: Option<String>) -> Option<Seq<char>> {
    match name {
        Some(name) => if search::trim(name@).len() == 0 {
            None
        } else {
            Some(name@)
        },
        None => None,
    }
}

pub open spec fn plain_step(game: Game, patch: GamePatch, saves: Seq<SaveLocation>) -> Game {
    Game {
        launch_args: match patch.launch_args {
            Some(args) => chars::texts(args@),
            None => game.launch_args,
        },
        save_paths: saves,
        wine_prefix: match patch.wine_prefix {
            Some(prefix) => model::path_view(prefix),
            None => game.wine_prefix,
        },
        process_name: match patch.process_name {
            Some(name) => process_of(name),
            None => game.process_name,
        },
        auto_watch: match patch.auto_watch {
            Some(on) => on,
            None => game.auto_watch,
        },
        direct_launch: match patch.direct_launch {
            Some(on) => on,
            None => game.direct_launch,
        },
        ..game
    }
}

fn change_plain(game: GameConfig, patch: &GamePatch, saves: Vec<SavePath>) -> (out: GameConfig)
    ensures
        out@ == plain_step(game@, *patch, model::saves_view(saves@)),
{
    let mut game = game;
    match &patch.launch_args {
        Some(args) => {
            game.launch_args = copy_texts(args);
        },
        None => {},
    }
    game.save_paths = saves;
    match &patch.wine_prefix {
        Some(prefix) => {
            game.wine_prefix = copy_path(prefix);
        },
        None => {},
    }
    match &patch.process_name {
        Some(Some(name)) => {
            game.process_name = if is_blank(name.as_str()) {
                None
            } else {
                Some(name.clone())
            };
        },
        Some(None) => {
            game.process_name = None;
        },
        None => {},
    }
    match patch.auto_watch {
        Some(on) => {
            game.auto_watch = on;
        },
        None => {},
    }
    match patch.direct_launch {
        Some(on) => {
            game.direct_launch = on;
        },
        None => {},
    }
    game
}

/// Syncing needs a place to sync; switched on again, it starts afresh, and what was decided
/// before is forgotten.
pub open spec fn sync_step(game: Game, patch: GamePatch) -> Result<Game, Seq<char>> {
    match patch.sync_enabled {
        None => Ok(game),
        Some(on) => if on && game.save_paths.len() == 0 {
            Err("还没有存档位置，开不了云同步：先填上存档位置"@)
        } else {
            Ok(
                Game {
                    sync_enabled: on,
                    cloud_conclusion: if on {
                        None
                    } else {
                        game.cloud_conclusion
                    },
                    ..game
                },
            )
        },
    }
}

fn change_sync(game: GameConfig, patch: &GamePatch) -> (out: Result<GameConfig, String>)
    ensures
        game_outcome(out) == sync_step(game@, *patch),
{
    let mut game = game;
    assert(game@.save_paths.len() == game.save_paths@.len());
    match patch.sync_enabled {
        Some(on) => {
            if on && game.save_paths.len() == 0 {
                return Err("还没有存档位置，开不了云同步：先填上存档位置".to_owned());
            }
            game.sync_enabled = on;
            if on {
                game.cloud_conclusion = None;
            }
        },
        None => {},
    }
    Ok(game)
}

pub open spec fn profile_step(game: Game, patch: GamePatch) -> Result<Game, Seq<char>> {
    match patch.profile {
        None => Ok(game),
        Some(wanted) => {
            let scale_profile = Profile {
                algorithm: profile::in_range(wanted@.algorithm),
                ..wanted@
            };
            match profile::profile_complaint(scale_profile) {
                Some(message) => Err(message),
                None => Ok(Game { scale_profile, ..game }),
            }
        },
    }
}

fn change_profile(game: GameConfig, patch: &GamePatch) -> (out: Result<GameConfig, String>)
    ensures
        game_outcome(out) == profile_step(game@, *patch),
{
    let mut game = game;
    match &patch.profile {
        Some(wanted) => {
            let mut own = wanted.copy();
            own.normalize();
            match own.validate() {
                Ok(_) => {},
                Err(message) => {
                    return Err(message);
                },
            }
            game.scale_profile = own;
        },
        None => {},
    }
    Ok(game)
}

/// The places of a game after a patch: its paths first, then the references, which win where
/// both are given.
pub open spec fn places_step(
    game: Game,
    patch: GamePatch,
    facts: PatchFacts,
    mounts: Seq<MountEntry>,
) -> Result<Game, Seq<char>> {
    match dir_step(game, patch, facts, mounts) {
        Err(message) => Err(message),
        Ok(game) => match exe_step(game, patch, facts, mounts) {
            Err(message) => Err(message),
            Ok(game) => match dir_reference_step(game, patch) {
                Err(message) => Err(message),
                Ok(game) => exe_reference_step(game, patch, facts, mounts),
            },
        },
    }
}

fn change_places(
    game: GameConfig,
    patch: &GamePatch,
    facts: &PatchFacts,
    mounts: &MountTable,
) -> (out: Result<GameConfig, String>)
    ensures
        game_outcome(out) == places_step(game@, *patch, *facts, mounts@),
{
    let game = match change_dir(game, patch, facts, mounts) {
        Ok(game) => game,
        Err(message) => {
            return Err(message);
        },
    };
    let game = match change_exe(game, patch, facts, mounts) {
        Ok(game) => game,
        Err(message) => {
            return Err(message);
        },
    };
    let game = match change_dir_reference(game, patch) {
        Ok(game) => game,
        Err(message) => {
            return Err(message);
        },
    };
    change_exe_reference(game, patch, facts, mounts)
}

/// The game after a patch, or the first thing that is wrong with the patch.
pub open spec fn updated(
    game: Game,
    patch: GamePatch,
    facts: PatchFacts,
    mounts: Seq<MountEntry>,
) -> Result<Game, Seq<char>> {
    match saves_step(game, patch, facts, mounts) {
        Err(message) => Err(message),
        Ok(saves) => match name_step(game, patch) {
            Err(message) => Err(message),
            Ok(game) => match places_step(game, patch, facts, mounts) {
                Err(message) => Err(message),
                Ok(game) => match sync_step(plain_step(game, patch, saves), patch) {
                    Err(message) => Err(message),
                    Ok(game) => profile_step(game, patch),
                },
            },
        },
    }
}

fn changed_game(
    game: &GameConfig,
    patch: &GamePatch,
    facts: &PatchFacts,
    mounts: &MountTable,
) -> (out: Result<GameConfig, String>)
    ensures
        game_outcome(out) == updated(game@, *patch, *facts, mounts@),
{
    let saves = match check_saves(game, patch, facts, mounts) {
        Ok(saves) => saves,
        Err(message) => {
            return Err(message);
        },
    };
    let game = match change_name(game.copy(), patch) {
        Ok(game) => game,
        Err(message) => {
            return Err(message);
        },
    };
    let game = match change_places(game, patch, facts, mounts) {
        Ok(game) => game,
        Err(message) => {
            return Err(message);
        },
    };
    let game = match change_sync(change_plain(game, patch, saves), patch) {
        Ok(game) => game,
        Err(message) => {
            return Err(message);
        },
    };
    change_profile(game, patch)
}

/// Changes a game. A patch is applied as a whole, or not at all.
pub fn update_game(
    config: &mut Config,
    id: &str,
    patch: &GamePatch,
    facts: &PatchFacts,
    mounts: &MountTable,
) -> (out: Result<Json, String>)
    ensures
        old(config).wf() ==> final(config).wf(),
        ({
            let games = old(config)@.games;
            let wanted = updated(model::game_at(games, id@), *patch, *facts, mounts@);
            match out {
                Ok(reply) => model::has_game(games, id@) && wanted is Ok && reply@
                    == protocol::success_json() && final(config)@ == (Settings {
                    games: model::with_game(games, id@, wanted->Ok_0),
                    ..old(config)@
                }),
                Err(message) => final(config)@ == old(config)@ && if model::has_game(games, id@) {
                    wanted == Err::<Game, Seq<char>>(message@)
                } else {
                    message@ == unknown_game(id@)
                },
            }
        }),
{
    let at = match config.find(id) {
        Some(at) => at,
        None => {
            return Err(glue2("配置中找不到游戏: ", id));
        },
    };
    let ghost games = config@.games;
    assert(games[at as int] == (config.games@[at as int].0@, config.games@[at as int].1@));
    match changed_game(&config.games[at].1, patch, facts, mounts) {
        Ok(game) => {
            config.put_game(at, game);
            Ok(success())
        },
        Err(message) => Err(message),
    }
}

// ---------------------------------------------------------------------------------------------
// What holds of changes

/// A reference that the user gave is what is stored, and the path beside it is dropped, whatever
/// else the patch says.
pub proof fn a_given_reference_wins(
    game: Game,
    patch: GamePatch,
    facts: PatchFacts,
    mounts: Seq<MountEntry>,
    reference: MountPath,
)
    requires
        patch.exe_mount == Some(Some(reference)),
        updated(game, patch, facts, mounts) is Ok,
    ensures
        updated(game, patch, facts, mounts)->Ok_0.exe_mount == Some(reference@),
        updated(game, patch, facts, mounts)->Ok_0.exe_path.len() == 0,
{
}

/// A reference that the user took away is not worked out again by the same change.
pub proof fn a_reference_taken_away_stays_away(
    game: Game,
    patch: GamePatch,
    facts: PatchFacts,
    mounts: Seq<MountEntry>,
)
    requires
        patch.exe_mount == Some(None::<MountPath>),
        patch.game_dir_mount == Some(None::<MountPath>),
        updated(game, patch, facts, mounts) is Ok,
    ensures
        updated(game, patch, facts, mounts)->Ok_0.exe_mount is None,
        updated(game, patch, facts, mounts)->Ok_0.game_dir_mount is None,
{
}

/// A reference that could lead off its disk is never stored.
pub proof fn a_bad_reference_is_refused(
    game: Game,
    patch: GamePatch,
    facts: PatchFacts,
    mounts: Seq<MountEntry>,
    reference: MountPath,
)
    requires
        patch.exe_mount == Some(Some(reference)) || patch.game_dir_mount == Some(Some(reference)),
        !table::is_valid(reference@),
    ensures
        updated(game, patch, facts, mounts) is Err,
{
}

/// A change leaves alone what the client may not write: the identity of the game in the cloud,
/// what was rejected, and when the game was added.
pub proof fn a_change_keeps_the_identity(
    game: Game,
    patch: GamePatch,
    facts: PatchFacts,
    mounts: Seq<MountEntry>,
)
    requires
        updated(game, patch, facts, mounts) is Ok,
    ensures
        ({
            let after = updated(game, patch, facts, mounts)->Ok_0;
            &&& after.cloud_id == game.cloud_id
            &&& after.cloud_dir == game.cloud_dir
            &&& after.cloud_rejected == game.cloud_rejected
            &&& after.created_at == game.created_at
        }),
{
}

/// Sync cannot be switched on for a game without a save location.
pub proof fn sync_needs_a_save_location(
    game: Game,
    patch: GamePatch,
    facts: PatchFacts,
    mounts: Seq<MountEntry>,
)
    requires
        patch.sync_enabled == Some(true),
        updated(game, patch, facts, mounts) is Ok,
    ensures
        updated(game, patch, facts, mounts)->Ok_0.save_paths.len() > 0,
        updated(game, patch, facts, mounts)->Ok_0.cloud_conclusion is None,
{
}

/// A patch that mentions nothing changes nothing.
pub proof fn an_empty_patch_changes_nothing(
    game: Game,
    patch: GamePatch,
    facts: PatchFacts,
    mounts: Seq<MountEntry>,
)
    requires
        patch == (GamePatch {
            name: None,
            game_dir: None,
            exe_path: None,
            game_dir_mount: None,
            exe_mount: None,
            launch_args: None,
            save_paths: None,
            wine_prefix: None,
            auto_watch: None,
            sync_enabled: None,
            direct_launch: None,
            process_name: None,
            profile: None,
        }),
    ensures
        updated(game, patch, facts, mounts) == Ok::<Game, Seq<char>>(game),
{
}

/// The other games stay as they are.
pub proof fn a_change_is_to_one_game(
    games: Seq<(Seq<char>, Game)>,
    id: Seq<char>,
    game: Game,
    other: int,
)
    requires
        model::has_game(games, id),
        0 <= other < games.len(),
        games[other].0 != id,
    ensures
        model::with_game(games, id, game)[other] == games[other],
        model::with_game(games, id, game).len() == games.len(),
{
    model::position_is_first(games, id, 0);
}

/// A change of the places leaves everything else alone.
proof fn lemma_places_keep_the_rest(
    game: Game,
    patch: GamePatch,
    facts: PatchFacts,
    mounts: Seq<MountEntry>,
)
    requires
        places_step(game, patch, facts, mounts) is Ok,
    ensures
        ({
            let after = places_step(game, patch, facts, mounts)->Ok_0;
            after == (Game {
                game_dir: after.game_dir,
                game_dir_mount: after.game_dir_mount,
                exe_path: after.exe_path,
                exe_mount: after.exe_mount,
                exe_fingerprint: after.exe_fingerprint,
                ..game
            })
        }),
{
}

/// A change sets what it mentions, to what it says, and leaves everything else as it was. (The
/// places of the game have laws of their own.)
pub proof fn a_change_sets_what_it_mentions(
    game: Game,
    patch: GamePatch,
    facts: PatchFacts,
    mounts: Seq<MountEntry>,
)
    requires
        updated(game, patch, facts, mounts) is Ok,
    ensures
        ({
            let after = updated(game, patch, facts, mounts)->Ok_0;
            &&& after.name == if patch.name is Some {
                patch.name.unwrap()@
            } else {
                game.name
            }
            &&& after.launch_args == if patch.launch_args is Some {
                chars::texts(patch.launch_args.unwrap()@)
            } else {
                game.launch_args
            }
            &&& after.wine_prefix == if patch.wine_prefix is Some {
                model::path_view(patch.wine_prefix.unwrap())
            } else {
                game.wine_prefix
            }
            &&& after.auto_watch == if patch.auto_watch is Some {
                patch.auto_watch.unwrap()
            } else {
                game.auto_watch
            }
            &&& after.direct_launch == if patch.direct_launch is Some {
                patch.direct_launch.unwrap()
            } else {
                game.direct_launch
            }
            &&& after.sync_enabled == if patch.sync_enabled is Some {
                patch.sync_enabled.unwrap()
            } else {
                game.sync_enabled
            }
            &&& patch.process_name is None ==> after.process_name == game.process_name
            &&& patch.process_name == Some(None::<String>) ==> after.process_name is None
            &&& patch.process_name is Some && patch.process_name.unwrap() is Some ==> {
                let name = patch.process_name.unwrap().unwrap()@;
                after.process_name == if search::trim(name).len() > 0 {
                    Some(name)
                } else {
                    None
                }
            }
            &&& patch.save_paths is None ==> after.save_paths == game.save_paths
            &&& patch.save_paths is Some ==> after.save_paths.len() == patch.save_paths.unwrap()@.len()
                && after.save_paths == locations::all_reconciled(
                game.save_paths,
                model::saves_view(patch.save_paths.unwrap()@),
                mounts,
                facts.canonical_saves@,
            )
            &&& patch.profile is None ==> after.scale_profile == game.scale_profile
            &&& patch.profile is Some ==> after.scale_profile == (Profile {
                algorithm: profile::in_range(patch.profile.unwrap()@.algorithm),
                ..patch.profile.unwrap()@
            })
            &&& patch.sync_enabled == Some(true) ==> after.cloud_conclusion is None
            &&& patch.sync_enabled != Some(true) ==> after.cloud_conclusion == game.cloud_conclusion
        }),
{
    let saves = saves_step(game, patch, facts, mounts)->Ok_0;
    let named = name_step(game, patch)->Ok_0;
    lemma_places_keep_the_rest(named, patch, facts, mounts);
    let placed = places_step(named, patch, facts, mounts)->Ok_0;
    let plain = plain_step(placed, patch, saves);
    let synced = sync_step(plain, patch)->Ok_0;
    assert(updated(game, patch, facts, mounts) == profile_step(synced, patch));
    assert(synced == (Game {
        sync_enabled: synced.sync_enabled,
        cloud_conclusion: synced.cloud_conclusion,
        ..plain
    }));
}

/// Where the program of a game is after a change: a reference that was given counts; else a path
/// that was given is stored as the reference it leads to, or as it is; and what was not mentioned
/// stays. A program that was handed over anew is identified anew.
pub proof fn a_change_moves_the_program(
    game: Game,
    patch: GamePatch,
    facts: PatchFacts,
    mounts: Seq<MountEntry>,
)
    requires
        updated(game, patch, facts, mounts) is Ok,
    ensures
        ({
            let after = updated(game, patch, facts, mounts)->Ok_0;
            let found = if facts.canonical_exe is Some {
                table::inferred(mounts, facts.canonical_exe.unwrap()@)
            } else {
                None
            };
            &&& patch.exe_mount is None && patch.exe_path is None ==> after.exe_mount
                == game.exe_mount && after.exe_path == game.exe_path && after.exe_fingerprint
                == game.exe_fingerprint
            &&& patch.exe_mount is None && patch.exe_path is Some ==> after.exe_mount == found && (
            found is Some ==> after.exe_path.len() == 0) && (found is None ==> after.exe_path
                == patch.exe_path.unwrap()@) && after.exe_fingerprint == chars::text_view(
                facts.fingerprint,
            )
            &&& patch.exe_mount == Some(None::<MountPath>) ==> after.exe_mount is None
                && after.exe_path == if patch.exe_path is Some {
                patch.exe_path.unwrap()@
            } else {
                game.exe_path
            }
            &&& patch.exe_mount is Some && patch.exe_mount.unwrap() is Some ==> {
                let reference = patch.exe_mount.unwrap().unwrap()@;
                &&& after.exe_mount == Some(reference)
                &&& after.exe_path.len() == 0
                &&& after.exe_fingerprint == if table::resolution(mounts, reference) is Ok {
                    chars::text_view(facts.mounted_fingerprint)
                } else {
                    None
                }
            }
        }),
{
}

/// Where the directory of a game is after a change, in the same way.
pub proof fn a_change_moves_the_directory(
    game: Game,
    patch: GamePatch,
    facts: PatchFacts,
    mounts: Seq<MountEntry>,
)
    requires
        updated(game, patch, facts, mounts) is Ok,
    ensures
        ({
            let after = updated(game, patch, facts, mounts)->Ok_0;
            let found = if facts.canonical_dir is Some {
                table::inferred(mounts, facts.canonical_dir.unwrap()@)
            } else {
                None
            };
            &&& patch.game_dir_mount is None && patch.game_dir is None ==> after.game_dir_mount
                == game.game_dir_mount && after.game_dir == game.game_dir
            &&& patch.game_dir_mount is None && patch.game_dir is Some
                && patch.game_dir.unwrap()@.len() > 0 ==> after.game_dir_mount == found && (
            found is Some ==> after.game_dir.len() == 0) && (found is None ==> after.game_dir
                == patch.game_dir.unwrap()@)
            &&& patch.game_dir_mount is None && patch.game_dir is Some
                && patch.game_dir.unwrap()@.len() == 0 ==> after.game_dir_mount
                == game.game_dir_mount && after.game_dir.len() == 0
            &&& patch.game_dir_mount == Some(None::<MountPath>) ==> after.game_dir_mount is None
                && after.game_dir == if patch.game_dir is Some {
                patch.game_dir.unwrap()@
            } else {
                game.game_dir
            }
            &&& patch.game_dir_mount is Some && patch.game_dir_mount.unwrap() is Some
                ==> after.game_dir_mount == Some(patch.game_dir_mount.unwrap().unwrap()@)
                && after.game_dir.len() == 0
        }),
{
}

/// A change that mentions neither a place nor a save location is made exactly where the name is
/// not blank, the profile can work, and the sync is not switched on without a save location.
pub proof fn when_a_plain_change_is_made(
    game: Game,
    patch: GamePatch,
    facts: PatchFacts,
    mounts: Seq<MountEntry>,
)
    requires
        patch.game_dir is None,
        patch.exe_path is None,
        patch.game_dir_mount is None,
        patch.exe_mount is None,
        patch.save_paths is None,
    ensures
        updated(game, patch, facts, mounts) is Ok <==> {
            &&& patch.name is Some ==> search::trim(patch.name.unwrap()@).len() > 0
            &&& patch.sync_enabled == Some(true) ==> game.save_paths.len() > 0
            &&& patch.profile is Some ==> profile::profile_complaint(
                Profile {
                    algorithm: profile::in_range(patch.profile.unwrap()@.algorithm),
                    ..patch.profile.unwrap()@
                },
            ) is None
        },
{
}

/// A change of the places is made exactly where each of them is there or comes with a reference,
/// the references are good ones, and the directory is not taken away without one.
pub proof fn when_a_move_is_made(
    game: Game,
    patch: GamePatch,
    facts: PatchFacts,
    mounts: Seq<MountEntry>,
)
    requires
        patch.name is None,
        patch.sync_enabled is None,
        patch.profile is None,
        patch.save_paths is None,
    ensures
        ({
            let dir_reference = if patch.game_dir_mount is Some {
                patch.game_dir_mount.unwrap()
            } else {
                None
            };
            let exe_reference = if patch.exe_mount is Some {
                patch.exe_mount.unwrap()
            } else {
                None
            };
            updated(game, patch, facts, mounts) is Ok <==> {
                &&& dir_reference is Some ==> table::is_valid(dir_reference.unwrap()@)
                &&& exe_reference is Some ==> table::is_valid(exe_reference.unwrap()@)
                &&& patch.exe_path is Some ==> facts.exe_is_file || exe_reference is Some
                &&& patch.game_dir is Some && patch.game_dir.unwrap()@.len() > 0
                    ==> facts.dir_is_dir || dir_reference is Some
                &&& patch.game_dir is Some && patch.game_dir.unwrap()@.len() == 0
                    ==> dir_reference is Some || game.game_dir_mount is Some
            }
        }),
{
}

/// A save location that cannot be found keeps a change from being made, unless it has a reference.
pub proof fn a_save_location_has_to_be_found(
    saves: Seq<SaveLocation>,
    problems: Seq<Option<String>>,
    from: int,
)
    requires
        0 <= from,
    ensures
        first_problem(saves, problems, from) is None <==> forall|i: int|
            from <= i < saves.len() && i < problems.len() && (#[trigger] saves[i]).mount is None
                ==> problems[i] is None,
        first_problem(saves, problems, from) is Some ==> exists|i: int|
            from <= i < saves.len() && i < problems.len() && (#[trigger] saves[i]).mount is None
                && problems[i] is Some && problems[i].unwrap()@ == first_problem(
                saves,
                problems,
                from,
            ).unwrap(),
    decreases saves.len() - from,
{
    if from < saves.len() {
        let here = saves[from];
        if !(here.mount is None && from < problems.len() && problems[from] is Some) {
            a_save_location_has_to_be_found(saves, problems, from + 1);
        } else {
            assert(saves[from].mount is None);
        }
    }
}

/// A new game can be added exactly where it has a name, its references are good ones, its program
/// and the directory that was given are there or come with a reference, no other game has the
/// program, and an id can be made of the name.
pub proof fn when_a_game_can_be_added(
    games: Seq<(Seq<char>, Game)>,
    new: NewGame,
    facts: NewGameFacts,
)
    ensures
        creation_complaint(games, new, facts) is None <==> {
            &&& search::trim(new.name@).len() > 0
            &&& new.game_dir_mount is Some ==> table::is_valid(new.game_dir_mount.unwrap()@)
            &&& new.exe_mount is Some ==> table::is_valid(new.exe_mount.unwrap()@)
            &&& facts.exe_is_file || new.exe_mount is Some
            &&& new.game_dir is Some && new.game_dir.unwrap()@.len() > 0 ==> facts.dir_is_dir
                || new.game_dir_mount is Some
            &&& library::owner_at(games, facts.exes@, facts.wanted@, None, 0) is None
            &&& !ids::is_unique_id(games, search::trim(new.name@), Seq::empty())
        },
{
}

/// A program that another game has is refused, with the name of that game, where nothing else is
/// wrong with the new one.
pub proof fn a_program_belongs_to_one_game(
    games: Seq<(Seq<char>, Game)>,
    new: NewGame,
    facts: NewGameFacts,
)
    requires
        search::trim(new.name@).len() > 0,
        new.game_dir_mount is None,
        new.exe_mount is None,
        new.game_dir is None,
        facts.exe_is_file,
        library::owner_at(games, facts.exes@, facts.wanted@, None, 0) is Some,
    ensures
        ({
            let owner = library::owner_at(games, facts.exes@, facts.wanted@, None, 0).unwrap();
            creation_complaint(games, new, facts) == Some(
                "可执行文件已经属于「"@ + games[owner].1.name
                    + "」：同一个 exe 只能建一条档案（两条档案会让云端的版本历史分家、观测同一个进程时分不清谁在跑）"@,
            )
        }),
{
}

/// What stands in the way of a new game is said in words: the first thing, by what was given.
pub proof fn what_is_wrong_with_a_new_game_is_said(
    games: Seq<(Seq<char>, Game)>,
    new: NewGame,
    facts: NewGameFacts,
)
    ensures
        search::trim(new.name@).len() == 0 ==> creation_complaint(games, new, facts) == Some(
            "名称不能为空"@,
        ),
        search::trim(new.name@).len() > 0 && new.game_dir_mount is None && new.exe_mount is None
            && !facts.exe_is_file ==> creation_complaint(games, new, facts) == Some(
            "可执行文件不存在: "@ + path::lossy_text(new.exe_path@),
        ),
        search::trim(new.name@).len() > 0 && new.game_dir_mount is None && new.exe_mount is None
            && facts.exe_is_file && new.game_dir is Some && new.game_dir.unwrap()@.len() > 0
            && !facts.dir_is_dir ==> creation_complaint(games, new, facts) == Some(
            "游戏目录不存在: "@ + path::lossy_text(new.game_dir.unwrap()@),
        ),
{
}

/// A new game has the name that was given without white space around it, and the references that
/// were given, or else those of the disks that its places lie on. A place with a reference has no
/// path. It is watched and synced by itself, and starts without anything else.
pub proof fn a_new_game_is_what_was_described(
    new: NewGame,
    facts: NewGameFacts,
    mounts: Seq<MountEntry>,
    now: Seq<char>,
)
    ensures
        ({
            let game = created(new, facts, mounts, now);
            &&& game.name == search::trim(new.name@)
            &&& new.exe_mount is Some ==> game.exe_mount == Some(new.exe_mount.unwrap()@)
            &&& new.exe_mount is None && facts.canonical_exe is Some ==> game.exe_mount
                == table::inferred(mounts, facts.canonical_exe.unwrap()@)
            &&& new.exe_mount is None && facts.canonical_exe is None ==> game.exe_mount is None
            &&& game.exe_mount is None ==> game.exe_path == new.exe_path@
            &&& game.exe_mount is Some ==> game.exe_path.len() == 0
            &&& new.game_dir_mount is Some ==> game.game_dir_mount == Some(
                new.game_dir_mount.unwrap()@,
            )
            &&& new.game_dir_mount is None && facts.canonical_dir is Some ==> game.game_dir_mount
                == table::inferred(mounts, facts.canonical_dir.unwrap()@)
            &&& new.game_dir_mount is None && facts.canonical_dir is None
                ==> game.game_dir_mount is None
            &&& game.game_dir_mount is Some ==> game.game_dir.len() == 0
            &&& game.game_dir_mount is None && new.game_dir is Some && new.game_dir.unwrap()@.len()
                > 0 ==> game.game_dir == new.game_dir.unwrap()@
            &&& game.game_dir_mount is None && new.game_dir is None && path::parent_of(
                new.exe_path@,
            ) is Some ==> game.game_dir == path::parent_of(new.exe_path@).unwrap()
            &&& game.exe_fingerprint == chars::text_view(facts.fingerprint)
            &&& game.created_at == now
            &&& game.auto_watch && game.sync_enabled && !game.direct_launch
            &&& game.launch_args.len() == 0 && game.save_paths.len() == 0
            &&& game.wine_prefix is None && game.process_name is None
            &&& game.cloud_id is None && game.cloud_dir is None && game.cloud_rejected.len() == 0
            &&& game.cloud_conclusion is None
            &&& game.scale_profile == profile::default_profile()
        }),
{
}

/// Adding a game puts it behind the others, under an id that no game had, and changes nothing
/// else; the reply names the id and the name.
pub proof fn a_new_game_comes_last(
    before: Settings,
    after: Settings,
    reply: JsonValue,
    id: Seq<char>,
    game: Game,
)
    requires
        creation(before, after, reply, id, game),
    ensures
        after.games.len() == before.games.len() + 1,
        after.games.last() == (id, game),
        after.games.drop_last() == before.games,
        after.sync == before.sync && after.daemon == before.daemon && after.wine_prefix
            == before.wine_prefix,
        id.len() > 0,
        json::has_member(reply, "id"@, JsonValue::Text(id)),
        json::has_member(reply, "name"@, JsonValue::Text(game.name)),
{
    assert(after.games.drop_last() =~= before.games);
    let members = reply->Object_0;
    assert(members[0] == ("id"@, JsonValue::Text(id)));
    assert(members[1] == ("name"@, JsonValue::Text(game.name)));
}

/// The save locations of a change are looked at where the same change puts the game: in the
/// directory it names, and on the disks it names.
pub proof fn save_locations_go_by_the_new_places(game: Game, patch: GamePatch)
    ensures
        patch.game_dir is Some ==> moved(game, patch).game_dir == patch.game_dir.unwrap()@,
        patch.game_dir is None ==> moved(game, patch).game_dir == game.game_dir,
        patch.game_dir_mount is Some && patch.game_dir_mount.unwrap() is Some ==> moved(
            game,
            patch,
        ).game_dir_mount == Some(patch.game_dir_mount.unwrap().unwrap()@),
        patch.game_dir_mount == Some(None::<MountPath>) ==> moved(game, patch).game_dir_mount is None,
        patch.game_dir_mount is None && patch.game_dir is Some && patch.game_dir.unwrap()@.len() > 0
            ==> moved(game, patch).game_dir_mount is None,
        patch.game_dir_mount is None && patch.game_dir is None ==> moved(game, patch).game_dir_mount
            == game.game_dir_mount,
        patch.exe_mount is Some && patch.exe_mount.unwrap() is Some ==> moved(game, patch).exe_mount
            == Some(patch.exe_mount.unwrap().unwrap()@),
        patch.exe_mount == Some(None::<MountPath>) ==> moved(game, patch).exe_mount is None,
        patch.exe_mount is None ==> moved(game, patch).exe_mount == game.exe_mount,
        moved(game, patch).exe_path == game.exe_path,
        moved(game, patch).wine_prefix == game.wine_prefix,
{
}

/// What stands in the way of a new game is said, the first thing first.
pub proof fn what_stands_in_the_way_of_a_new_game(
    games: Seq<(Seq<char>, Game)>,
    new: NewGame,
    facts: NewGameFacts,
    owner: int,
)
    ensures
        search::trim(new.name@).len() == 0 ==> creation_complaint(games, new, facts) == Some(
            "名称不能为空"@,
        ),
        search::trim(new.name@).len() > 0 && new.game_dir_mount is None && new.exe_mount is None ==> {
            let no_dir = new.game_dir is None || new.game_dir.unwrap()@.len() == 0;
            let found = library::owner_at(games, facts.exes@, facts.wanted@, None, 0);
            &&& !facts.exe_is_file ==> creation_complaint(games, new, facts) == Some(
                "可执行文件不存在: "@ + path::lossy_text(new.exe_path@),
            )
            &&& facts.exe_is_file && !no_dir && !facts.dir_is_dir ==> creation_complaint(
                games,
                new,
                facts,
            ) == Some("游戏目录不存在: "@ + path::lossy_text(new.game_dir.unwrap()@))
            &&& facts.exe_is_file && (no_dir || facts.dir_is_dir) && found == Some(owner)
                ==> creation_complaint(games, new, facts) == Some(
                "可执行文件已经属于「"@ + games[owner].1.name
                    + "」：同一个 exe 只能建一条档案（两条档案会让云端的版本历史分家、观测同一个进程时分不清谁在跑）"@,
            )
            &&& facts.exe_is_file && (no_dir || facts.dir_is_dir) && found is None
                && ids::is_unique_id(games, search::trim(new.name@), Seq::empty())
                ==> creation_complaint(games, new, facts) == Some(
                "这个名称无法生成合法的游戏 ID，请换一个"@,
            )
            &&& facts.exe_is_file && (no_dir || facts.dir_is_dir) && found is None
                && !ids::is_unique_id(games, search::trim(new.name@), Seq::empty())
                ==> creation_complaint(games, new, facts) is None
        },
{
}

} // verus!
