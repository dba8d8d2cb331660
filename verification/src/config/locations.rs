//! Stored places and the paths they have right now.
//!
//! A place on a known disk is stored as a reference; the path it has is worked out against the
//! mount table of the moment. Where a reference is stored it is what counts, and the path that
//! was stored before is dropped.

use crate::config::model;
use crate::config::model::{
    Config, Game, GameConfig, SaveLocation, SavePath, SavePathKind, Settings,
};
use crate::mount::table;
use crate::mount::table::{MountEntry, MountPath, MountTable, Reference};
use crate::path;
use crate::path::FsPath;
use crate::text::chars;
use crate::text::chars::same_text;
use vstd::prelude::*;
use vstd::utf8::*;

verus! {

/// The paths of a game as the file system spells them, without links. A path that leads
/// nowhere has no such spelling.
pub struct Canonical {
    pub game_dir: Option<FsPath>,
    pub exe: Option<FsPath>,
    /// Those of the save locations, in their order.
    pub saves: Vec<Option<FsPath>>,
}

/// The reference to a path that may lead nowhere. Such a path gets none: a guess could name the
/// wrong disk.
pub open spec fn infer(mounts: Seq<MountEntry>, canonical: Option<Seq<u8>>) -> Option<Reference> {
    match canonical {
        Some(place) => table::inferred(mounts, place),
        None => None,
    }
}

pub fn infer_reference(mounts: &MountTable, canonical: &Option<FsPath>) -> (out: Option<MountPath>)
    ensures
        table::reference_view(out) == infer(mounts@, model::path_view(*canonical)),
{
    match canonical {
        Some(place) => mounts.infer_canonical(place),
        None => None,
    }
}

/// The spelling of one of the save locations.
pub open spec fn nth(list: Seq<Option<FsPath>>, i: int) -> Option<Seq<u8>> {
    if 0 <= i < list.len() {
        model::path_view(list[i])
    } else {
        None
    }
}

// ---------------------------------------------------------------------------------------------
// Taking down references

pub open spec fn save_with_reference(
    save: SaveLocation,
    mounts: Seq<MountEntry>,
    canonical: Option<Seq<u8>>,
) -> SaveLocation {
    if save.kind == SavePathKind::Absolute && save.mount is None {
        SaveLocation { mount: infer(mounts, canonical), ..save }
    } else {
        save
    }
}

pub open spec fn saves_with_references(
    saves: Seq<SaveLocation>,
    mounts: Seq<MountEntry>,
    canonical: Seq<Option<FsPath>>,
) -> Seq<SaveLocation> {
    Seq::new(saves.len(), |i: int| save_with_reference(saves[i], mounts, nth(canonical, i)))
}

/// The game with references to the places that lie on a known disk. A reference that was there
/// stays; a path that has one is dropped; the path of a save location stays, because versions
/// in the cloud go by it.
pub open spec fn with_references(
    game: Game,
    mounts: Seq<MountEntry>,
    canonical: Canonical,
) -> Game {
    let game_dir_mount = if game.game_dir_mount is Some {
        game.game_dir_mount
    } else {
        infer(mounts, model::path_view(canonical.game_dir))
    };
    let exe_mount = if game.exe_mount is Some {
        game.exe_mount
    } else {
        infer(mounts, model::path_view(canonical.exe))
    };
    Game {
        game_dir_mount,
        exe_mount,
        game_dir: if game_dir_mount is Some {
            Seq::empty()
        } else {
            game.game_dir
        },
        exe_path: if exe_mount is Some {
            Seq::empty()
        } else {
            game.exe_path
        },
        save_paths: saves_with_references(game.save_paths, mounts, canonical.saves@),
        ..game
    }
}

impl GameConfig {
    /// Takes down references to the places that lie on a known disk.
    pub fn capture_mounts(&mut self, mounts: &MountTable, canonical: &Canonical)
        ensures
            final(self)@ == with_references(old(self)@, mounts@, *canonical),
    {
        let ghost start = self@;
        if self.game_dir_mount.is_none() {
            self.game_dir_mount = infer_reference(mounts, &canonical.game_dir);
        }
        if self.exe_mount.is_none() {
            self.exe_mount = infer_reference(mounts, &canonical.exe);
        }
        if self.game_dir_mount.is_some() {
            self.game_dir = FsPath::empty();
        }
        if self.exe_mount.is_some() {
            self.exe_path = FsPath::empty();
        }
        let ghost middle = self@;
        let ghost wanted = saves_with_references(start.save_paths, mounts@, canonical.saves@);
        let mut i: usize = 0;
        while i < self.save_paths.len()
            invariant
                i <= self.save_paths@.len() == start.save_paths.len() == wanted.len(),
                wanted == saves_with_references(start.save_paths, mounts@, canonical.saves@),
                self@ == (Game { save_paths: self@.save_paths, ..middle }),
                forall|k: int| 0 <= k < i ==> #[trigger] self@.save_paths[k] == wanted[k],
                forall|k: int|
                    i <= k < wanted.len() ==> #[trigger] self@.save_paths[k]
                        == start.save_paths[k],
            decreases wanted.len() - i,
        {
            let ghost before = self@.save_paths;
            assert(before[i as int] == self.save_paths@[i as int]@);
            if self.save_paths[i].kind == SavePathKind::Absolute
                && self.save_paths[i].mount.is_none() {
                let found = if i < canonical.saves.len() {
                    infer_reference(mounts, &canonical.saves[i])
                } else {
                    None
                };
                let save = &mut self.save_paths[i];
                save.mount = found;
            }
            assert(self@.save_paths[i as int] == wanted[i as int]);
            assert(forall|k: int|
                0 <= k < before.len() && k != i ==> #[trigger] self@.save_paths[k] == before[k]);
            i += 1;
        }
        assert(self@.save_paths =~= wanted);
    }
}

/// The games with references to the places that lie on a known disk. `canonical` holds the
/// spellings of their paths, by the place of the game.
pub open spec fn games_with_references(
    games: Seq<(Seq<char>, Game)>,
    mounts: Seq<MountEntry>,
    canonical: Seq<Canonical>,
) -> Seq<(Seq<char>, Game)> {
    Seq::new(
        games.len(),
        |i: int|
            if i < canonical.len() {
                (games[i].0, with_references(games[i].1, mounts, canonical[i]))
            } else {
                games[i]
            },
    )
}

impl Config {
    /// Takes down references for every game.
    pub fn capture_mounts(&mut self, mounts: &MountTable, canonical: &Vec<Canonical>)
        ensures
            old(self).wf() ==> final(self).wf(),
            final(self)@ == (Settings {
                games: games_with_references(old(self)@.games, mounts@, canonical@),
                ..old(self)@
            }),
    {
        let ghost start = self@;
        let ghost wanted = games_with_references(start.games, mounts@, canonical@);
        let total: usize = self.games.len();
        let mut i: usize = 0;
        while i < total
            invariant
                i <= total == self.games@.len() == start.games.len() == wanted.len(),
                wanted == games_with_references(start.games, mounts@, canonical@),
                self@ == (Settings { games: self@.games, ..start }),
                forall|k: int| 0 <= k < i ==> #[trigger] self@.games[k] == wanted[k],
                forall|k: int| i <= k < total ==> #[trigger] self@.games[k] == start.games[k],
            decreases total - i,
        {
            let ghost before = self@.games;
            assert(before[i as int] == (self.games@[i as int].0@, self.games@[i as int].1@));
            assert(before[i as int] == start.games[i as int]);
            if i < canonical.len() {
                let mut game = self.games[i].1.copy();
                game.capture_mounts(mounts, &canonical[i]);
                self.put_game(i, game);
                assert(self@.games.len() == self.games@.len());
            }
            assert(self@.games[i as int] == wanted[i as int]);
            assert forall|k: int| 0 <= k < total && k != i implies #[trigger] self@.games[k]
                == before[k] by {}
            i += 1;
        }
        assert(self@.games =~= wanted);
    }
}

// ---------------------------------------------------------------------------------------------
// Paths of the moment

/// Where the program is right now.
pub open spec fn exe_now(game: Game, mounts: Seq<MountEntry>) -> Result<Seq<u8>, Seq<char>> {
    match game.exe_mount {
        Some(reference) => table::resolution(mounts, reference),
        None => Ok(game.exe_path),
    }
}

/// Where the directory of the game is right now: by its reference, else by its path, else with
/// the program.
pub open spec fn game_dir_now(game: Game, mounts: Seq<MountEntry>) -> Result<Seq<u8>, Seq<char>> {
    match game.game_dir_mount {
        Some(reference) => table::resolution(mounts, reference),
        None => if game.game_dir.len() > 0 {
            Ok(game.game_dir)
        } else {
            match exe_now(game, mounts) {
                Ok(exe) => match path::parent_of(exe) {
                    Some(parent) => Ok(parent),
                    None => Err("游戏目录和可执行文件位置均未配置"@),
                },
                Err(message) => Err(message),
            }
        },
    }
}

pub open spec fn outcome_view(outcome: Result<FsPath, String>) -> Result<Seq<u8>, Seq<char>> {
    match outcome {
        Ok(found) => Ok(found@),
        Err(message) => Err(message@),
    }
}

impl GameConfig {
    pub fn resolved_exe_with(&self, mounts: &MountTable) -> (outcome: Result<FsPath, String>)
        ensures
            outcome_view(outcome) == exe_now(self@, mounts@),
    {
        match &self.exe_mount {
            Some(reference) => mounts.resolve(reference),
            None => Ok(self.exe_path.copy()),
        }
    }

    pub fn resolved_game_dir_with(&self, mounts: &MountTable) -> (outcome: Result<FsPath, String>)
        ensures
            outcome_view(outcome) == game_dir_now(self@, mounts@),
    {
        match &self.game_dir_mount {
            Some(reference) => {
                return mounts.resolve(reference);
            },
            None => {},
        }
        if !self.game_dir.is_empty() {
            return Ok(self.game_dir.copy());
        }
        match self.resolved_exe_with(mounts) {
            Ok(exe) => match exe.parent() {
                Some(parent) => Ok(parent),
                None => Err("游戏目录和可执行文件位置均未配置".to_owned()),
            },
            Err(message) => Err(message),
        }
    }
}

/// What a user sees of the places of a game.
pub struct LocationView {
    /// The directory and the program, as paths of the moment; empty where there is none.
    pub game_dir: FsPath,
    pub exe_path: FsPath,
    /// What stands in the way, for the directory before the program.
    pub location_error: Option<String>,
    /// The paths of the save locations that have a reference which leads somewhere.
    pub save_paths: Vec<Option<FsPath>>,
}

pub open spec fn or_empty(outcome: Result<Seq<u8>, Seq<char>>) -> Seq<u8> {
    match outcome {
        Ok(found) => found,
        Err(_) => Seq::empty(),
    }
}

pub open spec fn first_error(
    dir: Result<Seq<u8>, Seq<char>>,
    exe: Result<Seq<u8>, Seq<char>>,
) -> Option<Seq<char>> {
    match (dir, exe) {
        (Err(message), _) => Some(message),
        (Ok(_), Err(message)) => Some(message),
        _ => None,
    }
}

/// The path of a save location, where it has a reference that leads somewhere.
pub open spec fn save_now(save: SaveLocation, mounts: Seq<MountEntry>) -> Option<Seq<u8>> {
    match save.mount {
        Some(reference) => match table::resolution(mounts, reference) {
            Ok(found) => Some(found),
            Err(_) => None,
        },
        None => None,
    }
}

fn resolve_save(save: &SavePath, mounts: &MountTable) -> (out: Option<FsPath>)
    ensures
        model::path_view(out) == save_now(save@, mounts@),
{
    match &save.mount {
        Some(reference) => match mounts.resolve(reference) {
            Ok(found) => Some(found),
            Err(_) => None,
        },
        None => None,
    }
}

impl GameConfig {
    pub fn location_view(&self, mounts: &MountTable) -> (out: LocationView)
        ensures
            out.game_dir@ == or_empty(game_dir_now(self@, mounts@)),
            out.exe_path@ == or_empty(exe_now(self@, mounts@)),
            chars::text_view(out.location_error) == first_error(
                game_dir_now(self@, mounts@),
                exe_now(self@, mounts@),
            ),
            out.save_paths@.len() == self@.save_paths.len(),
            forall|i: int|
                0 <= i < out.save_paths@.len() ==> model::path_view(#[trigger] out.save_paths@[i])
                    == save_now(self@.save_paths[i], mounts@),
    {
        let dir = self.resolved_game_dir_with(mounts);
        let exe = self.resolved_exe_with(mounts);
        let location_error = match &dir {
            Err(message) => Some(message.clone()),
            Ok(_) => match &exe {
                Err(message) => Some(message.clone()),
                Ok(_) => None,
            },
        };
        let mut save_paths: Vec<Option<FsPath>> = Vec::new();
        let mut i: usize = 0;
        while i < self.save_paths.len()
            invariant
                i <= self.save_paths@.len(),
                save_paths@.len() == i,
                forall|k: int|
                    0 <= k < i ==> model::path_view(#[trigger] save_paths@[k]) == save_now(
                        self@.save_paths[k],
                        mounts@,
                    ),
            decreases self.save_paths@.len() - i,
        {
            assert(self@.save_paths[i as int] == self.save_paths@[i as int]@);
            save_paths.push(resolve_save(&self.save_paths[i], mounts));
            i += 1;
        }
        LocationView {
            game_dir: match dir {
                Ok(found) => found,
                Err(_) => FsPath::empty(),
            },
            exe_path: match exe {
                Ok(found) => found,
                Err(_) => FsPath::empty(),
            },
            location_error,
            save_paths,
        }
    }
}

// ---------------------------------------------------------------------------------------------
// Save locations from a client

/// A stored location is the one that a client means: it has the same kind, and the same path as
/// stored or as of the moment.
pub open spec fn is_meant(old: SaveLocation, save: SaveLocation, mounts: Seq<MountEntry>) -> bool {
    old.kind == save.kind && (old.path == save.path || match save_now(old, mounts) {
        Some(found) => path::same_path(found, encode_utf8(save.path)),
        None => false,
    })
}

/// The first stored location from `from` on that is meant.
pub open spec fn meant_at(
    old: Seq<SaveLocation>,
    save: SaveLocation,
    mounts: Seq<MountEntry>,
    from: int,
) -> Option<int>
    decreases old.len() - from,
{
    if from < 0 || from >= old.len() {
        None
    } else if is_meant(old[from], save, mounts) {
        Some(from)
    } else {
        meant_at(old, save, mounts, from + 1)
    }
}

/// A location from a client, brought together with the stored ones. One that is meant again
/// keeps its reference and the path that it goes by; a new one on a known disk gets a reference.
pub open spec fn reconciled(
    old: Seq<SaveLocation>,
    save: SaveLocation,
    mounts: Seq<MountEntry>,
    canonical: Option<Seq<u8>>,
) -> SaveLocation {
    if save.kind != SavePathKind::Absolute || save.mount is Some {
        save
    } else {
        match meant_at(old, save, mounts, 0) {
            Some(i) => SaveLocation { mount: old[i].mount, path: old[i].path, ..save },
            None => SaveLocation { mount: infer(mounts, canonical), ..save },
        }
    }
}

pub open spec fn all_reconciled(
    old: Seq<SaveLocation>,
    incoming: Seq<SaveLocation>,
    mounts: Seq<MountEntry>,
    canonical: Seq<Option<FsPath>>,
) -> Seq<SaveLocation> {
    Seq::new(incoming.len(), |i: int| reconciled(old, incoming[i], mounts, nth(canonical, i)))
}

impl GameConfig {
    fn find_meant(&self, save: &SavePath, mounts: &MountTable) -> (at: Option<usize>)
        ensures
            match at {
                Some(i) => meant_at(self@.save_paths, save@, mounts@, 0) == Some(i as int) && i
                    < self.save_paths@.len(),
                None => meant_at(self@.save_paths, save@, mounts@, 0) is None,
            },
    {
        let here = FsPath::from_text(save.path.as_str());
        let mut i: usize = 0;
        while i < self.save_paths.len()
            invariant
                i <= self.save_paths@.len(),
                here@ == encode_utf8(save.path@),
                meant_at(self@.save_paths, save@, mounts@, 0) == meant_at(
                    self@.save_paths,
                    save@,
                    mounts@,
                    i as int,
                ),
            decreases self.save_paths@.len() - i,
        {
            let old = &self.save_paths[i];
            assert(self@.save_paths[i as int] == old@);
            if old.kind == save.kind {
                if same_text(old.path.as_str(), save.path.as_str()) {
                    return Some(i);
                }
                match resolve_save(old, mounts) {
                    Some(found) => if found.same(&here) {
                        return Some(i);
                    },
                    None => {},
                }
            }
            i += 1;
        }
        None
    }

    /// Brings the save locations of a client together with the stored ones.
    pub fn reconcile_save_paths(
        &self,
        incoming: Vec<SavePath>,
        mounts: &MountTable,
        canonical: &Vec<Option<FsPath>>,
    ) -> (out: Vec<SavePath>)
        ensures
            model::saves_view(out@) == all_reconciled(
                self@.save_paths,
                model::saves_view(incoming@),
                mounts@,
                canonical@,
            ),
    {
        let ghost wanted = all_reconciled(
            self@.save_paths,
            model::saves_view(incoming@),
            mounts@,
            canonical@,
        );
        let mut out: Vec<SavePath> = Vec::new();
        let mut i: usize = 0;
        while i < incoming.len()
            invariant
                i <= incoming@.len() == wanted.len(),
                wanted == all_reconciled(
                    self@.save_paths,
                    model::saves_view(incoming@),
                    mounts@,
                    canonical@,
                ),
                out@.len() == i,
                forall|k: int| 0 <= k < i ==> (#[trigger] out@[k])@ == wanted[k],
            decreases incoming@.len() - i,
        {
            let mut save = incoming[i].copy();
            assert(model::saves_view(incoming@)[i as int] == incoming@[i as int]@);
            if save.kind == SavePathKind::Absolute && save.mount.is_none() {
                match self.find_meant(&save, mounts) {
                    Some(at) => {
                        assert(self@.save_paths[at as int] == self.save_paths@[at as int]@);
                        let old = self.save_paths[at].copy();
                        save.mount = old.mount;
                        save.path = old.path;
                    },
                    None => {
                        if i < canonical.len() {
                            save.mount = infer_reference(mounts, &canonical[i]);
                        }
                    },
                }
            }
            assert(save@ == wanted[i as int]);
            out.push(save);
            i += 1;
        }
        assert(model::saves_view(out@) =~= wanted);
        out
    }
}

// ---------------------------------------------------------------------------------------------
// What holds of stored places

/// Taking down references a second time, with nothing new on the disks, changes nothing.
pub proof fn references_are_taken_down_once(
    game: Game,
    mounts: Seq<MountEntry>,
    canonical: Canonical,
)
    ensures
        with_references(with_references(game, mounts, canonical), mounts, canonical)
            == with_references(game, mounts, canonical),
{
    let once = with_references(game, mounts, canonical);
    let twice = with_references(once, mounts, canonical);
    assert(twice.save_paths =~= once.save_paths);
    assert(twice.game_dir =~= once.game_dir);
    assert(twice.exe_path =~= once.exe_path);
}

/// A reference that is stored is never replaced by another one.
pub proof fn a_stored_reference_stays(game: Game, mounts: Seq<MountEntry>, canonical: Canonical)
    ensures
        game.exe_mount is Some ==> with_references(game, mounts, canonical).exe_mount
            == game.exe_mount,
        game.game_dir_mount is Some ==> with_references(game, mounts, canonical).game_dir_mount
            == game.game_dir_mount,
{
}

/// Where a reference is stored it alone decides where the program is: the stored path does not
/// matter, also where the reference leads nowhere.
pub proof fn a_reference_comes_before_a_path(game: Game, mounts: Seq<MountEntry>, other: Seq<u8>)
    requires
        game.exe_mount is Some,
    ensures
        exe_now(Game { exe_path: other, ..game }, mounts) == exe_now(game, mounts),
{
}

/// The path that versions in the cloud go by never changes when references are taken down.
pub proof fn save_paths_keep_their_path(
    game: Game,
    mounts: Seq<MountEntry>,
    canonical: Canonical,
    i: int,
)
    requires
        0 <= i < game.save_paths.len(),
    ensures
        with_references(game, mounts, canonical).save_paths[i].path == game.save_paths[i].path,
        with_references(game, mounts, canonical).save_paths.len() == game.save_paths.len(),
{
}

/// Taking down references fills in what is missing: a place that has none gets the one of the
/// disk that it lies on, where that is known, and its path is dropped then. Without one the path
/// stays. Nothing else of the game changes.
pub proof fn a_place_on_a_known_disk_gets_its_reference(
    game: Game,
    mounts: Seq<MountEntry>,
    canonical: Canonical,
)
    ensures
        ({
            let after = with_references(game, mounts, canonical);
            &&& game.exe_mount is None && canonical.exe is Some ==> after.exe_mount
                == table::inferred(mounts, canonical.exe.unwrap()@)
            &&& game.exe_mount is None && canonical.exe is None ==> after.exe_mount is None
            &&& game.game_dir_mount is None && canonical.game_dir is Some ==> after.game_dir_mount
                == table::inferred(mounts, canonical.game_dir.unwrap()@)
            &&& game.game_dir_mount is None && canonical.game_dir is None
                ==> after.game_dir_mount is None
            &&& after.exe_mount is Some ==> after.exe_path.len() == 0
            &&& after.exe_mount is None ==> after.exe_path == game.exe_path
            &&& after.game_dir_mount is Some ==> after.game_dir.len() == 0
            &&& after.game_dir_mount is None ==> after.game_dir == game.game_dir
            &&& after == (Game {
                exe_mount: after.exe_mount,
                exe_path: after.exe_path,
                game_dir_mount: after.game_dir_mount,
                game_dir: after.game_dir,
                save_paths: after.save_paths,
                ..game
            })
        }),
{
}

/// Of the save locations only those that are paths of this machine and have no reference get one;
/// the others stay as they are.
pub proof fn only_paths_of_this_machine_get_references(
    save: SaveLocation,
    mounts: Seq<MountEntry>,
    place: Seq<u8>,
)
    ensures
        save.kind == SavePathKind::Absolute && save.mount is None ==> save_with_reference(
            save,
            mounts,
            Some(place),
        ).mount == table::inferred(mounts, place) && save_with_reference(
            save,
            mounts,
            None,
        ).mount is None,
        save.kind != SavePathKind::Absolute || save.mount is Some ==> save_with_reference(
            save,
            mounts,
            Some(place),
        ) == save,
        ({
            let after = save_with_reference(save, mounts, Some(place));
            after.kind == save.kind && after.path == save.path && after.exclude == save.exclude
        }),
{
}

/// Where a game is right now: where its references lead, else where its paths say, and its
/// directory, where nothing says it, is the one of the program.
pub proof fn the_places_of_a_game(game: Game, mounts: Seq<MountEntry>)
    ensures
        game.exe_mount is Some ==> exe_now(game, mounts) == table::resolution(
            mounts,
            game.exe_mount.unwrap(),
        ),
        game.exe_mount is None ==> exe_now(game, mounts) == Ok::<Seq<u8>, Seq<char>>(game.exe_path),
        game.game_dir_mount is Some ==> game_dir_now(game, mounts) == table::resolution(
            mounts,
            game.game_dir_mount.unwrap(),
        ),
        game.game_dir_mount is None && game.game_dir.len() > 0 ==> game_dir_now(game, mounts)
            == Ok::<Seq<u8>, Seq<char>>(game.game_dir),
        game.game_dir_mount is None && game.game_dir.len() == 0 ==> match exe_now(game, mounts) {
            Err(message) => game_dir_now(game, mounts) == Err::<Seq<u8>, Seq<char>>(message),
            Ok(exe) => match path::parent_of(exe) {
                Some(parent) => game_dir_now(game, mounts) == Ok::<Seq<u8>, Seq<char>>(parent),
                None => game_dir_now(game, mounts) is Err,
            },
        },
{
}

/// What a user sees of a place that cannot be told is nothing, and the reason; that of the
/// directory comes first.
pub proof fn what_cannot_be_told_is_explained(
    dir: Result<Seq<u8>, Seq<char>>,
    exe: Result<Seq<u8>, Seq<char>>,
)
    ensures
        dir is Ok ==> or_empty(dir) == dir->Ok_0,
        dir is Err ==> or_empty(dir).len() == 0,
        dir is Ok && exe is Ok ==> first_error(dir, exe) is None,
        dir is Err ==> first_error(dir, exe) == Some(dir->Err_0),
        dir is Ok && exe is Err ==> first_error(dir, exe) == Some(exe->Err_0),
{
}

/// A save location is where its reference leads; without one, or with one that leads nowhere,
/// only its stored path is known.
pub proof fn a_save_location_is_where_its_reference_leads(
    save: SaveLocation,
    mounts: Seq<MountEntry>,
)
    ensures
        save.mount is None ==> save_now(save, mounts) is None,
        save.mount is Some && table::resolution(mounts, save.mount.unwrap()) is Ok ==> save_now(
            save,
            mounts,
        ) == Some(table::resolution(mounts, save.mount.unwrap())->Ok_0),
        save.mount is Some && table::resolution(mounts, save.mount.unwrap()) is Err ==> save_now(
            save,
            mounts,
        ) is None,
{
}

proof fn lemma_meant(
    old: Seq<SaveLocation>,
    save: SaveLocation,
    mounts: Seq<MountEntry>,
    from: int,
)
    requires
        0 <= from,
    ensures
        match meant_at(old, save, mounts, from) {
            Some(i) => from <= i < old.len() && is_meant(old[i], save, mounts) && forall|k: int|
                from <= k < i ==> !is_meant(#[trigger] old[k], save, mounts),
            None => forall|k: int|
                from <= k < old.len() ==> !is_meant(#[trigger] old[k], save, mounts),
        },
    decreases old.len() - from,
{
    if from < old.len() && !is_meant(old[from], save, mounts) {
        lemma_meant(old, save, mounts, from + 1);
    }
}

/// A save location that a client sends back as it saw it keeps the reference and the path that
/// were stored: whether it comes under the stored path or under the one of the moment.
pub proof fn a_location_sent_back_is_the_stored_one(
    old: Seq<SaveLocation>,
    i: int,
    save: SaveLocation,
    mounts: Seq<MountEntry>,
    canonical: Option<Seq<u8>>,
)
    requires
        0 <= i < old.len(),
        save.kind == SavePathKind::Absolute,
        save.mount is None,
        old[i].kind == SavePathKind::Absolute,
        old[i].path == save.path || (save_now(old[i], mounts) is Some && path::same_path(
            save_now(old[i], mounts).unwrap(),
            encode_utf8(save.path),
        )),
        forall|k: int|
            0 <= k < i ==> (#[trigger] old[k]).kind != SavePathKind::Absolute || (old[k].path
                != save.path && (save_now(old[k], mounts) is None || !path::same_path(
                save_now(old[k], mounts).unwrap(),
                encode_utf8(save.path),
            ))),
    ensures
        ({
            let out = reconciled(old, save, mounts, canonical);
            &&& out.mount == old[i].mount
            &&& out.path == old[i].path
            &&& out.exclude == save.exclude
            &&& out.kind == save.kind
        }),
{
    lemma_meant(old, save, mounts, 0);
    assert(is_meant(old[i], save, mounts));
    let at = meant_at(old, save, mounts, 0).unwrap();
    if at < i {
        assert(is_meant(old[at], save, mounts));
    }
}

/// A new save location gets the reference of the disk that it lies on, where it is a path of this
/// machine; one that comes with a reference, or is no such path, is taken as it comes.
pub proof fn a_new_location_is_taken_as_it_comes(
    old: Seq<SaveLocation>,
    save: SaveLocation,
    mounts: Seq<MountEntry>,
    place: Seq<u8>,
)
    requires
        forall|k: int| 0 <= k < old.len() ==> (#[trigger] old[k]).kind != save.kind,
    ensures
        save.kind != SavePathKind::Absolute || save.mount is Some ==> reconciled(
            old,
            save,
            mounts,
            Some(place),
        ) == save,
        save.kind == SavePathKind::Absolute && save.mount is None ==> reconciled(
            old,
            save,
            mounts,
            Some(place),
        ) == (SaveLocation { mount: table::inferred(mounts, place), ..save }) && reconciled(
            old,
            save,
            mounts,
            None,
        ) == save,
{
    lemma_meant(old, save, mounts, 0);
}

/// Every location that comes from a client is there afterwards, in its place, and no other.
pub proof fn all_that_comes_is_there(
    old: Seq<SaveLocation>,
    incoming: Seq<SaveLocation>,
    mounts: Seq<MountEntry>,
    canonical: Seq<Option<FsPath>>,
)
    ensures
        all_reconciled(old, incoming, mounts, canonical).len() == incoming.len(),
        forall|i: int|
            0 <= i < incoming.len() ==> (#[trigger] all_reconciled(
                old,
                incoming,
                mounts,
                canonical,
            )[i]).kind == incoming[i].kind && all_reconciled(old, incoming, mounts, canonical)[i].exclude
                == incoming[i].exclude,
{
}

/// A list has something at its places and nothing behind them.
pub proof fn a_list_ends(list: Seq<Option<FsPath>>, i: int)
    ensures
        0 <= i < list.len() && list[i] is Some ==> nth(list, i) == Some(list[i].unwrap()@),
        0 <= i < list.len() && list[i] is None ==> nth(list, i) is None,
        i >= list.len() ==> nth(list, i) is None,
{
}

/// Every game gets references by its own spellings, and one without spellings stays as it is.
pub proof fn every_game_gets_its_references(
    games: Seq<(Seq<char>, Game)>,
    mounts: Seq<MountEntry>,
    canonical: Seq<Canonical>,
    i: int,
)
    requires
        0 <= i < games.len(),
    ensures
        games_with_references(games, mounts, canonical).len() == games.len(),
        games_with_references(games, mounts, canonical)[i].0 == games[i].0,
        i < canonical.len() ==> games_with_references(games, mounts, canonical)[i].1
            == with_references(games[i].1, mounts, canonical[i]),
        i >= canonical.len() ==> games_with_references(games, mounts, canonical)[i].1 == games[i].1,
{
}

/// A game that has neither a directory nor a program that lies in one is in no place, and that is
/// said.
pub proof fn a_game_without_places_is_nowhere(game: Game, mounts: Seq<MountEntry>)
    requires
        game.game_dir_mount is None,
        game.game_dir.len() == 0,
        game.exe_mount is None,
    ensures
        path::parent_of(game.exe_path) is None ==> game_dir_now(game, mounts) == Err::<
            Seq<u8>,
            Seq<char>,
        >("游戏目录和可执行文件位置均未配置"@),
        path::parent_of(game.exe_path) is Some ==> game_dir_now(game, mounts) == Ok::<
            Seq<u8>,
            Seq<char>,
        >(path::parent_of(game.exe_path).unwrap()),
{
}

} // verus!
