//! Which game of the cloud a game of this machine is, and which machine this is.
//!
//! An identity is taken once, at the first upload, and stays: names differ between machines, and
//! one name can be two games.

use crate::config::model;
use crate::config::model::{
    copy_text, Config, DaemonSettings, Game, GameConfig, Settings,
};
use crate::daemon::game_write;
use crate::path;
use crate::text::chars;
use crate::text::chars::same_text;
use crate::text::glue::glue2;
use vstd::prelude::*;

verus! {

// ---------------------------------------------------------------------------------------------
// Where a game is in the cloud

/// Where the versions of a game lie: what was taken down, and the id of the game before the
/// first upload.
pub open spec fn cloud_key(id: Seq<char>, game: Game) -> Seq<char> {
    match game.cloud_dir {
        Some(key) => key,
        None => id,
    }
}

pub fn cloud_key_of(config: &Config, id: &str) -> (out: Result<String, String>)
    ensures
        match out {
            Ok(key) => model::has_game(config@.games, id@) && key@ == cloud_key(
                id@,
                model::game_at(config@.games, id@),
            ),
            Err(message) => !model::has_game(config@.games, id@) && message@
                == game_write::unknown_game(id@),
        },
{
    match config.game(id) {
        Some(game) => match &game.cloud_dir {
            Some(key) => Ok(key.clone()),
            None => Ok(id.to_owned()),
        },
        None => Err(glue2("配置中找不到游戏: ", id)),
    }
}

pub fn cloud_id_of(config: &Config, id: &str) -> (out: Result<Option<String>, String>)
    ensures
        match out {
            Ok(cloud_id) => model::has_game(config@.games, id@) && chars::text_view(cloud_id)
                == model::game_at(config@.games, id@).cloud_id,
            Err(message) => !model::has_game(config@.games, id@) && message@
                == game_write::unknown_game(id@),
        },
{
    match config.game(id) {
        Some(game) => Ok(copy_text(&game.cloud_id)),
        None => Err(glue2("配置中找不到游戏: ", id)),
    }
}

/// A game with an identity.
pub open spec fn identified(game: Game, cloud_id: Seq<char>, key: Seq<char>) -> Game {
    Game { cloud_id: Some(cloud_id), cloud_dir: Some(key), ..game }
}

/// Takes down the identity of a game and where its versions lie.
pub fn remember_identity(config: &mut Config, id: &str, cloud_id: &str, key: &str) -> (out: Result<
    (),
    String,
>)
    ensures
        old(config).wf() ==> final(config).wf(),
        match out {
            Ok(_) => model::has_game(old(config)@.games, id@) && final(config)@ == (Settings {
                games: model::with_game(
                    old(config)@.games,
                    id@,
                    identified(model::game_at(old(config)@.games, id@), cloud_id@, key@),
                ),
                ..old(config)@
            }),
            Err(message) => !model::has_game(old(config)@.games, id@) && message@
                == game_write::unknown_game(id@) && final(config)@ == old(config)@,
        },
{
    let at = match config.find(id) {
        Some(at) => at,
        None => {
            return Err(glue2("配置中找不到游戏: ", id));
        },
    };
    let ghost games = config@.games;
    assert(games[at as int] == (config.games@[at as int].0@, config.games@[at as int].1@));
    let mut game = config.games[at].1.copy();
    game.cloud_id = Some(cloud_id.to_owned());
    game.cloud_dir = Some(key.to_owned());
    config.put_game(at, game);
    Ok(())
}

/// Whether what the cloud says has to be taken down: the identity or the place is another one
/// than before.
pub fn identity_changed(
    local_id: &Option<String>,
    local_key: &str,
    cloud_id: &str,
    key: &str,
) -> (yes: bool)
    ensures
        yes == (chars::text_view(*local_id) != Some(cloud_id@) || local_key@ != key@),
{
    let same_id = match local_id {
        Some(own) => same_text(own.as_str(), cloud_id),
        None => false,
    };
    !same_id || !same_text(local_key, key)
}

// ---------------------------------------------------------------------------------------------
// What a machine says of a game

/// What this machine says of a game, for the others to know it by.
pub struct MachineIdentity {
    pub machine_id: String,
    /// The name of the machine, for people only.
    pub label: String,
    pub fingerprints: Vec<String>,
    pub locations: Vec<String>,
    pub parents: Vec<String>,
    pub exe_paths: Vec<String>,
}

pub open spec fn one_or_none(text: Option<Seq<char>>) -> Seq<Seq<char>> {
    match text {
        Some(text) => seq![text],
        None => Seq::empty(),
    }
}

/// What a machine says of a game. A fingerprint that is not known is left out, and never made
/// up. `locations` and `parents` are the keys of its save locations and of the directories above
/// them.
pub fn machine_identity(
    game: &GameConfig,
    machine_id: String,
    label: String,
    fingerprint: Option<String>,
    locations: Vec<String>,
    parents: Vec<String>,
) -> (out: MachineIdentity)
    ensures
        out.machine_id@ == machine_id@,
        out.label@ == label@,
        chars::texts(out.fingerprints@) == one_or_none(chars::text_view(fingerprint)),
        out.locations@ == locations@,
        out.parents@ == parents@,
        chars::texts(out.exe_paths@) == if path::lossy_text(game@.exe_path).len() == 0 {
            Seq::<Seq<char>>::empty()
        } else {
            seq![path::lossy_text(game@.exe_path)]
        },
{
    let ghost known = chars::text_view(fingerprint);
    let mut fingerprints: Vec<String> = Vec::new();
    match fingerprint {
        Some(own) => {
            fingerprints.push(own);
        },
        None => {},
    }
    assert(chars::texts(fingerprints@) =~= one_or_none(known));
    let mut exe_paths: Vec<String> = Vec::new();
    let exe = game.exe_path.text();
    if !exe.as_str().is_empty() {
        exe_paths.push(exe);
        assert(chars::texts(exe_paths@) =~= seq![path::lossy_text(game@.exe_path)]);
    } else {
        assert(chars::texts(exe_paths@) =~= Seq::<Seq<char>>::empty());
    }
    MachineIdentity { machine_id, label, fingerprints, locations, parents, exe_paths }
}

// ---------------------------------------------------------------------------------------------
// Fingerprints

/// The games with the fingerprints that were missing and could be worked out.
pub open spec fn with_fingerprint(game: Game, found: Option<String>) -> Game {
    if game.exe_fingerprint is None {
        Game { exe_fingerprint: chars::text_view(found), ..game }
    } else {
        game
    }
}

pub open spec fn with_fingerprints(
    games: Seq<(Seq<char>, Game)>,
    found: Seq<Option<String>>,
) -> Seq<(Seq<char>, Game)> {
    Seq::new(
        games.len(),
        |i: int|
            if i < found.len() {
                (games[i].0, with_fingerprint(games[i].1, found[i]))
            } else {
                games[i]
            },
    )
}

/// How many of the first n games get a fingerprint.
pub open spec fn filled(games: Seq<(Seq<char>, Game)>, found: Seq<Option<String>>, n: int) -> nat
    decreases n,
{
    if n <= 0 {
        0
    } else {
        filled(games, found, n - 1) + if n - 1 < found.len() && found[n - 1] is Some && games[n
            - 1].1.exe_fingerprint is None {
            1nat
        } else {
            0nat
        }
    }
}

proof fn lemma_filled(games: Seq<(Seq<char>, Game)>, found: Seq<Option<String>>, n: int)
    requires
        0 <= n,
    ensures
        filled(games, found, n) <= n,
    decreases n,
{
    if n > 0 {
        lemma_filled(games, found, n - 1);
    }
}

/// Takes down the fingerprints that are missing; `found` holds those that could be worked out,
/// by the place of the game. One that is known stays.
pub fn fill_fingerprints(config: &mut Config, found: &Vec<Option<String>>) -> (count: usize)
    ensures
        old(config).wf() ==> final(config).wf(),
        final(config)@ == (Settings {
            games: with_fingerprints(old(config)@.games, found@),
            ..old(config)@
        }),
        count == filled(old(config)@.games, found@, old(config)@.games.len() as int),
{
    let ghost start = config@;
    let ghost wanted = with_fingerprints(start.games, found@);
    let total: usize = config.games.len();
    let mut count: usize = 0;
    let mut i: usize = 0;
    while i < total
        invariant
            i <= total == config.games@.len() == start.games.len() == wanted.len(),
            wanted == with_fingerprints(start.games, found@),
            config@ == (Settings { games: config@.games, ..start }),
            forall|k: int| 0 <= k < i ==> #[trigger] config@.games[k] == wanted[k],
            forall|k: int| i <= k < total ==> #[trigger] config@.games[k] == start.games[k],
            count == filled(start.games, found@, i as int),
            count <= i,
        decreases total - i,
    {
        proof {
            lemma_filled(start.games, found@, i + 1);
        }
        assert(config@.games[i as int] == (
            config.games@[i as int].0@,
            config.games@[i as int].1@,
        ));
        assert(config@.games[i as int] == start.games[i as int]);
        let ghost before = config@.games;
        if i < found.len() && config.games[i].1.exe_fingerprint.is_none() {
            match &found[i] {
                Some(own) => {
                    let mut game = config.games[i].1.copy();
                    game.exe_fingerprint = Some(own.clone());
                    config.put_game(i, game);
                    count += 1;
                    assert(config@.games == before.update(i as int, config@.games[i as int]));
                },
                None => {},
            }
        }
        assert(config@.games[i as int] == wanted[i as int]);
        assert forall|k: int| 0 <= k < total && k != i implies #[trigger] config@.games[k]
            == before[k] by {}
        i += 1;
    }
    assert(config@.games =~= wanted);
    count
}

/// Filling in fingerprints a second time changes nothing.
pub proof fn fingerprints_are_filled_in_once(
    games: Seq<(Seq<char>, Game)>,
    found: Seq<Option<String>>,
    i: int,
)
    requires
        0 <= i < games.len(),
        i < found.len(),
        found[i] is Some,
    ensures
        with_fingerprints(games, found)[i].1.exe_fingerprint is Some,
        with_fingerprints(with_fingerprints(games, found), found)[i] == with_fingerprints(
            games,
            found,
        )[i],
{
}

/// The fingerprint of a game: the one that is known, else `found`, which is then taken down. One
/// that cannot be worked out is left out.
pub fn ensure_fingerprint(config: &mut Config, id: &str, found: Option<String>) -> (out: Result<
    Option<String>,
    String,
>)
    ensures
        old(config).wf() ==> final(config).wf(),
        match out {
            Ok(fingerprint) => model::has_game(old(config)@.games, id@) && ({
                let game = model::game_at(old(config)@.games, id@);
                chars::text_view(fingerprint) == with_fingerprint(game, found).exe_fingerprint
                    && final(config)@ == (Settings {
                    games: model::with_game(
                        old(config)@.games,
                        id@,
                        with_fingerprint(game, found),
                    ),
                    ..old(config)@
                })
            }),
            Err(message) => !model::has_game(old(config)@.games, id@) && message@
                == game_write::unknown_game(id@) && final(config)@ == old(config)@,
        },
{
    let at = match config.find(id) {
        Some(at) => at,
        None => {
            return Err(glue2("配置中找不到游戏: ", id));
        },
    };
    let ghost games = config@.games;
    assert(games[at as int] == (config.games@[at as int].0@, config.games@[at as int].1@));
    let mut game = config.games[at].1.copy();
    if game.exe_fingerprint.is_none() {
        game.exe_fingerprint = copy_text(&found);
    }
    let fingerprint = copy_text(&game.exe_fingerprint);
    config.put_game(at, game);
    Ok(fingerprint)
}

// ---------------------------------------------------------------------------------------------
// Which machine this is

/// A random identity as it is written: 32 small hexadecimal digits in groups of eight, four, four,
/// four and twelve, with hyphens between them. The third group begins with a `4`, which says that
/// it is random, and the fourth with one of `8`, `9`, `a` and `b`.
pub open spec fn is_random_identity(text: Seq<char>) -> bool {
    &&& text.len() == 36
    &&& forall|i: int|
        0 <= i < 36 ==> if i == 8 || i == 13 || i == 18 || i == 23 {
            #[trigger] text[i] == '-'
        } else {
            '0' <= text[i] <= '9' || 'a' <= text[i] <= 'f'
        }
    &&& text[14] == '4'
    &&& text[19] == '8' || text[19] == '9' || text[19] == 'a' || text[19] == 'b'
}

/// `uuid::Uuid::new_v4` and its `Display`: a new random identity, in the form above. Which one it
/// is depends on chance; on a machine without a source of random numbers there is none, and the
/// call panics.
#[verifier::external_body]
fn new_identity() -> (id: String)
    ensures
        is_random_identity(id@),
{
    uuid::Uuid::new_v4().to_string()
}

/// The settings with an identity of this machine: the one that is known, else a new one.
pub open spec fn with_machine(settings: Settings, minted: Seq<char>) -> Settings {
    match settings.daemon.machine_id {
        Some(_) => settings,
        None => Settings {
            daemon: DaemonSettings { machine_id: Some(minted), ..settings.daemon },
            ..settings
        },
    }
}

/// Takes an identity for this machine where it has none, and says which one it has.
pub fn adopt_machine_id(config: &mut Config, minted: String) -> (id: String)
    ensures
        old(config).wf() ==> final(config).wf(),
        final(config)@ == with_machine(old(config)@, minted@),
        final(config)@.daemon.machine_id == Some(id@),
{
    match &config.daemon.machine_id {
        Some(own) => {
            return own.clone();
        },
        None => {},
    }
    let id = minted.clone();
    config.daemon.machine_id = Some(minted);
    id
}

/// The identity of this machine; one is made where there is none.
pub fn machine_id(config: &mut Config) -> (id: String)
    ensures
        old(config).wf() ==> final(config).wf(),
        final(config)@.daemon.machine_id == Some(id@),
        match old(config)@.daemon.machine_id {
            Some(own) => id@ == own && final(config)@ == old(config)@,
            None => is_random_identity(id@) && final(config)@ == with_machine(old(config)@, id@),
        },
{
    match &config.daemon.machine_id {
        Some(own) => {
            return own.clone();
        },
        None => {},
    }
    let minted = new_identity();
    adopt_machine_id(config, minted)
}

/// A machine has one identity: once it has one, no other takes its place.
pub proof fn a_machine_keeps_its_identity(settings: Settings, first: Seq<char>, second: Seq<char>)
    ensures
        with_machine(with_machine(settings, first), second) == with_machine(settings, first),
{
}

/// An identity that was taken down is the one that is read, for the game and for no other.
pub proof fn an_identity_is_remembered(
    games: Seq<(Seq<char>, Game)>,
    id: Seq<char>,
    cloud_id: Seq<char>,
    key: Seq<char>,
    other: Seq<char>,
)
    requires
        model::has_game(games, id),
        model::has_game(games, other),
        other != id,
    ensures
        ({
            let after = model::with_game(
                games,
                id,
                identified(model::game_at(games, id), cloud_id, key),
            );
            &&& model::has_game(after, id)
            &&& model::game_at(after, id).cloud_id == Some(cloud_id)
            &&& cloud_key(id, model::game_at(after, id)) == key
            &&& model::has_game(after, other)
            &&& model::game_at(after, other) == model::game_at(games, other)
        }),
{
    let game = identified(model::game_at(games, id), cloud_id, key);
    model::position_is_first(games, id, 0);
    model::position_is_first(games, other, 0);
    lemma_position_stays(games, id, game, id, 0);
    lemma_position_stays(games, id, game, other, 0);
}

/// A game that takes the place of another under its id moves no game.
proof fn lemma_position_stays(
    games: Seq<(Seq<char>, Game)>,
    id: Seq<char>,
    game: Game,
    any: Seq<char>,
    from: int,
)
    requires
        0 <= from,
        model::position(games, id, 0) is Some,
        0 <= model::position(games, id, 0).unwrap() < games.len(),
        games[model::position(games, id, 0).unwrap()].0 == id,
    ensures
        model::position(model::with_game(games, id, game), any, from) == model::position(
            games,
            any,
            from,
        ),
    decreases games.len() - from,
{
    let after = model::with_game(games, id, game);
    if from < games.len() {
        assert(after[from].0 == games[from].0);
        lemma_position_stays(games, id, game, any, from + 1);
    }
}

/// Versions lie where that was taken down, and before the first upload under the id of the game.
pub proof fn versions_lie_under_the_id_at_first(id: Seq<char>, game: Game)
    ensures
        game.cloud_dir is Some ==> cloud_key(id, game) == game.cloud_dir.unwrap(),
        game.cloud_dir is None ==> cloud_key(id, game) == id,
{
}

/// Taking down an identity changes the identity and the place, and nothing else of the game.
pub proof fn an_identity_is_two_things(game: Game, cloud_id: Seq<char>, key: Seq<char>)
    ensures
        identified(game, cloud_id, key).cloud_id == Some(cloud_id),
        identified(game, cloud_id, key).cloud_dir == Some(key),
        identified(game, cloud_id, key) == (Game {
            cloud_id: identified(game, cloud_id, key).cloud_id,
            cloud_dir: identified(game, cloud_id, key).cloud_dir,
            ..game
        }),
{
}

/// A fingerprint that is missing is filled in where it could be worked out, and one that is known
/// stays; nothing else of the game changes.
pub proof fn a_missing_fingerprint_is_filled_in(
    games: Seq<(Seq<char>, Game)>,
    found: Seq<Option<String>>,
    i: int,
)
    requires
        0 <= i < games.len(),
    ensures
        ({
            let after = with_fingerprints(games, found);
            &&& after.len() == games.len()
            &&& after[i].0 == games[i].0
            &&& after[i].1 == (Game { exe_fingerprint: after[i].1.exe_fingerprint, ..games[i].1 })
            &&& games[i].1.exe_fingerprint is Some ==> after[i].1.exe_fingerprint
                == games[i].1.exe_fingerprint
            &&& games[i].1.exe_fingerprint is None && i < found.len() && found[i] is Some
                ==> after[i].1.exe_fingerprint == Some(found[i].unwrap()@)
            &&& games[i].1.exe_fingerprint is None && (i >= found.len() || found[i] is None)
                ==> after[i].1.exe_fingerprint is None
        }),
{
}

/// What is counted are the fingerprints that were filled in.
pub proof fn what_was_filled_in_is_counted(
    games: Seq<(Seq<char>, Game)>,
    found: Seq<Option<String>>,
    n: int,
)
    requires
        0 <= n <= games.len(),
    ensures
        filled(games, found, n) <= n,
        (forall|i: int| 0 <= i < n ==> (#[trigger] games[i]).1.exe_fingerprint is Some) ==> filled(
            games,
            found,
            n,
        ) == 0,
        n <= found.len() && (forall|i: int|
            0 <= i < n ==> (#[trigger] games[i]).1.exe_fingerprint is None && found[i] is Some)
            ==> filled(games, found, n) == n,
    decreases n,
{
    if n > 0 {
        what_was_filled_in_is_counted(games, found, n - 1);
        assert(games[n - 1] == games[n - 1]);
    }
}

/// A machine without an identity gets the one that was made for it; nothing else changes.
pub proof fn a_machine_gets_an_identity(settings: Settings, minted: Seq<char>)
    ensures
        settings.daemon.machine_id is None ==> with_machine(settings, minted).daemon.machine_id
            == Some(minted),
        settings.daemon.machine_id is Some ==> with_machine(settings, minted) == settings,
        with_machine(settings, minted).games == settings.games,
        with_machine(settings, minted).sync == settings.sync,
        with_machine(settings, minted).wine_prefix == settings.wine_prefix,
        with_machine(settings, minted).daemon.socket_path == settings.daemon.socket_path,
        with_machine(settings, minted).daemon.log_level == settings.daemon.log_level,
        with_machine(settings, minted).daemon.auto_watch_migrated
            == settings.daemon.auto_watch_migrated,
{
}

} // verus!
