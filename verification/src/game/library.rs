//! Adding games to the library and removing them, and games that share a program.

use crate::config::locations;
use crate::config::model;
use crate::config::model::{Config, Game, GameConfig, Settings};
use crate::game::ids;
use crate::game::ids::generate_unique_game_id;
use crate::mount::table::{MountEntry, MountTable};
use crate::path;
use crate::path::FsPath;
use crate::text::chars;
use crate::text::chars::same_text;
use crate::text::split;
use crate::text::split::joined;
use vstd::prelude::*;
use vstd::string::StringExecFns;

verus! {

// ---------------------------------------------------------------------------------------------
// Adding

/// A game of the library has this program right now.
pub open spec fn has_exe(
    games: Seq<(Seq<char>, Game)>,
    mounts: Seq<MountEntry>,
    exe: Seq<u8>,
) -> bool {
    exists|i: int|
        0 <= i < games.len() && match locations::exe_now((#[trigger] games[i]).1, mounts) {
            Ok(own) => path::same_path(own, exe),
            Err(_) => false,
        }
}

/// What adding the games that were found leads to: the library, and what was added. A game
/// whose program is in the library is left out, so that what was tuned stays; every other one
/// gets an id of its own.
pub open spec fn adding(
    games: Seq<(Seq<char>, Game)>,
    mounts: Seq<MountEntry>,
    found: Seq<Game>,
    out: Seq<(Seq<char>, Game)>,
    added: Seq<(Seq<char>, Game)>,
) -> bool
    decreases found.len(),
{
    if found.len() == 0 {
        out == games && added == Seq::<(Seq<char>, Game)>::empty()
    } else {
        let game = found[0];
        if has_exe(games, mounts, game.exe_path) {
            adding(games, mounts, found.skip(1), out, added)
        } else {
            added.len() > 0 && added[0].1 == game && ids::is_unique_id(games, game.name, added[0].0)
                && adding(games.push(added[0]), mounts, found.skip(1), out, added.skip(1))
        }
    }
}

pub open spec fn found_view(found: Seq<GameConfig>) -> Seq<Game> {
    found.map_values(|game: GameConfig| game@)
}

fn exe_is_known(config: &Config, mounts: &MountTable, exe: &FsPath) -> (yes: bool)
    ensures
        yes == has_exe(config@.games, mounts@, exe@),
{
    let mut i: usize = 0;
    while i < config.games.len()
        invariant
            i <= config.games@.len(),
            forall|k: int|
                0 <= k < i ==> match locations::exe_now((#[trigger] config@.games[k]).1, mounts@) {
                    Ok(own) => !path::same_path(own, exe@),
                    Err(_) => true,
                },
        decreases config.games@.len() - i,
    {
        assert(config@.games[i as int].1 == config.games@[i as int].1@);
        match config.games[i].1.resolved_exe_with(mounts) {
            Ok(own) => if own.same(exe) {
                return true;
            },
            Err(_) => {},
        }
        i += 1;
    }
    false
}

/// The games from the i-th on, added to what the library is by then.
fn add_from(
    config: &mut Config,
    mounts: &MountTable,
    found: &Vec<GameConfig>,
    i: usize,
) -> (added: Vec<(String, GameConfig)>)
    requires
        i <= found@.len(),
    ensures
        adding(
            old(config)@.games,
            mounts@,
            found_view(found@).skip(i as int),
            final(config)@.games,
            model::games_view(added@),
        ),
        final(config)@ == (Settings { games: final(config)@.games, ..old(config)@ }),
        old(config).wf() ==> final(config).wf(),
    decreases found@.len() - i,
{
    if i >= found.len() {
        let none: Vec<(String, GameConfig)> = Vec::new();
        assert(model::games_view(none@) =~= Seq::<(Seq<char>, Game)>::empty());
        return none;
    }
    let ghost before = config@;
    let ghost all = found_view(found@);
    proof {
        assert(all.skip(i as int).skip(1) =~= all.skip(i + 1));
        assert(all[i as int] == found@[i as int]@);
    }
    if exe_is_known(config, mounts, &found[i].exe_path) {
        return add_from(config, mounts, found, i + 1);
    }
    let id = generate_unique_game_id(config, found[i].name.as_str());
    let entry = (id.clone(), found[i].copy());
    let ghost own = (entry.0@, entry.1@);
    let ghost list = config.games@;
    config.games.push(entry);
    let ghost middle = config@.games;
    proof {
        assert(middle =~= before.games.push(own)) by {
            assert(config.games@ =~= list.push(entry));
        }
        if model::ids_are_distinct(before.games) {
            model::position_is_first(before.games, id@, 0);
            assert forall|a: int, b: int| 0 <= a < b < middle.len() implies (#[trigger] middle[a]).0
                != (#[trigger] middle[b]).0 by {
                if b < before.games.len() {
                    assert(before.games[a].0 != before.games[b].0);
                } else {
                    assert(before.games[a].0 != id@);
                }
            }
        }
    }
    let rest = add_from(config, mounts, found, i + 1);
    let mut added: Vec<(String, GameConfig)> = Vec::new();
    added.push((id, found[i].copy()));
    let ghost first = model::games_view(added@);
    let ghost others = model::games_view(rest@);
    let mut tail = rest;
    added.append(&mut tail);
    proof {
        let list = model::games_view(added@);
        assert(list =~= seq![own] + others);
        assert(list[0] == own);
        assert(list.skip(1) =~= others);
    }
    added
}

/// Adds the games that were found, and says which ones.
pub fn add_games(config: &mut Config, mounts: &MountTable, found: Vec<GameConfig>) -> (added: Vec<
    (String, GameConfig),
>)
    ensures
        adding(
            old(config)@.games,
            mounts@,
            found_view(found@),
            final(config)@.games,
            model::games_view(added@),
        ),
        final(config)@ == (Settings { games: final(config)@.games, ..old(config)@ }),
        old(config).wf() ==> final(config).wf(),
{
    assert(found_view(found@).skip(0) =~= found_view(found@));
    add_from(config, mounts, &found, 0)
}

// ---------------------------------------------------------------------------------------------
// Removing

/// The library without the game under an id.
pub open spec fn without_game(games: Seq<(Seq<char>, Game)>, id: Seq<char>) -> Seq<
    (Seq<char>, Game),
> {
    match model::position(games, id, 0) {
        Some(i) => games.remove(i),
        None => games,
    }
}

/// Removes a game, and says whether there was one under the id.
pub fn remove_game(config: &mut Config, id: &str) -> (removed: bool)
    ensures
        old(config).wf() ==> final(config).wf(),
        removed == model::has_game(old(config)@.games, id@),
        final(config)@ == (Settings {
            games: without_game(old(config)@.games, id@),
            ..old(config)@
        }),
{
    let ghost before = config@;
    match config.find(id) {
        Some(i) => {
            let _ = config.games.remove(i);
            assert(config@.games =~= before.games.remove(i as int));
            true
        },
        None => false,
    }
}

// ---------------------------------------------------------------------------------------------
// Programs that several games share

/// A game has this program: `exes` are the programs of the games, as the file system spells
/// them, where that is known.
pub open spec fn owns(
    games: Seq<(Seq<char>, Game)>,
    exes: Seq<Option<FsPath>>,
    wanted: Seq<u8>,
    exclude: Option<Seq<char>>,
    i: int,
) -> bool {
    Some(games[i].0) != exclude && match locations::nth(exes, i) {
        Some(own) => path::same_path(own, wanted),
        None => false,
    }
}

/// The first game from `from` on that has this program.
pub open spec fn owner_at(
    games: Seq<(Seq<char>, Game)>,
    exes: Seq<Option<FsPath>>,
    wanted: Seq<u8>,
    exclude: Option<Seq<char>>,
    from: int,
) -> Option<int>
    decreases games.len() - from,
{
    if from < 0 || from >= games.len() {
        None
    } else if owns(games, exes, wanted, exclude, from) {
        Some(from)
    } else {
        owner_at(games, exes, wanted, exclude, from + 1)
    }
}

pub open spec fn id_view(id: Option<&str>) -> Option<Seq<char>> {
    match id {
        Some(id) => Some(id@),
        None => None,
    }
}

fn is_owner(
    config: &Config,
    exes: &Vec<Option<FsPath>>,
    wanted: &FsPath,
    exclude: Option<&str>,
    i: usize,
) -> (yes: bool)
    requires
        i < config.games@.len(),
    ensures
        yes == owns(config@.games, exes@, wanted@, id_view(exclude), i as int),
{
    assert(config@.games[i as int].0 == config.games@[i as int].0@);
    let excluded = match exclude {
        Some(id) => same_text(config.games[i].0.as_str(), id),
        None => false,
    };
    if excluded || i >= exes.len() {
        return false;
    }
    match &exes[i] {
        Some(own) => own.same(wanted),
        None => false,
    }
}

/// The name of a game that has this program already, the excluded one aside.
pub fn exe_owner(
    config: &Config,
    exes: &Vec<Option<FsPath>>,
    wanted: &FsPath,
    exclude: Option<&str>,
) -> (name: Option<String>)
    ensures
        match name {
            Some(name) => owner_at(config@.games, exes@, wanted@, id_view(exclude), 0) is Some
                && name@ == config@.games[owner_at(
                config@.games,
                exes@,
                wanted@,
                id_view(exclude),
                0,
            ).unwrap()].1.name,
            None => owner_at(config@.games, exes@, wanted@, id_view(exclude), 0) is None,
        },
{
    let mut i: usize = 0;
    while i < config.games.len()
        invariant
            i <= config.games@.len(),
            owner_at(config@.games, exes@, wanted@, id_view(exclude), 0) == owner_at(
                config@.games,
                exes@,
                wanted@,
                id_view(exclude),
                i as int,
            ),
        decreases config.games@.len() - i,
    {
        if is_owner(config, exes, wanted, exclude, i) {
            assert(config@.games[i as int].1 == config.games@[i as int].1@);
            return Some(config.games[i].1.name.clone());
        }
        i += 1;
    }
    None
}

/// The names of the games that have this program, up to the n-th.
pub open spec fn owners(
    games: Seq<(Seq<char>, Game)>,
    exes: Seq<Option<FsPath>>,
    wanted: Seq<u8>,
    exclude: Option<Seq<char>>,
    n: int,
) -> Seq<Seq<char>>
    decreases n,
{
    if n <= 0 {
        Seq::empty()
    } else {
        let before = owners(games, exes, wanted, exclude, n - 1);
        if owns(games, exes, wanted, exclude, n - 1) {
            before.push(games[n - 1].1.name)
        } else {
            before
        }
    }
}

pub open spec fn shared_exe_words(names: Seq<Seq<char>>) -> Seq<char> {
    "可执行文件已被这些档案使用："@ + split::join(names, "、"@)
        + "。这条档案允许保留。多出来的那条要么是同一个文件的另一种写法（相对路径、符号链接），要么是旧配置留下来的 ——可以合并，或删掉多余的那条。"@
}

/// A word for the user where other games have the same program.
pub open spec fn shared_exe(
    games: Seq<(Seq<char>, Game)>,
    exes: Seq<Option<FsPath>>,
    wanted: Seq<u8>,
    exclude: Option<Seq<char>>,
) -> Option<Seq<char>> {
    let names = owners(games, exes, wanted, exclude, games.len() as int);
    if names.len() > 0 {
        Some(shared_exe_words(names))
    } else {
        None
    }
}

pub fn duplicate_exe_warning(
    config: &Config,
    exes: &Vec<Option<FsPath>>,
    wanted: &FsPath,
    exclude: Option<&str>,
) -> (warning: Option<String>)
    ensures
        match warning {
            Some(warning) => shared_exe(config@.games, exes@, wanted@, id_view(exclude)) == Some(
                warning@,
            ),
            None => shared_exe(config@.games, exes@, wanted@, id_view(exclude)) is None,
        },
{
    let ghost games = config@.games;
    let mut names: Vec<String> = Vec::new();
    let mut i: usize = 0;
    assert(chars::texts(names@) =~= Seq::<Seq<char>>::empty());
    while i < config.games.len()
        invariant
            i <= config.games@.len(),
            games == config@.games,
            chars::texts(names@) == owners(games, exes@, wanted@, id_view(exclude), i as int),
        decreases config.games@.len() - i,
    {
        let ghost before = names@;
        if is_owner(config, exes, wanted, exclude, i) {
            assert(games[i as int].1 == config.games@[i as int].1@);
            names.push(config.games[i].1.name.clone());
            assert(chars::texts(names@) =~= chars::texts(before).push(names@.last()@));
        }
        i += 1;
    }
    assert(chars::texts(names@).len() == names@.len());
    if names.len() == 0 {
        return None;
    }
    let mut warning = "可执行文件已被这些档案使用：".to_owned();
    warning.append(joined(&names, "、").as_str());
    warning.append(
        "。这条档案允许保留。多出来的那条要么是同一个文件的另一种写法（相对路径、符号链接），要么是旧配置留下来的 ——可以合并，或删掉多余的那条。",
    );
    Some(warning)
}

// ---------------------------------------------------------------------------------------------
// What holds of the library

/// Adding games changes nothing about the games that are there: they stay, in their places, as
/// they are, and what was added comes behind them.
pub proof fn adding_keeps_what_is_there(
    games: Seq<(Seq<char>, Game)>,
    mounts: Seq<MountEntry>,
    found: Seq<Game>,
    out: Seq<(Seq<char>, Game)>,
    added: Seq<(Seq<char>, Game)>,
)
    requires
        adding(games, mounts, found, out, added),
    ensures
        out == games + added,
    decreases found.len(),
{
    if found.len() == 0 {
        assert(games + added =~= games);
    } else if has_exe(games, mounts, found[0].exe_path) {
        adding_keeps_what_is_there(games, mounts, found.skip(1), out, added);
    } else {
        adding_keeps_what_is_there(
            games.push(added[0]),
            mounts,
            found.skip(1),
            out,
            added.skip(1),
        );
        assert(games.push(added[0]) + added.skip(1) =~= games + added);
    }
}

/// Adding games whose programs are all in the library adds nothing.
pub proof fn known_programs_are_not_added(
    games: Seq<(Seq<char>, Game)>,
    mounts: Seq<MountEntry>,
    found: Seq<Game>,
    out: Seq<(Seq<char>, Game)>,
    added: Seq<(Seq<char>, Game)>,
)
    requires
        adding(games, mounts, found, out, added),
        forall|i: int|
            0 <= i < found.len() ==> has_exe(games, mounts, (#[trigger] found[i]).exe_path),
    ensures
        out == games,
        added.len() == 0,
    decreases found.len(),
{
    if found.len() > 0 {
        assert(has_exe(games, mounts, found[0].exe_path));
        let rest = found.skip(1);
        assert forall|i: int| 0 <= i < rest.len() implies has_exe(
            games,
            mounts,
            (#[trigger] rest[i]).exe_path,
        ) by {
            assert(rest[i] == found[i + 1]);
        }
        known_programs_are_not_added(games, mounts, rest, out, added);
    }
}

/// A program that is in a library is in every library that has more games behind the same ones.
proof fn lemma_programs_stay(
    games: Seq<(Seq<char>, Game)>,
    more: Seq<(Seq<char>, Game)>,
    mounts: Seq<MountEntry>,
    exe: Seq<u8>,
)
    requires
        has_exe(games, mounts, exe),
    ensures
        has_exe(games + more, mounts, exe),
{
    let i = choose|i: int|
        0 <= i < games.len() && match locations::exe_now((#[trigger] games[i]).1, mounts) {
            Ok(own) => path::same_path(own, exe),
            Err(_) => false,
        };
    assert((games + more)[i] == games[i]);
}

/// After a scan the programs of all games that it found are in the library.
pub proof fn what_was_found_is_in_the_library(
    games: Seq<(Seq<char>, Game)>,
    mounts: Seq<MountEntry>,
    found: Seq<Game>,
    out: Seq<(Seq<char>, Game)>,
    added: Seq<(Seq<char>, Game)>,
)
    requires
        adding(games, mounts, found, out, added),
        forall|i: int| 0 <= i < found.len() ==> (#[trigger] found[i]).exe_mount is None,
    ensures
        forall|i: int|
            0 <= i < found.len() ==> has_exe(out, mounts, (#[trigger] found[i]).exe_path),
    decreases found.len(),
{
    if found.len() > 0 {
        let rest = found.skip(1);
        assert forall|i: int| 0 <= i < rest.len() implies (#[trigger] rest[i]).exe_mount is None by {
            assert(rest[i] == found[i + 1]);
        }
        let exe = found[0].exe_path;
        assert(found[0].exe_mount is None);
        if has_exe(games, mounts, exe) {
            what_was_found_is_in_the_library(games, mounts, rest, out, added);
            adding_keeps_what_is_there(games, mounts, rest, out, added);
            lemma_programs_stay(games, added, mounts, exe);
        } else {
            let next = games.push(added[0]);
            what_was_found_is_in_the_library(next, mounts, rest, out, added.skip(1));
            adding_keeps_what_is_there(next, mounts, rest, out, added.skip(1));
            assert(next[games.len() as int].1 == found[0]);
            assert(has_exe(next, mounts, exe));
            lemma_programs_stay(next, added.skip(1), mounts, exe);
        }
        assert forall|i: int| 0 <= i < found.len() implies has_exe(
            out,
            mounts,
            (#[trigger] found[i]).exe_path,
        ) by {
            if i > 0 {
                assert(rest[i - 1] == found[i]);
            }
        }
    }
}

/// A second scan adds nothing: where the same games are found again, the library stays as the
/// first scan left it. What a scan finds has its program by its path, and not on a named disk.
pub proof fn a_second_scan_adds_nothing(
    games: Seq<(Seq<char>, Game)>,
    mounts: Seq<MountEntry>,
    found: Seq<Game>,
    out: Seq<(Seq<char>, Game)>,
    added: Seq<(Seq<char>, Game)>,
    again: Seq<(Seq<char>, Game)>,
    more: Seq<(Seq<char>, Game)>,
)
    requires
        adding(games, mounts, found, out, added),
        adding(out, mounts, found, again, more),
        forall|i: int| 0 <= i < found.len() ==> (#[trigger] found[i]).exe_mount is None,
    ensures
        again == out,
        more.len() == 0,
{
    what_was_found_is_in_the_library(games, mounts, found, out, added);
    known_programs_are_not_added(out, mounts, found, again, more);
}

/// After a game is removed no game has its id, and every other game is still there.
pub proof fn a_removed_game_is_gone(games: Seq<(Seq<char>, Game)>, id: Seq<char>)
    requires
        model::ids_are_distinct(games),
    ensures
        !model::has_game(without_game(games, id), id),
        model::ids_are_distinct(without_game(games, id)),
        forall|i: int|
            0 <= i < games.len() && games[i].0 != id ==> without_game(games, id).contains(
                #[trigger] games[i],
            ),
{
    let out = without_game(games, id);
    model::position_is_first(games, id, 0);
    model::position_is_first(out, id, 0);
    match model::position(games, id, 0) {
        Some(k) => {
            assert forall|i: int| 0 <= i < out.len() implies (#[trigger] out[i]).0 != id by {
                if i < k {
                    assert(out[i] == games[i]);
                } else {
                    assert(out[i] == games[i + 1]);
                    assert(games[k].0 != games[i + 1].0);
                }
            }
            assert forall|a: int, b: int| 0 <= a < b < out.len() implies (#[trigger] out[a]).0 != (
            #[trigger] out[b]).0 by {
                let x = if a < k { a } else { a + 1 };
                let y = if b < k { b } else { b + 1 };
                assert(out[a] == games[x] && out[b] == games[y]);
                assert(games[x].0 != games[y].0);
            }
            assert forall|i: int| 0 <= i < games.len() && games[i].0 != id implies out.contains(
                #[trigger] games[i],
            ) by {
                if i < k {
                    assert(out[i] == games[i]);
                } else {
                    assert(out[i - 1] == games[i]);
                }
            }
        },
        None => {
            assert forall|i: int| 0 <= i < games.len() && games[i].0 != id implies out.contains(
                #[trigger] games[i],
            ) by {
                assert(out[i] == games[i]);
            }
        },
    }
}

/// A program is in the library exactly where a game has it right now. A game that is on no named
/// disk has the program at its path.
pub proof fn which_programs_are_in_the_library(
    games: Seq<(Seq<char>, Game)>,
    mounts: Seq<MountEntry>,
    exe: Seq<u8>,
    i: int,
)
    ensures
        0 <= i < games.len() && games[i].1.exe_mount is None && games[i].1.exe_path == exe
            ==> has_exe(games, mounts, exe),
        0 <= i < games.len() && locations::exe_now(games[i].1, mounts) == Ok::<
            Seq<u8>,
            Seq<char>,
        >(exe) ==> has_exe(games, mounts, exe),
        has_exe(games, mounts, exe) ==> exists|k: int|
            0 <= k < games.len() && locations::exe_now(
                (#[trigger] games[k]).1,
                mounts,
            ) is Ok && path::same_path(locations::exe_now(games[k].1, mounts)->Ok_0, exe),
{
    if 0 <= i < games.len() {
        let _ = games[i];
    }
    if has_exe(games, mounts, exe) {
        let k = choose|k: int|
            0 <= k < games.len() && match locations::exe_now((#[trigger] games[k]).1, mounts) {
                Ok(own) => path::same_path(own, exe),
                Err(_) => false,
            };
        assert(locations::exe_now(games[k].1, mounts) is Ok);
    }
}

/// A game that is removed leaves a gap that the games behind it fill, and an id that no game has
/// removes nothing.
pub proof fn removing_takes_one_game(games: Seq<(Seq<char>, Game)>, id: Seq<char>, i: int)
    requires
        model::ids_are_distinct(games),
    ensures
        0 <= i < games.len() && games[i].0 == id ==> without_game(games, id) == games.take(i)
            + games.skip(i + 1),
        (forall|k: int| 0 <= k < games.len() ==> (#[trigger] games[k]).0 != id) ==> without_game(
            games,
            id,
        ) == games,
{
    model::position_is_first(games, id, 0);
    if 0 <= i < games.len() && games[i].0 == id {
        let at = model::position(games, id, 0).unwrap();
        assert(games[at].0 == games[i].0);
        assert(games.remove(i) =~= games.take(i) + games.skip(i + 1));
    }
}

proof fn lemma_owner_at(
    games: Seq<(Seq<char>, Game)>,
    exes: Seq<Option<FsPath>>,
    wanted: Seq<u8>,
    exclude: Option<Seq<char>>,
    from: int,
)
    requires
        0 <= from,
    ensures
        match owner_at(games, exes, wanted, exclude, from) {
            Some(i) => from <= i < games.len() && owns(games, exes, wanted, exclude, i)
                && forall|k: int| from <= k < i ==> !#[trigger] owns(games, exes, wanted, exclude, k),
            None => forall|k: int|
                from <= k < games.len() ==> !#[trigger] owns(games, exes, wanted, exclude, k),
        },
    decreases games.len() - from,
{
    if from < games.len() && !owns(games, exes, wanted, exclude, from) {
        lemma_owner_at(games, exes, wanted, exclude, from + 1);
    }
}

/// Of the games that have a program the first one is named, the excluded one aside; a game whose
/// program is not known has none.
pub proof fn the_first_owner_is_named(
    games: Seq<(Seq<char>, Game)>,
    exes: Seq<Option<FsPath>>,
    wanted: Seq<u8>,
    exclude: Option<Seq<char>>,
    i: int,
)
    requires
        games.len() == exes.len(),
        0 <= i < games.len(),
    ensures
        owns(games, exes, wanted, exclude, i) <==> exclude != Some(games[i].0) && exes[i] is Some
            && path::same_path(exes[i].unwrap()@, wanted),
        owns(games, exes, wanted, exclude, i) && (forall|k: int|
            0 <= k < i ==> !#[trigger] owns(games, exes, wanted, exclude, k)) ==> owner_at(
            games,
            exes,
            wanted,
            exclude,
            0,
        ) == Some(i),
        (forall|k: int| 0 <= k < games.len() ==> !#[trigger] owns(games, exes, wanted, exclude, k))
            <==> owner_at(games, exes, wanted, exclude, 0) is None,
{
    lemma_owner_at(games, exes, wanted, exclude, 0);
}

proof fn lemma_owners(
    games: Seq<(Seq<char>, Game)>,
    exes: Seq<Option<FsPath>>,
    wanted: Seq<u8>,
    exclude: Option<Seq<char>>,
    n: int,
)
    requires
        0 <= n <= games.len(),
    ensures
        forall|i: int|
            0 <= i < n && #[trigger] owns(games, exes, wanted, exclude, i) ==> owners(
                games,
                exes,
                wanted,
                exclude,
                n,
            ).contains(games[i].1.name),
        owners(games, exes, wanted, exclude, n).len() > 0 ==> exists|i: int|
            0 <= i < n && #[trigger] owns(games, exes, wanted, exclude, i),
        owners(games, exes, wanted, exclude, n).len() <= n,
    decreases n,
{
    if n > 0 {
        let before = owners(games, exes, wanted, exclude, n - 1);
        let after = owners(games, exes, wanted, exclude, n);
        lemma_owners(games, exes, wanted, exclude, n - 1);
        assert forall|i: int| 0 <= i < n && #[trigger] owns(
            games,
            exes,
            wanted,
            exclude,
            i,
        ) implies after.contains(games[i].1.name) by {
            if i < n - 1 {
                let k = choose|k: int| 0 <= k < before.len() && before[k] == games[i].1.name;
                assert(after[k] == before[k]);
            } else {
                assert(after.last() == games[i].1.name);
            }
        }
        if before.len() > 0 {
            let i = choose|i: int|
                0 <= i < n - 1 && #[trigger] owns(games, exes, wanted, exclude, i);
            assert(owns(games, exes, wanted, exclude, i));
        }
    }
}

/// The user is told where another game has the program, and only there; every such game is named,
/// and one that stands alone is named by itself.
pub proof fn every_owner_is_named(
    games: Seq<(Seq<char>, Game)>,
    exes: Seq<Option<FsPath>>,
    wanted: Seq<u8>,
    exclude: Option<Seq<char>>,
    name: Seq<char>,
)
    ensures
        shared_exe(games, exes, wanted, exclude) is Some <==> exists|i: int|
            0 <= i < games.len() && #[trigger] owns(games, exes, wanted, exclude, i),
        forall|i: int|
            0 <= i < games.len() && #[trigger] owns(games, exes, wanted, exclude, i) ==> owners(
                games,
                exes,
                wanted,
                exclude,
                games.len() as int,
            ).contains(games[i].1.name),
        shared_exe_words(seq![name]) == "可执行文件已被这些档案使用："@ + name
            + "。这条档案允许保留。多出来的那条要么是同一个文件的另一种写法（相对路径、符号链接），要么是旧配置留下来的 ——可以合并，或删掉多余的那条。"@,
{
    lemma_owners(games, exes, wanted, exclude, games.len() as int);
    split::one_piece_is_itself(name, "、"@);
    let names = owners(games, exes, wanted, exclude, games.len() as int);
    if exists|i: int| 0 <= i < games.len() && #[trigger] owns(games, exes, wanted, exclude, i) {
        let i = choose|i: int|
            0 <= i < games.len() && #[trigger] owns(games, exes, wanted, exclude, i);
        assert(names.contains(games[i].1.name));
    }
}

/// No more games are added than were found.
pub proof fn adding_has_at_most_all(
    games: Seq<(Seq<char>, Game)>,
    mounts: Seq<MountEntry>,
    found: Seq<Game>,
    out: Seq<(Seq<char>, Game)>,
    added: Seq<(Seq<char>, Game)>,
)
    requires
        adding(games, mounts, found, out, added),
    ensures
        added.len() <= found.len(),
    decreases found.len(),
{
    if found.len() > 0 {
        if has_exe(games, mounts, found[0].exe_path) {
            adding_has_at_most_all(games, mounts, found.skip(1), out, added);
        } else {
            adding_has_at_most_all(
                games.push(added[0]),
                mounts,
                found.skip(1),
                out,
                added.skip(1),
            );
        }
    }
}

/// What is added was found, and it has an id that no game of the library had, nor any that was added
/// with it.
pub proof fn what_is_added_was_found(
    games: Seq<(Seq<char>, Game)>,
    mounts: Seq<MountEntry>,
    found: Seq<Game>,
    out: Seq<(Seq<char>, Game)>,
    added: Seq<(Seq<char>, Game)>,
    i: int,
)
    requires
        adding(games, mounts, found, out, added),
        0 <= i < added.len(),
    ensures
        found.contains(added[i].1),
        ids::is_unique_id(games + added.take(i), added[i].1.name, added[i].0),
    decreases found.len(),
{
    if found.len() > 0 {
        let rest = found.skip(1);
        if has_exe(games, mounts, found[0].exe_path) {
            what_is_added_was_found(games, mounts, rest, out, added, i);
            let k = rest.index_of(added[i].1);
            assert(found[k + 1] == added[i].1);
        } else if i == 0 {
            assert(found[0] == added[0].1);
            assert(games + added.take(0) =~= games);
        } else {
            let later = added.skip(1);
            what_is_added_was_found(games.push(added[0]), mounts, rest, out, later, i - 1);
            assert(later[i - 1] == added[i]);
            let k = rest.index_of(added[i].1);
            assert(found[k + 1] == added[i].1);
            assert(games.push(added[0]) + later.take(i - 1) =~= games + added.take(i));
        }
    }
}

} // verus!
