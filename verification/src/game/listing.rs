//! The library in words.

use crate::config::locations;
use crate::config::model;
use crate::config::model::{Config, Game, GameConfig, SaveLocation, SavePath};
use crate::config::profile;
use crate::mount::table::{MountEntry, MountTable};
use crate::path;
use crate::text::chars;
use crate::text::number;
use crate::text::number::number_text;
use crate::text::order;
use crate::text::order::{sort_positions, SortKey};
use crate::text::split;
use crate::text::split::joined;
use vstd::prelude::*;
use vstd::string::StringExecFns;

verus! {

pub open spec fn size_words(size: (u32, u32)) -> Seq<char> {
    number::decimal(size.0 as nat) + "x"@ + number::decimal(size.1 as nat)
}

pub open spec fn size_or(size: Option<(u32, u32)>, missing: Seq<char>) -> Seq<char> {
    match size {
        Some(size) => size_words(size),
        None => missing,
    }
}

pub open spec fn yes_or_no(value: bool) -> Seq<char> {
    if value {
        "true"@
    } else {
        "false"@
    }
}

pub open spec fn descriptions(saves: Seq<SaveLocation>) -> Seq<Seq<char>> {
    saves.map_values(|save: SaveLocation| model::description(save))
}

pub open spec fn saved_words(saves: Seq<SaveLocation>) -> Seq<char> {
    if saves.len() == 0 {
        "none"@
    } else {
        split::join(descriptions(saves), ", "@)
    }
}

/// The lines about one game. What stands in the way of finding its program is said in the place
/// of the program; a size that is not set is said to be automatic.
pub open spec fn game_lines(id: Seq<char>, game: Game, mounts: Seq<MountEntry>) -> Seq<Seq<char>> {
    let scale = game.scale_profile;
    seq![
        "  "@ + id + " - "@ + game.name,
        "    exe:     "@ + match locations::exe_now(game, mounts) {
            Ok(exe) => path::lossy_text(exe),
            Err(message) => message,
        },
        "    watch:   "@ + yes_or_no(game.auto_watch),
        "    direct:  "@ + yes_or_no(game.direct_launch),
        "    scale:   "@ + scale.name + " ("@ + size_or(
            profile::whole_size(scale.internal_width, scale.internal_height),
            "自动（gamescope 默认）"@,
        ) + " -> "@ + size_or(profile::asked_size(scale), "自动（按屏幕）"@) + ")"@,
        "    saved:   "@ + saved_words(game.save_paths),
    ]
}

/// The lines about the games at the given positions.
pub open spec fn lines_for(
    games: Seq<(Seq<char>, Game)>,
    mounts: Seq<MountEntry>,
    order: Seq<int>,
) -> Seq<Seq<char>>
    decreases order.len(),
{
    if order.len() == 0 {
        Seq::empty()
    } else {
        let (id, game) = games[order.last()];
        lines_for(games, mounts, order.drop_last()) + game_lines(id, game, mounts)
    }
}

/// What the games are sorted by: their ids.
pub open spec fn id_keys(games: Seq<(Seq<char>, Game)>) -> Seq<(Seq<char>, Seq<char>)> {
    games.map_values(|entry: (Seq<char>, Game)| (entry.0, Seq::<char>::empty()))
}

pub open spec fn id_order(games: Seq<(Seq<char>, Game)>) -> Seq<int> {
    order::sorted_positions(id_keys(games), games.len() as int)
}

/// The positions of the games in the order of their ids.
pub fn positions_by_id(config: &Config) -> (out: Vec<usize>)
    ensures
        order::positions_view(out@) == id_order(config@.games),
        out@.len() == config.games@.len(),
        forall|i: int| 0 <= i < out@.len() ==> #[trigger] out@[i] < config.games@.len(),
{
    let mut keys: Vec<SortKey> = Vec::new();
    let mut i: usize = 0;
    while i < config.games.len()
        invariant
            i <= config.games@.len(),
            keys@.len() == i,
            forall|k: int|
                0 <= k < i ==> (#[trigger] keys@[k]).first@ == config.games@[k].0@
                    && keys@[k].second@ == Seq::<char>::empty(),
        decreases config.games@.len() - i,
    {
        keys.push(SortKey { first: config.games[i].0.clone(), second: String::new() });
        i += 1;
    }
    assert(order::keys_view(keys@) =~= id_keys(config@.games));
    sort_positions(&keys)
}

/// The library in words, with the games in the order of their ids.
pub open spec fn listing(games: Seq<(Seq<char>, Game)>, mounts: Seq<MountEntry>) -> Seq<Seq<char>> {
    if games.len() == 0 {
        seq!["No games configured. Use `kotori scan <dir>` to scan a directory."@]
    } else {
        seq!["Configured games:"@] + lines_for(
            games,
            mounts,
            id_order(games),
        )
    }
}

fn size_text(size: (u32, u32)) -> (text: String)
    ensures
        text@ == size_words(size),
{
    let mut text = number_text(size.0 as u64);
    text.append("x");
    text.append(number_text(size.1 as u64).as_str());
    text
}

fn size_text_or(size: Option<(u32, u32)>, missing: &str) -> (text: String)
    ensures
        text@ == size_or(size, missing@),
{
    match size {
        Some(size) => size_text(size),
        None => missing.to_owned(),
    }
}

fn saved_text(saves: &Vec<SavePath>) -> (text: String)
    ensures
        text@ == saved_words(model::saves_view(saves@)),
{
    let ghost all = model::saves_view(saves@);
    assert(all.len() == saves@.len());
    if saves.len() == 0 {
        return "none".to_owned();
    }
    let mut list: Vec<String> = Vec::new();
    let mut i: usize = 0;
    while i < saves.len()
        invariant
            i <= saves@.len(),
            all == model::saves_view(saves@),
            list@.len() == i,
            forall|k: int| 0 <= k < i ==> (#[trigger] list@[k])@ == model::description(all[k]),
        decreases saves@.len() - i,
    {
        assert(all[i as int] == saves@[i as int]@);
        list.push(saves[i].describe());
        i += 1;
    }
    assert(chars::texts(list@) =~= descriptions(all));
    joined(&list, ", ")
}

fn labelled(label: &str, value: &str) -> (line: String)
    ensures
        line@ == label@ + value@,
{
    let mut line = label.to_owned();
    line.append(value);
    line
}

fn push_game_lines(lines: &mut Vec<String>, id: &str, game: &GameConfig, mounts: &MountTable)
    ensures
        chars::texts(final(lines)@) == chars::texts(old(lines)@) + game_lines(id@, game@, mounts@),
{
    let ghost before = lines@;
    let mut first = labelled("  ", id);
    first.append(" - ");
    first.append(game.name.as_str());
    let exe = match game.resolved_exe_with(mounts) {
        Ok(exe) => exe.text(),
        Err(message) => message,
    };
    let second = labelled("    exe:     ", exe.as_str());
    let third = labelled(
        "    watch:   ",
        if game.auto_watch {
            "true"
        } else {
            "false"
        },
    );
    let fourth = labelled(
        "    direct:  ",
        if game.direct_launch {
            "true"
        } else {
            "false"
        },
    );
    let scale = &game.scale_profile;
    let mut fifth = labelled("    scale:   ", scale.name.as_str());
    fifth.append(" (");
    fifth.append(
        size_text_or(scale.explicit_internal_size(), "自动（gamescope 默认）").as_str(),
    );
    fifth.append(" -> ");
    fifth.append(size_text_or(scale.explicit_output_size(), "自动（按屏幕）").as_str());
    fifth.append(")");
    let sixth = labelled("    saved:   ", saved_text(&game.save_paths).as_str());
    let ghost own = seq![first@, second@, third@, fourth@, fifth@, sixth@];
    lines.push(first);
    lines.push(second);
    lines.push(third);
    lines.push(fourth);
    lines.push(fifth);
    lines.push(sixth);
    assert(chars::texts(lines@) =~= chars::texts(before) + own);
    assert(own =~= game_lines(id@, game@, mounts@));
}

/// The library in words, line by line.
pub fn list(config: &Config, mounts: &MountTable) -> (lines: Vec<String>)
    ensures
        chars::texts(lines@) == listing(config@.games, mounts@),
{
    let ghost games = config@.games;
    let mut lines: Vec<String> = Vec::new();
    if config.games.len() == 0 {
        lines.push("No games configured. Use `kotori scan <dir>` to scan a directory.".to_owned());
        assert(chars::texts(lines@) =~= listing(games, mounts@));
        return lines;
    }
    let positions = positions_by_id(config);
    let ghost all = order::positions_view(positions@);
    lines.push("Configured games:".to_owned());
    assert(chars::texts(lines@) =~= seq!["Configured games:"@] + lines_for(
        games,
        mounts@,
        all.take(0),
    ));
    let mut k: usize = 0;
    while k < positions.len()
        invariant
            k <= positions@.len(),
            games == config@.games,
            all == order::positions_view(positions@),
            forall|j: int| 0 <= j < positions@.len() ==> #[trigger] positions@[j] < games.len(),
            chars::texts(lines@) == seq!["Configured games:"@] + lines_for(
                games,
                mounts@,
                all.take(k as int),
            ),
        decreases positions@.len() - k,
    {
        let at = positions[k];
        assert(all.take(k + 1).drop_last() =~= all.take(k as int));
        assert(all.take(k + 1).last() == at);
        assert(games[at as int] == (config.games@[at as int].0@, config.games@[at as int].1@));
        let ghost before = chars::texts(lines@);
        push_game_lines(&mut lines, config.games[at].0.as_str(), &config.games[at].1, mounts);
        assert(chars::texts(lines@) =~= seq!["Configured games:"@] + lines_for(
            games,
            mounts@,
            all.take(k + 1),
        ));
        k += 1;
    }
    assert(all.take(k as int) =~= all);
    lines
}

// ---------------------------------------------------------------------------------------------
// What holds of the list

/// Every game has its turn in the order of the ids, once, and no game comes behind one with a
/// later id.
pub proof fn every_game_has_its_turn(games: Seq<(Seq<char>, Game)>, i: int)
    requires
        0 <= i < games.len(),
    ensures
        exists|at: int| 0 <= at < id_order(games).len() && #[trigger] id_order(games)[at] == i,
        id_order(games).len() == games.len(),
        forall|k: int|
            0 <= k < id_order(games).len() ==> 0 <= #[trigger] id_order(games)[k] < games.len(),
        forall|j: int, k: int|
            0 <= j < k < id_order(games).len() ==> !order::text_before(
                games[#[trigger] id_order(games)[k]].0,
                games[#[trigger] id_order(games)[j]].0,
            ),
{
    broadcast use vstd::seq_lib::group_to_multiset_ensures;

    let keys = id_keys(games);
    let list = id_order(games);
    order::sorting_keeps_everything(keys, games.len() as int);
    let all = Seq::new(games.len(), |i: int| i);
    assert(all[i] == i);
    assert(all.contains(i));
    assert(all.to_multiset().count(i) > 0);
    assert(list.contains(i));
    assert forall|j: int, k: int| 0 <= j < k < list.len() implies !order::text_before(
        games[#[trigger] list[k]].0,
        games[#[trigger] list[j]].0,
    ) by {
        assert(!order::pair_before(keys[list[k]], keys[list[j]]));
    }
}

/// The lines about one more game come behind the others.
pub proof fn games_are_listed_one_by_one(
    games: Seq<(Seq<char>, Game)>,
    mounts: Seq<MountEntry>,
    order: Seq<int>,
    next: int,
)
    ensures
        lines_for(games, mounts, order.push(next)) == lines_for(games, mounts, order) + game_lines(
            games[next].0,
            games[next].1,
            mounts,
        ),
{
    assert(order.push(next).drop_last() =~= order);
}

/// What is said of a game: its id and name, where its program is or why that cannot be told,
/// whether it is watched and started without gamescope, how it is scaled, and its save locations.
pub proof fn what_is_said_of_a_game(id: Seq<char>, game: Game, mounts: Seq<MountEntry>)
    ensures
        ({
            let lines = game_lines(id, game, mounts);
            let scale = game.scale_profile;
            &&& lines.len() == 6
            &&& lines[0] == "  "@ + id + " - "@ + game.name
            &&& locations::exe_now(game, mounts) is Ok ==> lines[1] == "    exe:     "@
                + path::lossy_text(locations::exe_now(game, mounts)->Ok_0)
            &&& locations::exe_now(game, mounts) is Err ==> lines[1] == "    exe:     "@
                + locations::exe_now(game, mounts)->Err_0
            &&& lines[2] == "    watch:   "@ + if game.auto_watch {
                "true"@
            } else {
                "false"@
            }
            &&& lines[3] == "    direct:  "@ + if game.direct_launch {
                "true"@
            } else {
                "false"@
            }
            &&& lines[4] == "    scale:   "@ + scale.name + " ("@ + size_or(
                profile::whole_size(scale.internal_width, scale.internal_height),
                "自动（gamescope 默认）"@,
            ) + " -> "@ + size_or(profile::asked_size(scale), "自动（按屏幕）"@) + ")"@
            &&& game.save_paths.len() == 0 ==> lines[5] == "    saved:   "@ + "none"@
            &&& game.save_paths.len() > 0 ==> lines[5] == "    saved:   "@ + split::join(
                game.save_paths.map_values(|save: SaveLocation| model::description(save)),
                ", "@,
            )
        }),
        forall|width: u32, height: u32, missing: Seq<char>| #[trigger]
            size_or(Some((width, height)), missing) == number::decimal(width as nat) + "x"@
                + number::decimal(height as nat),
        forall|missing: Seq<char>| #[trigger] size_or(None, missing) == missing,
{
}

/// A library without games is said to be empty, and any other starts with a heading.
pub proof fn a_list_has_a_heading(games: Seq<(Seq<char>, Game)>, mounts: Seq<MountEntry>)
    ensures
        games.len() == 0 ==> listing(games, mounts) == seq![
            "No games configured. Use `kotori scan <dir>` to scan a directory."@,
        ],
        games.len() > 0 ==> listing(games, mounts)[0] == "Configured games:"@ && listing(
            games,
            mounts,
        ).skip(1) == lines_for(games, mounts, id_order(games)),
{
    if games.len() > 0 {
        assert(listing(games, mounts).skip(1) =~= lines_for(games, mounts, id_order(games)));
    }
}

} // verus!
