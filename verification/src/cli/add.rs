//! `kotori add` and `kotori scan`: what was found, in words.

use crate::cli::command::push_line;
use crate::config::model;
use crate::config::model::{Config, Game, GameConfig};
use crate::game::ids;
use crate::game::ids::generate_unique_game_id;
use crate::game::library;
use crate::json;
use crate::json::{Json, JsonValue};
use crate::mount::table::MountEntry;
use crate::path;
use crate::path::FsPath;
use crate::text::chars;
use crate::text::glue::{glue2, glue3, glue5};
use crate::text::number;
use crate::text::number::number_text;
use vstd::prelude::*;

verus! {

// ---------------------------------------------------------------------------------------------
// The answer of the daemon

/// A game that was added.
pub struct Added {
    pub id: String,
    pub name: String,
    pub exe_path: String,
}

/// Something to know about a game that was added.
pub struct Warning {
    pub id: String,
    pub message: String,
}

pub open spec fn added_view(list: Seq<Added>) -> Seq<(Seq<char>, Seq<char>, Seq<char>)> {
    list.map_values(|one: Added| (one.id@, one.name@, one.exe_path@))
}

pub open spec fn warnings_view(list: Seq<Warning>) -> Seq<(Seq<char>, Seq<char>)> {
    list.map_values(|one: Warning| (one.id@, one.message@))
}

/// A text of the answer; one that is missing is empty.
pub open spec fn text_in(value: JsonValue, key: Seq<char>) -> Seq<char> {
    json::text_or(json::text_at(value, key), ""@)
}

pub open spec fn list_in(value: JsonValue, key: Seq<char>) -> Seq<JsonValue> {
    match json::as_list(json::at(value, key)) {
        Some(list) => list,
        None => Seq::empty(),
    }
}

fn added_in(reply: &Json) -> (added: Vec<Added>)
    ensures
        added_view(added@) == list_in(reply@, "added"@).map_values(
            |item: JsonValue|
                (text_in(item, "id"@), text_in(item, "name"@), text_in(item, "exe_path"@)),
        ),
{
    let mut added: Vec<Added> = Vec::new();
    let ghost wanted = list_in(reply@, "added"@).map_values(
        |item: JsonValue|
            (text_in(item, "id"@), text_in(item, "name"@), text_in(item, "exe_path"@)),
    );
    match reply.list_at("added") {
        Some(items) => {
            proof {
                json::items_view_items(items@);
            }
            let mut i: usize = 0;
            while i < items.len()
                invariant
                    i <= items@.len(),
                    added@.len() == i,
                    forall|k: int|
                        0 <= k < i ==> (#[trigger] added@[k]).id@ == text_in(items@[k]@, "id"@)
                            && added@[k].name@ == text_in(items@[k]@, "name"@)
                            && added@[k].exe_path@ == text_in(items@[k]@, "exe_path"@),
                decreases items@.len() - i,
            {
                let item = &items[i];
                added.push(
                    Added {
                        id: item.text_at_or("id", "").to_owned(),
                        name: item.text_at_or("name", "").to_owned(),
                        exe_path: item.text_at_or("exe_path", "").to_owned(),
                    },
                );
                i += 1;
            }
            assert(added_view(added@) =~= wanted);
        },
        None => {
            assert(added_view(added@) =~= wanted);
        },
    }
    added
}

fn warnings_in(reply: &Json) -> (warnings: Vec<Warning>)
    ensures
        warnings_view(warnings@) == list_in(reply@, "warnings"@).map_values(
            |item: JsonValue| (text_in(item, "id"@), text_in(item, "message"@)),
        ),
{
    let mut warnings: Vec<Warning> = Vec::new();
    let ghost wanted = list_in(reply@, "warnings"@).map_values(
        |item: JsonValue| (text_in(item, "id"@), text_in(item, "message"@)),
    );
    match reply.list_at("warnings") {
        Some(items) => {
            proof {
                json::items_view_items(items@);
            }
            let mut i: usize = 0;
            while i < items.len()
                invariant
                    i <= items@.len(),
                    warnings@.len() == i,
                    forall|k: int|
                        0 <= k < i ==> (#[trigger] warnings@[k]).id@ == text_in(items@[k]@, "id"@)
                            && warnings@[k].message@ == text_in(items@[k]@, "message"@),
                decreases items@.len() - i,
            {
                let item = &items[i];
                warnings.push(
                    Warning {
                        id: item.text_at_or("id", "").to_owned(),
                        message: item.text_at_or("message", "").to_owned(),
                    },
                );
                i += 1;
            }
            assert(warnings_view(warnings@) =~= wanted);
        },
        None => {
            assert(warnings_view(warnings@) =~= wanted);
        },
    }
    warnings
}

/// What the daemon says that it added.
pub fn split_reply(reply: &Json) -> (out: (Vec<Added>, Vec<Warning>))
    ensures
        added_view(out.0@) == list_in(reply@, "added"@).map_values(
            |item: JsonValue|
                (text_in(item, "id"@), text_in(item, "name"@), text_in(item, "exe_path"@)),
        ),
        warnings_view(out.1@) == list_in(reply@, "warnings"@).map_values(
            |item: JsonValue| (text_in(item, "id"@), text_in(item, "message"@)),
        ),
{
    (added_in(reply), warnings_in(reply))
}

// ---------------------------------------------------------------------------------------------
// What is printed

pub open spec fn added_line(one: (Seq<char>, Seq<char>, Seq<char>)) -> Seq<char> {
    "  ["@ + one.0 + "] "@ + one.1 + " -> "@ + one.2
}

pub open spec fn warning_line(one: (Seq<char>, Seq<char>)) -> Seq<char> {
    "  ⚠ ["@ + one.0 + "] "@ + one.1
}

/// Where nothing is new, that is all that is said.
pub open spec fn report_lines(
    directory: Seq<u8>,
    added: Seq<(Seq<char>, Seq<char>, Seq<char>)>,
    warnings: Seq<(Seq<char>, Seq<char>)>,
) -> Seq<Seq<char>> {
    if added.len() == 0 {
        seq!["No new games added from "@ + path::lossy_text(directory)]
    } else {
        seq!["Added "@ + number::decimal(added.len()) + " game(s):"@] + added.map_values(
            |one: (Seq<char>, Seq<char>, Seq<char>)| added_line(one),
        ) + warnings.map_values(|one: (Seq<char>, Seq<char>)| warning_line(one))
    }
}

fn added_text(id: &str, name: &str, exe: &str) -> (line: String)
    ensures
        line@ == added_line((id@, name@, exe@)),
{
    let start = glue5("  [", id, "] ", name, " -> ");
    glue2(start.as_str(), exe)
}

/// What was added from a directory, in words.
pub fn report(directory: &FsPath, added: &Vec<Added>, warnings: &Vec<Warning>) -> (lines: Vec<
    String,
>)
    ensures
        chars::texts(lines@) == report_lines(
            directory@,
            added_view(added@),
            warnings_view(warnings@),
        ),
{
    let ghost games = added_view(added@);
    let ghost notes = warnings_view(warnings@);
    let mut lines: Vec<String> = Vec::new();
    assert(chars::texts(lines@) =~= Seq::<Seq<char>>::empty());
    if added.len() == 0 {
        push_line(&mut lines, glue2("No new games added from ", directory.text().as_str()));
        assert(chars::texts(lines@) =~= report_lines(directory@, games, notes));
        return lines;
    }
    push_line(&mut lines, glue3("Added ", number_text(added.len() as u64).as_str(), " game(s):"));
    let ghost start = chars::texts(lines@);
    let ghost words = games.map_values(
        |one: (Seq<char>, Seq<char>, Seq<char>)| added_line(one),
    );
    let mut i: usize = 0;
    assert(start + words.take(0) =~= start);
    while i < added.len()
        invariant
            i <= added@.len() == games.len(),
            games == added_view(added@),
            words == games.map_values(
                |one: (Seq<char>, Seq<char>, Seq<char>)| added_line(one),
            ),
            chars::texts(lines@) == start + words.take(i as int),
        decreases added@.len() - i,
    {
        let one = &added[i];
        push_line(
            &mut lines,
            added_text(one.id.as_str(), one.name.as_str(), one.exe_path.as_str()),
        );
        assert(start + words.take(i + 1) =~= (start + words.take(i as int)).push(words[i as int]));
        i += 1;
    }
    assert(words.take(i as int) =~= words);
    let ghost middle = start + words;
    let ghost others = notes.map_values(|one: (Seq<char>, Seq<char>)| warning_line(one));
    let mut k: usize = 0;
    assert(middle + others.take(0) =~= middle);
    while k < warnings.len()
        invariant
            k <= warnings@.len() == notes.len(),
            notes == warnings_view(warnings@),
            others == notes.map_values(|one: (Seq<char>, Seq<char>)| warning_line(one)),
            chars::texts(lines@) == middle + others.take(k as int),
        decreases warnings@.len() - k,
    {
        let one = &warnings[k];
        let start = glue3("  ⚠ [", one.id.as_str(), "] ");
        push_line(&mut lines, glue2(start.as_str(), one.message.as_str()));
        assert(middle + others.take(k + 1) =~= (middle + others.take(k as int)).push(
            others[k as int],
        ));
        k += 1;
    }
    assert(others.take(k as int) =~= others);
    assert(chars::texts(lines@) =~= report_lines(directory@, games, notes));
    lines
}

// ---------------------------------------------------------------------------------------------
// A scan that adds nothing

/// What a scan shows: the ids that the games would get, and the lines.
pub struct Preview {
    pub ids: Vec<String>,
    pub lines: Vec<String>,
}

/// The library with the first n games that were found.
pub open spec fn library_with(
    games: Seq<(Seq<char>, Game)>,
    ids: Seq<Seq<char>>,
    found: Seq<Game>,
    n: int,
) -> Seq<(Seq<char>, Game)> {
    games + Seq::new(n as nat, |i: int| (ids[i], found[i]))
}

/// The ids are those that the games would get, one after the other.
pub open spec fn ids_in_turn(
    games: Seq<(Seq<char>, Game)>,
    ids: Seq<Seq<char>>,
    found: Seq<Game>,
) -> bool {
    ids.len() == found.len() && forall|i: int|
        0 <= i < ids.len() ==> ids::is_unique_id(
            library_with(games, ids, found, i),
            found[i].name,
            #[trigger] ids[i],
        )
}

pub open spec fn preview_lines(
    directory: Seq<u8>,
    ids: Seq<Seq<char>>,
    found: Seq<Game>,
) -> Seq<Seq<char>> {
    let place = path::lossy_text(directory);
    if found.len() == 0 {
        seq!["No games found in "@ + place]
    } else {
        seq!["Found "@ + number::decimal(found.len()) + " game(s) in "@ + place + ":"@] + Seq::new(
            found.len(),
            |i: int|
                added_line((ids[i], found[i].name, path::lossy_text(found[i].exe_path))),
        )
    }
}

/// What a scan of a directory shows. The ids are given out as they would be if the games were
/// added; `config` is a copy that nobody saves.
pub fn preview(config: Config, directory: &FsPath, found: &Vec<GameConfig>) -> (out: Preview)
    ensures
        ids_in_turn(config@.games, chars::texts(out.ids@), library::found_view(found@)),
        chars::texts(out.lines@) == preview_lines(
            directory@,
            chars::texts(out.ids@),
            library::found_view(found@),
        ),
{
    let ghost games = config@.games;
    let ghost all = library::found_view(found@);
    let mut ids: Vec<String> = Vec::new();
    let mut lines: Vec<String> = Vec::new();
    assert(chars::texts(lines@) =~= Seq::<Seq<char>>::empty());
    if found.len() == 0 {
        push_line(&mut lines, glue2("No games found in ", directory.text().as_str()));
        assert(chars::texts(lines@) =~= preview_lines(directory@, chars::texts(ids@), all));
        return Preview { ids, lines };
    }
    let head = glue5(
        "Found ",
        number_text(found.len() as u64).as_str(),
        " game(s) in ",
        directory.text().as_str(),
        ":",
    );
    let ghost first = head@;
    lines.push(head);
    let mut current = config;
    let mut i: usize = 0;
    assert(current@.games =~= library_with(games, chars::texts(ids@), all, 0));
    while i < found.len()
        invariant
            i <= found@.len() == all.len(),
            all == library::found_view(found@),
            ids@.len() == i,
            lines@.len() == i + 1,
            lines@[0]@ == first,
            current@.games == library_with(games, chars::texts(ids@), all, i as int),
            forall|k: int|
                0 <= k < i ==> ids::is_unique_id(
                    library_with(games, chars::texts(ids@), all, k),
                    all[k].name,
                    (#[trigger] ids@[k])@,
                ),
            forall|k: int|
                0 <= k < i ==> (#[trigger] lines@[k + 1])@ == added_line(
                    (ids@[k]@, all[k].name, path::lossy_text(all[k].exe_path)),
                ),
        decreases found@.len() - i,
    {
        let game = &found[i];
        assert(all[i as int] == game@);
        let id = generate_unique_game_id(&current, game.name.as_str());
        let line = added_text(id.as_str(), game.name.as_str(), game.exe_path.text().as_str());
        let ghost ids_before = ids@;
        let ghost lines_before = lines@;
        let ghost library_before = current@.games;
        ids.push(id.clone());
        lines.push(line);
        current.push_game(id, game.copy());
        proof {
            let before = chars::texts(ids_before);
            let after = chars::texts(ids@);
            assert forall|k: int| 0 <= k <= i implies #[trigger] library_with(games, after, all, k)
                == library_with(games, before, all, k) by {
                assert(library_with(games, after, all, k) =~= library_with(games, before, all, k));
            }
            assert(current@.games =~= library_with(games, after, all, i + 1));
            assert forall|k: int| 0 <= k < i + 1 implies ids::is_unique_id(
                library_with(games, after, all, k),
                all[k].name,
                (#[trigger] ids@[k])@,
            ) by {
                if k < i {
                    assert(ids@[k] == ids_before[k]);
                    assert(library_with(games, after, all, k) == library_with(
                        games,
                        before,
                        all,
                        k,
                    ));
                }
            }
            assert forall|k: int| 0 <= k < i + 1 implies (#[trigger] lines@[k + 1])@ == added_line(
                (ids@[k]@, all[k].name, path::lossy_text(all[k].exe_path)),
            ) by {
                if k < i {
                    assert(lines@[k + 1] == lines_before[k + 1]);
                    assert(ids@[k] == ids_before[k]);
                }
            }
        }
        i += 1;
    }
    proof {
        let list = chars::texts(ids@);
        let wanted = preview_lines(directory@, list, all);
        assert forall|k: int| 0 <= k < list.len() implies ids::is_unique_id(
            library_with(games, list, all, k),
            all[k].name,
            #[trigger] list[k],
        ) by {
            assert(list[k] == ids@[k]@);
        }
        assert forall|k: int| 0 <= k < wanted.len() implies #[trigger] chars::texts(lines@)[k]
            == wanted[k] by {
            if k > 0 {
                assert(lines@[(k - 1) + 1]@ == added_line(
                    (ids@[k - 1]@, all[k - 1].name, path::lossy_text(all[k - 1].exe_path)),
                ));
            }
        }
        assert(chars::texts(lines@) =~= wanted);
    }
    Preview { ids, lines }
}

/// No two games of a scan are shown under one id, and none under the id of a game that is there.
pub proof fn shown_ids_differ(
    games: Seq<(Seq<char>, Game)>,
    ids: Seq<Seq<char>>,
    found: Seq<Game>,
    i: int,
    j: int,
)
    requires
        ids_in_turn(games, ids, found),
        0 <= i < j < ids.len(),
    ensures
        ids[i] != ids[j],
        !model::has_game(games, ids[j]),
{
    let before = library_with(games, ids, found, j);
    assert(ids::is_unique_id(before, found[j].name, ids[j]));
    ids::a_new_id_is_free(before, found[j].name, ids[j]);
    model::position_is_first(before, ids[j], 0);
    model::position_is_first(games, ids[j], 0);
    assert(before[games.len() + i] == (ids[i], found[i]));
    assert forall|k: int| 0 <= k < games.len() implies (#[trigger] games[k]).0 != ids[j] by {
        assert(before[k] == games[k]);
    }
}

/// A text of an answer is the text under its name, and an empty one where there is none; a list is
/// the list under its name.
pub proof fn what_an_answer_holds(
    value: JsonValue,
    key: Seq<char>,
    text: Seq<char>,
    items: Seq<JsonValue>,
)
    ensures
        json::field(value, key) == Some(JsonValue::Text(text)) ==> text_in(value, key) == text,
        json::field(value, key) is None ==> text_in(value, key).len() == 0,
        json::field(value, key) == Some(JsonValue::List(items)) ==> list_in(value, key) == items,
        json::field(value, key) is None ==> list_in(value, key).len() == 0,
{
    reveal_strlit("");
}

/// What is printed of games that were added: how many, a line for each, and then a line for each
/// thing to know.
pub proof fn every_game_that_was_added_is_shown(
    directory: Seq<u8>,
    added: Seq<(Seq<char>, Seq<char>, Seq<char>)>,
    warnings: Seq<(Seq<char>, Seq<char>)>,
)
    ensures
        added.len() == 0 ==> report_lines(directory, added, warnings) == seq![
            "No new games added from "@ + path::lossy_text(directory),
        ],
        added.len() > 0 ==> {
            let lines = report_lines(directory, added, warnings);
            &&& lines.len() == 1 + added.len() + warnings.len()
            &&& lines[0] == "Added "@ + number::decimal(added.len()) + " game(s):"@
            &&& forall|i: int|
                0 <= i < added.len() ==> lines[1 + i] == "  ["@ + (#[trigger] added[i]).0 + "] "@
                    + added[i].1 + " -> "@ + added[i].2
            &&& forall|i: int|
                0 <= i < warnings.len() ==> lines[1 + added.len() + i] == "  ⚠ ["@ + (
                #[trigger] warnings[i]).0 + "] "@ + warnings[i].1
        },
{
}

/// What is printed of games that were found: how many, and a line for each with the id it would
/// get.
pub proof fn every_game_that_was_found_is_shown(
    directory: Seq<u8>,
    ids: Seq<Seq<char>>,
    found: Seq<Game>,
)
    requires
        ids.len() == found.len(),
    ensures
        found.len() == 0 ==> preview_lines(directory, ids, found) == seq![
            "No games found in "@ + path::lossy_text(directory),
        ],
        found.len() > 0 ==> {
            let lines = preview_lines(directory, ids, found);
            &&& lines.len() == 1 + found.len()
            &&& lines[0] == "Found "@ + number::decimal(found.len()) + " game(s) in "@
                + path::lossy_text(directory) + ":"@
            &&& forall|i: int|
                0 <= i < found.len() ==> lines[1 + i] == "  ["@ + ids[i] + "] "@ + (
                #[trigger] found[i]).name + " -> "@ + path::lossy_text(found[i].exe_path)
        },
{
}

proof fn lemma_same_ids(
    games: Seq<(Seq<char>, Game)>,
    mounts: Seq<MountEntry>,
    found: Seq<Game>,
    out: Seq<(Seq<char>, Game)>,
    added: Seq<(Seq<char>, Game)>,
    ids: Seq<Seq<char>>,
)
    requires
        library::adding(games, mounts, found, out, added),
        added.len() == found.len(),
        ids_in_turn(games, ids, found),
    ensures
        forall|i: int| 0 <= i < ids.len() ==> (#[trigger] added[i]).0 == ids[i],
    decreases found.len(),
{
    if found.len() > 0 {
        let game = found[0];
        library::adding_has_at_most_all(games, mounts, found, out, added);
        assert(library_with(games, ids, found, 0) =~= games);
        assert(ids::is_unique_id(library_with(games, ids, found, 0), found[0].name, ids[0]));
        if library::has_exe(games, mounts, game.exe_path) {
            library::adding_has_at_most_all(games, mounts, found.skip(1), out, added);
        } else {
            ids::a_new_id_is_determined(games, game.name, added[0].0, ids[0]);
            let next = games.push(added[0]);
            let (later, others) = (ids.skip(1), found.skip(1));
            assert forall|i: int| 0 <= i < later.len() implies ids::is_unique_id(
                library_with(next, later, others, i),
                others[i].name,
                #[trigger] later[i],
            ) by {
                assert(later[i] == ids[i + 1]);
                assert(library_with(next, later, others, i) =~= library_with(
                    games,
                    ids,
                    found,
                    i + 1,
                ));
            }
            lemma_same_ids(next, mounts, others, out, added.skip(1), later);
            assert forall|i: int| 0 <= i < ids.len() implies (#[trigger] added[i]).0 == ids[i] by {
                if i > 0 {
                    assert(added.skip(1)[i - 1] == added[i]);
                    assert(later[i - 1] == ids[i]);
                }
            }
        }
    }
}

/// A scan shows the ids that the games get when they are added, where all of them are new.
pub proof fn a_scan_shows_the_ids_that_adding_gives(
    games: Seq<(Seq<char>, Game)>,
    mounts: Seq<MountEntry>,
    found: Seq<Game>,
    out: Seq<(Seq<char>, Game)>,
    added: Seq<(Seq<char>, Game)>,
    ids: Seq<Seq<char>>,
)
    requires
        library::adding(games, mounts, found, out, added),
        added.len() == found.len(),
        ids_in_turn(games, ids, found),
    ensures
        forall|i: int| 0 <= i < ids.len() ==> (#[trigger] added[i]).0 == ids[i],
{
    lemma_same_ids(games, mounts, found, out, added, ids);
}

} // verus!
