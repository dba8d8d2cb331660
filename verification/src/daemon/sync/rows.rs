//! A game of the cloud as one row: what the cloud says of it, and what this machine has to do
//! with it.

use crate::config::model::{Config, Game};
use crate::json;
use crate::json::{no_members, number, text, text_or_null, texts_json, with, Json, JsonValue};
use crate::path;
use crate::path::FsPath;
use crate::text::chars;
use crate::text::chars::{list_has, same_text};
use crate::text::glue::glue2;
use vstd::prelude::*;

verus! {

/// A game of the cloud, as the index there has it.
pub struct IndexGame {
    pub cloud_key: String,
    pub cloud_id: String,
    pub name: String,
    /// For each machine the programs that it used.
    pub machines: Vec<Vec<String>>,
    pub versions: u64,
    pub latest: Option<String>,
    pub size: u64,
}

/// The game here that has an identity, and its name: the last one of the library.
pub open spec fn paired(games: Seq<(Seq<char>, Game)>, cloud_id: Seq<char>, n: int) -> Option<
    (Seq<char>, Seq<char>),
>
    decreases n,
{
    if n <= 0 {
        None
    } else if games[n - 1].1.cloud_id == Some(cloud_id) {
        Some((games[n - 1].0, games[n - 1].1.name))
    } else {
        paired(games, cloud_id, n - 1)
    }
}

/// The user said of some game here that it is not this one.
pub open spec fn was_rejected(games: Seq<(Seq<char>, Game)>, cloud_id: Seq<char>) -> bool {
    exists|i: int|
        0 <= i < games.len() && (#[trigger] games[i]).1.cloud_rejected.contains(cloud_id)
}

pub open spec fn first_text(pair: Option<(Seq<char>, Seq<char>)>) -> Seq<char> {
    match pair {
        Some((first, _)) => first,
        None => Seq::empty(),
    }
}

pub open spec fn second_text(pair: Option<(Seq<char>, Seq<char>)>) -> Seq<char> {
    match pair {
        Some((_, second)) => second,
        None => Seq::empty(),
    }
}

/// The programs of the first n machines, one after the other.
pub open spec fn all_programs(machines: Seq<Vec<String>>, n: int) -> Seq<Seq<char>>
    decreases n,
{
    if n <= 0 {
        Seq::empty()
    } else {
        all_programs(machines, n - 1) + chars::texts(machines[n - 1]@)
    }
}

pub open spec fn row_members(games: Seq<(Seq<char>, Game)>, game: IndexGame) -> Seq<
    (Seq<char>, JsonValue),
> {
    let local = paired(games, game.cloud_id@, games.len() as int);
    seq![
        ("cloud_key"@, JsonValue::Text(game.cloud_key@)),
        ("cloud_id"@, JsonValue::Text(game.cloud_id@)),
        ("name"@, JsonValue::Text(game.name@)),
        ("machines"@, JsonValue::Number(game.machines@.len() as int)),
        ("versions"@, JsonValue::Number(game.versions as int)),
        ("latest"@, json::optional_text(chars::text_view(game.latest))),
        ("size"@, JsonValue::Number(game.size as int)),
        (
            "exe_paths"@,
            json::text_list(all_programs(game.machines@, game.machines@.len() as int)),
        ),
        ("local_id"@, JsonValue::Text(first_text(local))),
        ("local_name"@, JsonValue::Text(second_text(local))),
        ("rejected"@, JsonValue::Bool(was_rejected(games, game.cloud_id@))),
    ]
}

pub open spec fn rows_json(games: Seq<(Seq<char>, Game)>, list: Seq<IndexGame>) -> JsonValue {
    JsonValue::List(list.map_values(|game: IndexGame| JsonValue::Object(row_members(games, game))))
}

fn pair_of(config: &Config, cloud_id: &str) -> (out: Option<usize>)
    ensures
        match out {
            Some(i) => i < config.games@.len() && paired(
                config@.games,
                cloud_id@,
                config@.games.len() as int,
            ) == Some((config@.games[i as int].0, config@.games[i as int].1.name)),
            None => paired(config@.games, cloud_id@, config@.games.len() as int) is None,
        },
{
    let ghost games = config@.games;
    let mut n: usize = config.games.len();
    while n > 0
        invariant
            n <= config.games@.len() == games.len(),
            games == config@.games,
            paired(games, cloud_id@, games.len() as int) == paired(games, cloud_id@, n as int),
        decreases n,
    {
        assert(games[n - 1] == (config.games@[n - 1].0@, config.games@[n - 1].1@));
        match &config.games[n - 1].1.cloud_id {
            Some(own) => if same_text(own.as_str(), cloud_id) {
                return Some(n - 1);
            },
            None => {},
        }
        n -= 1;
    }
    None
}

fn rejected(config: &Config, cloud_id: &str) -> (yes: bool)
    ensures
        yes == was_rejected(config@.games, cloud_id@),
{
    let ghost games = config@.games;
    let mut i: usize = 0;
    while i < config.games.len()
        invariant
            i <= config.games@.len(),
            games == config@.games,
            forall|k: int|
                0 <= k < i ==> !(#[trigger] games[k]).1.cloud_rejected.contains(cloud_id@),
        decreases config.games@.len() - i,
    {
        assert(games[i as int] == (config.games@[i as int].0@, config.games@[i as int].1@));
        if list_has(&config.games[i].1.cloud_rejected, cloud_id) {
            assert(games[i as int].1.cloud_rejected.contains(cloud_id@));
            return true;
        }
        i += 1;
    }
    false
}

fn programs(machines: &Vec<Vec<String>>) -> (out: Vec<String>)
    ensures
        chars::texts(out@) == all_programs(machines@, machines@.len() as int),
{
    let mut out: Vec<String> = Vec::new();
    let mut i: usize = 0;
    assert(chars::texts(out@) =~= all_programs(machines@, 0));
    while i < machines.len()
        invariant
            i <= machines@.len(),
            chars::texts(out@) == all_programs(machines@, i as int),
        decreases machines@.len() - i,
    {
        let ghost before = chars::texts(out@);
        let ghost own = chars::texts(machines@[i as int]@);
        let mut k: usize = 0;
        assert(before + own.take(0) =~= before);
        while k < machines[i].len()
            invariant
                i < machines@.len(),
                k <= machines@[i as int]@.len(),
                own == chars::texts(machines@[i as int]@),
                chars::texts(out@) == before + own.take(k as int),
            decreases machines@[i as int]@.len() - k,
        {
            let ghost now = out@;
            out.push(machines[i][k].clone());
            assert(chars::texts(out@) =~= chars::texts(now).push(own[k as int]));
            assert(own.take(k + 1) =~= own.take(k as int).push(own[k as int]));
            assert(before + own.take(k + 1) =~= (before + own.take(k as int)).push(
                own[k as int],
            ));
            k += 1;
        }
        assert(own.take(k as int) =~= own);
        i += 1;
    }
    out
}

pub fn row(config: &Config, game: &IndexGame) -> (out: Json)
    ensures
        out@ == JsonValue::Object(row_members(config@.games, *game)),
{
    let local = pair_of(config, game.cloud_id.as_str());
    let (local_id, local_name) = match local {
        Some(i) => {
            assert(config@.games[i as int] == (
                config.games@[i as int].0@,
                config.games@[i as int].1@,
            ));
            (config.games[i].0.clone(), config.games[i].1.name.clone())
        },
        None => (String::new(), String::new()),
    };
    let out = with(no_members(), "cloud_key", text(game.cloud_key.as_str()));
    let out = with(out, "cloud_id", text(game.cloud_id.as_str()));
    let out = with(out, "name", text(game.name.as_str()));
    let out = with(out, "machines", number(game.machines.len() as u64));
    let out = with(out, "versions", number(game.versions));
    let out = with(out, "latest", text_or_null(&game.latest));
    let out = with(out, "size", number(game.size));
    let out = with(out, "exe_paths", texts_json(&programs(&game.machines)));
    let out = with(out, "local_id", text(local_id.as_str()));
    let out = with(out, "local_name", text(local_name.as_str()));
    let out = with(out, "rejected", Json::Bool(rejected(config, game.cloud_id.as_str())));
    assert(json::members_view(out@) =~= row_members(config@.games, *game));
    Json::Object(out)
}

fn rows(config: &Config, list: &Vec<IndexGame>) -> (out: Json)
    ensures
        out@ == rows_json(config@.games, list@),
{
    let mut items: Vec<Json> = Vec::new();
    let mut i: usize = 0;
    while i < list.len()
        invariant
            i <= list@.len(),
            items@.len() == i,
            forall|k: int|
                0 <= k < i ==> (#[trigger] items@[k])@ == JsonValue::Object(
                    row_members(config@.games, list@[k]),
                ),
        decreases list@.len() - i,
    {
        items.push(row(config, &list[i]));
        i += 1;
    }
    proof {
        json::items_view_items(items@);
        assert(json::items_view(items@) =~= list@.map_values(
            |game: IndexGame| JsonValue::Object(row_members(config@.games, game)),
        ));
    }
    Json::List(items)
}

pub open spec fn index_list(index: Option<Vec<IndexGame>>) -> Seq<IndexGame> {
    match index {
        Some(list) => list@,
        None => Seq::empty(),
    }
}

/// The games of the cloud. Where there is no index yet, the client hears that too.
pub fn cloud_list(config: &Config, index: &Option<Vec<IndexGame>>) -> (out: Json)
    ensures
        out@ == JsonValue::Object(
            seq![
                ("indexed"@, JsonValue::Bool(*index is Some)),
                ("games"@, rows_json(config@.games, index_list(*index))),
            ],
        ),
{
    let games = match index {
        Some(list) => rows(config, list),
        None => {
            let none: Vec<IndexGame> = Vec::new();
            rows(config, &none)
        },
    };
    let out = with(no_members(), "indexed", Json::Bool(index.is_some()));
    let out = with(out, "games", games);
    assert(json::members_view(out@) =~= seq![
        ("indexed"@, JsonValue::Bool(*index is Some)),
        ("games"@, rows_json(config@.games, index_list(*index))),
    ]);
    Json::Object(out)
}

/// The fingerprint that a program is looked for by. It is worked out from the file at that
/// moment; a file that cannot be read has none.
pub fn match_fingerprint(found: Option<String>, exe: &FsPath) -> (out: Result<String, String>)
    ensures
        match out {
            Ok(fingerprint) => found == Some(fingerprint),
            Err(message) => found is None && message@
                == "读不出这个文件的指纹（文件在不在、有没有权限？）: "@ + path::lossy_text(exe@),
        },
{
    match found {
        Some(fingerprint) => Ok(fingerprint),
        None => Err(
            glue2(
                "读不出这个文件的指纹（文件在不在、有没有权限？）: ",
                exe.text().as_str(),
            ),
        ),
    }
}

/// What the cloud has with the fingerprint of a program: nothing, the game, or several to ask
/// about. `matches` are the games of the index with that fingerprint.
pub fn match_reply(
    config: &Config,
    indexed: bool,
    from_cache: bool,
    cached_at: &Option<String>,
    fingerprint: &str,
    matches: &Vec<IndexGame>,
) -> (out: Json)
    ensures
        out@ == JsonValue::Object(
            seq![
                ("indexed"@, JsonValue::Bool(indexed)),
                ("from_cache"@, JsonValue::Bool(from_cache)),
                ("cached_at"@, json::optional_text(chars::text_view(*cached_at))),
                ("fingerprint"@, JsonValue::Text(fingerprint@)),
                ("games"@, rows_json(config@.games, matches@)),
            ],
        ),
{
    let out = with(no_members(), "indexed", Json::Bool(indexed));
    let out = with(out, "from_cache", Json::Bool(from_cache));
    let out = with(out, "cached_at", text_or_null(cached_at));
    let out = with(out, "fingerprint", text(fingerprint));
    let out = with(out, "games", rows(config, matches));
    assert(json::members_view(out@) =~= seq![
        ("indexed"@, JsonValue::Bool(indexed)),
        ("from_cache"@, JsonValue::Bool(from_cache)),
        ("cached_at"@, json::optional_text(chars::text_view(*cached_at))),
        ("fingerprint"@, JsonValue::Text(fingerprint@)),
        ("games"@, rows_json(config@.games, matches@)),
    ]);
    Json::Object(out)
}

/// The list and the match say the same of a game.
pub proof fn rows_agree(
    games: Seq<(Seq<char>, Game)>,
    list: Seq<IndexGame>,
    matches: Seq<IndexGame>,
    i: int,
    k: int,
)
    requires
        0 <= i < list.len(),
        0 <= k < matches.len(),
        list[i] == matches[k],
    ensures
        rows_json(games, list)->List_0[i] == rows_json(games, matches)->List_0[k],
{
}

proof fn lemma_paired(games: Seq<(Seq<char>, Game)>, cloud_id: Seq<char>, n: int)
    requires
        0 <= n <= games.len(),
    ensures
        match paired(games, cloud_id, n) {
            Some((id, name)) => exists|i: int|
                0 <= i < n && (#[trigger] games[i]).1.cloud_id == Some(cloud_id) && games[i].0 == id
                    && games[i].1.name == name && forall|k: int|
                    i < k < n ==> (#[trigger] games[k]).1.cloud_id != Some(cloud_id),
            None => forall|i: int|
                0 <= i < n ==> (#[trigger] games[i]).1.cloud_id != Some(cloud_id),
        },
    decreases n,
{
    if n > 0 {
        if games[n - 1].1.cloud_id == Some(cloud_id) {
            assert(games[n - 1].0 == games[n - 1].0);
        } else {
            lemma_paired(games, cloud_id, n - 1);
        }
    }
}

/// A row names the game here that has the identity, where there is one, and says whether the user
/// has said of some game here that it is another one.
pub proof fn a_row_names_the_game_here(games: Seq<(Seq<char>, Game)>, game: IndexGame, i: int)
    requires
        0 <= i < games.len(),
        games[i].1.cloud_id == Some(game.cloud_id@),
        forall|k: int|
            i < k < games.len() ==> (#[trigger] games[k]).1.cloud_id != Some(game.cloud_id@),
    ensures
        json::has_member(
            JsonValue::Object(row_members(games, game)),
            "local_id"@,
            JsonValue::Text(games[i].0),
        ),
        json::has_member(
            JsonValue::Object(row_members(games, game)),
            "local_name"@,
            JsonValue::Text(games[i].1.name),
        ),
{
    lemma_paired(games, game.cloud_id@, games.len() as int);
    let (id, name) = paired(games, game.cloud_id@, games.len() as int).unwrap();
    let at = choose|at: int|
        0 <= at < games.len() && (#[trigger] games[at]).1.cloud_id == Some(game.cloud_id@)
            && games[at].0 == id && games[at].1.name == name && forall|k: int|
            at < k < games.len() ==> (#[trigger] games[k]).1.cloud_id != Some(game.cloud_id@);
    assert(at == i) by {
        if at < i {
            assert(games[i].1.cloud_id != Some(game.cloud_id@));
        }
        if i < at {
            assert(games[at].1.cloud_id != Some(game.cloud_id@));
        }
    }
    let members = row_members(games, game);
    assert(members[8] == ("local_id"@, JsonValue::Text(games[i].0)));
    assert(members[9] == ("local_name"@, JsonValue::Text(games[i].1.name)));
}

/// A row says of a game what the index of the cloud says of it; a game that nobody here has is named
/// with nothing.
pub proof fn a_row_says_what_the_cloud_says(games: Seq<(Seq<char>, Game)>, game: IndexGame)
    requires
        forall|i: int|
            0 <= i < games.len() ==> (#[trigger] games[i]).1.cloud_id != Some(game.cloud_id@),
    ensures
        json::has_member(JsonValue::Object(row_members(games, game)), "cloud_key"@, JsonValue::Text(game.cloud_key@)),
        json::has_member(JsonValue::Object(row_members(games, game)), "cloud_id"@, JsonValue::Text(game.cloud_id@)),
        json::has_member(JsonValue::Object(row_members(games, game)), "name"@, JsonValue::Text(game.name@)),
        json::has_member(JsonValue::Object(row_members(games, game)), "machines"@, JsonValue::Number(game.machines@.len() as int)),
        json::has_member(JsonValue::Object(row_members(games, game)), "versions"@, JsonValue::Number(game.versions as int)),
        json::has_member(JsonValue::Object(row_members(games, game)), "latest"@, json::optional_text(chars::text_view(game.latest))),
        json::has_member(JsonValue::Object(row_members(games, game)), "size"@, JsonValue::Number(game.size as int)),
        json::has_member(JsonValue::Object(row_members(games, game)), "local_id"@, JsonValue::Text(Seq::empty())),
        json::has_member(JsonValue::Object(row_members(games, game)), "local_name"@, JsonValue::Text(Seq::empty())),
        json::has_member(JsonValue::Object(row_members(games, game)), "rejected"@, JsonValue::Bool(
            exists|i: int|
                0 <= i < games.len() && (#[trigger] games[i]).1.cloud_rejected.contains(
                    game.cloud_id@,
                ),
        )),
{
    lemma_paired(games, game.cloud_id@, games.len() as int);
    let members = row_members(games, game);
    assert(members[0] == ("cloud_key"@, JsonValue::Text(game.cloud_key@)));
    assert(members[1] == ("cloud_id"@, JsonValue::Text(game.cloud_id@)));
    assert(members[2] == ("name"@, JsonValue::Text(game.name@)));
    assert(members[3] == ("machines"@, JsonValue::Number(game.machines@.len() as int)));
    assert(members[4] == ("versions"@, JsonValue::Number(game.versions as int)));
    assert(members[5] == ("latest"@, json::optional_text(chars::text_view(game.latest))));
    assert(members[6] == ("size"@, JsonValue::Number(game.size as int)));
    assert(members[8] == ("local_id"@, JsonValue::Text(Seq::empty())));
    assert(members[9] == ("local_name"@, JsonValue::Text(Seq::empty())));
    assert(members[10] == ("rejected"@, JsonValue::Bool(
            exists|i: int|
                0 <= i < games.len() && (#[trigger] games[i]).1.cloud_rejected.contains(
                    game.cloud_id@,
                ),
        )));
}

/// The programs of all machines are listed, machine by machine.
pub proof fn programs_are_listed_machine_by_machine(machines: Seq<Vec<String>>, n: int)
    requires
        0 < n <= machines.len(),
    ensures
        all_programs(machines, n) == all_programs(machines, n - 1) + chars::texts(machines[n - 1]@),
        all_programs(machines, 0).len() == 0,
{
}

/// Every game of a list has its row, in its place.
pub proof fn every_game_has_its_row(games: Seq<(Seq<char>, Game)>, list: Seq<IndexGame>, i: int)
    requires
        0 <= i < list.len(),
    ensures
        match rows_json(games, list) {
            JsonValue::List(rows) => rows.len() == list.len() && rows[i] == JsonValue::Object(
                row_members(games, list[i]),
            ),
            _ => false,
        },
{
}

/// What a row says of the cloud does not depend on the games here, but for whether one of them was
/// told that it is another game.
pub proof fn a_row_says_the_same_on_every_machine(games: Seq<(Seq<char>, Game)>, game: IndexGame)
    ensures
        ({
            let row = JsonValue::Object(row_members(games, game));
            &&& json::has_member(row, "cloud_key"@, JsonValue::Text(game.cloud_key@))
            &&& json::has_member(row, "cloud_id"@, JsonValue::Text(game.cloud_id@))
            &&& json::has_member(row, "name"@, JsonValue::Text(game.name@))
            &&& json::has_member(row, "machines"@, JsonValue::Number(game.machines@.len() as int))
            &&& json::has_member(row, "versions"@, JsonValue::Number(game.versions as int))
            &&& json::has_member(
                row,
                "latest"@,
                json::optional_text(chars::text_view(game.latest)),
            )
            &&& json::has_member(row, "size"@, JsonValue::Number(game.size as int))
            &&& json::has_member(
                row,
                "exe_paths"@,
                json::text_list(all_programs(game.machines@, game.machines@.len() as int)),
            )
            &&& json::has_member(
                row,
                "rejected"@,
                JsonValue::Bool(
                    exists|i: int|
                        0 <= i < games.len() && (#[trigger] games[i]).1.cloud_rejected.contains(
                            game.cloud_id@,
                        ),
                ),
            )
        }),
        row_members(games, game).len() == 11,
{
    let members = row_members(games, game);
    assert(members[0] == ("cloud_key"@, JsonValue::Text(game.cloud_key@)));
    assert(members[1] == ("cloud_id"@, JsonValue::Text(game.cloud_id@)));
    assert(members[2] == ("name"@, JsonValue::Text(game.name@)));
    assert(members[3] == ("machines"@, JsonValue::Number(game.machines@.len() as int)));
    assert(members[4] == ("versions"@, JsonValue::Number(game.versions as int)));
    assert(members[5] == ("latest"@, json::optional_text(chars::text_view(game.latest))));
    assert(members[6] == ("size"@, JsonValue::Number(game.size as int)));
    assert(members[7] == (
        "exe_paths"@,
        json::text_list(all_programs(game.machines@, game.machines@.len() as int)),
    ));
    assert(members[10] == ("rejected"@, JsonValue::Bool(was_rejected(games, game.cloud_id@))));
}

} // verus!
