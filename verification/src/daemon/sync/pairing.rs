//! Telling which game here is which in the cloud, and what the user said of it.

use crate::config::model;
use crate::config::model::{copy_text, Config, Game, Settings};
use crate::daemon::game_write;
use crate::daemon::sync::identity;
use crate::daemon::sync::identity::remember_identity;
use crate::daemon::sync::selfcheck;
use crate::daemon::sync::selfcheck::ok_value;
use crate::game::listing;
use crate::game::listing::positions_by_id;
use crate::json;
use crate::json::{no_members, number, text, with, Json, JsonValue};
use crate::text::chars;
use crate::text::chars::{copy_texts, list_has, same_text};
use crate::text::glue::glue2;
use crate::text::order;
use vstd::prelude::*;

verus! {

// ---------------------------------------------------------------------------------------------
// What the user says

/// A list without the places that hold a text.
pub open spec fn without(list: Seq<Seq<char>>, gone: Seq<char>) -> Seq<Seq<char>>
    decreases list.len(),
{
    if list.len() == 0 {
        Seq::empty()
    } else {
        let before = without(list.drop_last(), gone);
        if list.last() == gone {
            before
        } else {
            before.push(list.last())
        }
    }
}

fn list_without(list: &Vec<String>, gone: &str) -> (out: Vec<String>)
    ensures
        chars::texts(out@) == without(chars::texts(list@), gone@),
{
    let ghost all = chars::texts(list@);
    let mut out: Vec<String> = Vec::new();
    let mut i: usize = 0;
    assert(chars::texts(out@) =~= without(all.take(0), gone@));
    while i < list.len()
        invariant
            i <= list@.len(),
            all == chars::texts(list@),
            chars::texts(out@) == without(all.take(i as int), gone@),
        decreases list@.len() - i,
    {
        assert(all.take(i + 1).drop_last() =~= all.take(i as int));
        assert(all.take(i + 1).last() == list@[i as int]@);
        if !same_text(list[i].as_str(), gone) {
            let ghost before = out@;
            out.push(list[i].clone());
            assert(chars::texts(out@) =~= chars::texts(before).push(list@[i as int]@));
        }
        i += 1;
    }
    assert(all.take(i as int) =~= all);
    out
}

/// A game that the user bound to an identity: what the user had said against it is forgotten.
pub open spec fn bound(game: Game, key: Seq<char>, cloud_id: Seq<char>) -> Game {
    Game {
        cloud_rejected: without(game.cloud_rejected, cloud_id),
        ..identity::identified(game, cloud_id, key)
    }
}

/// A game that the user said is not the one in the cloud: it is not bound to it again by itself.
pub open spec fn parted(game: Game, cloud_id: Seq<char>) -> Game {
    let rejecting = Game {
        cloud_rejected: if game.cloud_rejected.contains(cloud_id) {
            game.cloud_rejected
        } else {
            game.cloud_rejected.push(cloud_id)
        },
        ..game
    };
    if game.cloud_id == Some(cloud_id) {
        selfcheck::without_identity(rejecting)
    } else {
        rejecting
    }
}

pub fn pair(config: &mut Config, id: &str, key: &str, cloud_id: &str) -> (out: Result<Json, String>)
    ensures
        old(config).wf() ==> final(config).wf(),
        match out {
            Ok(reply) => model::has_game(old(config)@.games, id@) && reply@ == selfcheck::ok_json()
                && final(config)@ == (Settings {
                games: model::with_game(
                    old(config)@.games,
                    id@,
                    bound(model::game_at(old(config)@.games, id@), key@, cloud_id@),
                ),
                ..old(config)@
            }),
            Err(message) => !model::has_game(old(config)@.games, id@) && message@
                == game_write::unknown_game(id@) && final(config)@ == old(config)@,
        },
{
    let at = match config.find(id) {
        Some(at) => at,
        None => {
            return Err(glue2("配置中找不到游戏: ", id));
        },
    };
    let ghost games = config@.games;
    assert(games[at as int] == (config.games@[at as int].0@, config.games@[at as int].1@));
    let mut game = config.games[at].1.copy();
    game.cloud_id = Some(cloud_id.to_owned());
    game.cloud_dir = Some(key.to_owned());
    game.cloud_rejected = list_without(&config.games[at].1.cloud_rejected, cloud_id);
    config.put_game(at, game);
    Ok(ok_value())
}

pub fn reject(config: &mut Config, id: &str, cloud_id: &str) -> (out: Result<Json, String>)
    ensures
        old(config).wf() ==> final(config).wf(),
        match out {
            Ok(reply) => model::has_game(old(config)@.games, id@) && reply@ == selfcheck::ok_json()
                && final(config)@ == (Settings {
                games: model::with_game(
                    old(config)@.games,
                    id@,
                    parted(model::game_at(old(config)@.games, id@), cloud_id@),
                ),
                ..old(config)@
            }),
            Err(message) => !model::has_game(old(config)@.games, id@) && message@
                == game_write::unknown_game(id@) && final(config)@ == old(config)@,
        },
{
    let at = match config.find(id) {
        Some(at) => at,
        None => {
            return Err(glue2("配置中找不到游戏: ", id));
        },
    };
    let ghost games = config@.games;
    assert(games[at as int] == (config.games@[at as int].0@, config.games@[at as int].1@));
    let mut game = config.games[at].1.copy();
    let ghost start = game@;
    if !list_has(&game.cloud_rejected, cloud_id) {
        game.cloud_rejected.push(cloud_id.to_owned());
        assert(game@.cloud_rejected =~= start.cloud_rejected.push(cloud_id@));
    }
    let own = match &game.cloud_id {
        Some(own) => same_text(own.as_str(), cloud_id),
        None => false,
    };
    if own {
        game.cloud_id = None;
        game.cloud_dir = None;
    }
    assert(game@ == parted(start, cloud_id@));
    config.put_game(at, game);
    Ok(ok_value())
}

// ---------------------------------------------------------------------------------------------
// What a scan found

/// A game here and the identity that it was found to be.
pub struct Binding {
    pub id: String,
    pub cloud_key: String,
    pub cloud_id: String,
}

/// The games after the first n pairs were taken down, and why it stopped. What was taken down
/// before stays.
pub open spec fn bind_run(
    games: Seq<(Seq<char>, Game)>,
    bindings: Seq<Binding>,
    n: int,
) -> (Seq<(Seq<char>, Game)>, Option<Seq<char>>)
    decreases n,
{
    if n <= 0 {
        (games, None)
    } else {
        let (before, problem) = bind_run(games, bindings, n - 1);
        let next = bindings[n - 1];
        if problem is Some {
            (before, problem)
        } else if model::has_game(before, next.id@) {
            (
                model::with_game(
                    before,
                    next.id@,
                    identity::identified(
                        model::game_at(before, next.id@),
                        next.cloud_id@,
                        next.cloud_key@,
                    ),
                ),
                None,
            )
        } else {
            (before, Some(game_write::unknown_game(next.id@)))
        }
    }
}

proof fn lemma_stopped(games: Seq<(Seq<char>, Game)>, bindings: Seq<Binding>, n: int, later: int)
    requires
        n <= later,
        bind_run(games, bindings, n).1 is Some,
    ensures
        bind_run(games, bindings, later) == bind_run(games, bindings, n),
    decreases later - n,
{
    if n < later {
        lemma_stopped(games, bindings, n, later - 1);
    }
}

/// Takes down the pairs that a scan was sure of.
pub fn bind_found(config: &mut Config, bindings: &Vec<Binding>) -> (out: Result<usize, String>)
    ensures
        old(config).wf() ==> final(config).wf(),
        ({
            let (games, problem) = bind_run(
                old(config)@.games,
                bindings@,
                bindings@.len() as int,
            );
            final(config)@ == (Settings { games, ..old(config)@ }) && match out {
                Ok(count) => problem is None && count == bindings@.len(),
                Err(message) => problem == Some(message@),
            }
        }),
{
    let ghost start = config@;
    let mut i: usize = 0;
    while i < bindings.len()
        invariant
            i <= bindings@.len(),
            start == old(config)@,
            bind_run(start.games, bindings@, i as int) == (config@.games, None::<Seq<char>>),
            config@ == (Settings { games: config@.games, ..start }),
            old(config).wf() ==> config.wf(),
        decreases bindings@.len() - i,
    {
        let next = &bindings[i];
        match remember_identity(
            config,
            next.id.as_str(),
            next.cloud_id.as_str(),
            next.cloud_key.as_str(),
        ) {
            Ok(_) => {},
            Err(message) => {
                proof {
                    lemma_stopped(start.games, bindings@, i + 1, bindings@.len() as int);
                }
                return Err(message);
            },
        }
        i += 1;
    }
    Ok(bindings.len())
}

// ---------------------------------------------------------------------------------------------
// The games here

/// What counts of a game here.
pub struct LocalGame {
    pub id: String,
    pub name: String,
    pub cloud_id: Option<String>,
    pub fingerprint: Option<String>,
    pub locations: Vec<String>,
    pub rejected: Vec<String>,
}

/// What a game here says.
pub struct Local {
    pub id: Seq<char>,
    pub name: Seq<char>,
    pub cloud_id: Option<Seq<char>>,
    pub fingerprint: Option<Seq<char>>,
    pub locations: Seq<Seq<char>>,
    pub rejected: Seq<Seq<char>>,
}

impl View for LocalGame {
    type V = Local;

    open spec fn view(&self) -> Local {
        Local {
            id: self.id@,
            name: self.name@,
            cloud_id: chars::text_view(self.cloud_id),
            fingerprint: chars::text_view(self.fingerprint),
            locations: chars::texts(self.locations@),
            rejected: chars::texts(self.rejected@),
        }
    }
}

pub open spec fn locals_view(list: Seq<LocalGame>) -> Seq<Local> {
    list.map_values(|game: LocalGame| game@)
}

pub open spec fn local_of(id: Seq<char>, game: Game, locations: Seq<Seq<char>>) -> Local {
    Local {
        id,
        name: game.name,
        cloud_id: game.cloud_id,
        fingerprint: game.exe_fingerprint,
        locations,
        rejected: game.cloud_rejected,
    }
}

/// The games here in the order of their ids. `locations` holds, for each game of the library,
/// the keys of its save locations.
pub open spec fn locals(games: Seq<(Seq<char>, Game)>, locations: Seq<Vec<String>>) -> Seq<Local> {
    listing::id_order(games).map_values(
        |i: int| local_of(games[i].0, games[i].1, chars::texts(locations[i]@)),
    )
}

pub fn local_games(config: &Config, locations: &Vec<Vec<String>>) -> (out: Vec<LocalGame>)
    requires
        locations@.len() == config.games@.len(),
    ensures
        locals_view(out@) == locals(config@.games, locations@),
{
    let ghost games = config@.games;
    let positions = positions_by_id(config);
    let mut out: Vec<LocalGame> = Vec::new();
    let mut k: usize = 0;
    while k < positions.len()
        invariant
            k <= positions@.len(),
            games == config@.games,
            locations@.len() == games.len(),
            forall|j: int| 0 <= j < positions@.len() ==> #[trigger] positions@[j] < games.len(),
            out@.len() == k,
            forall|j: int|
                0 <= j < k ==> (#[trigger] out@[j])@ == local_of(
                    games[positions@[j] as int].0,
                    games[positions@[j] as int].1,
                    chars::texts(locations@[positions@[j] as int]@),
                ),
        decreases positions@.len() - k,
    {
        let at = positions[k];
        assert(games[at as int] == (config.games@[at as int].0@, config.games@[at as int].1@));
        let game = &config.games[at].1;
        out.push(
            LocalGame {
                id: config.games[at].0.clone(),
                name: game.name.clone(),
                cloud_id: copy_text(&game.cloud_id),
                fingerprint: copy_text(&game.exe_fingerprint),
                locations: copy_texts(&locations[at]),
                rejected: copy_texts(&game.cloud_rejected),
            },
        );
        k += 1;
    }
    proof {
        let order = listing::id_order(games);
        assert forall|j: int| 0 <= j < order.len() implies #[trigger] order[j] == positions@[j] by {
            assert(order::positions_view(positions@)[j] == positions@[j]);
        }
        assert(locals_view(out@) =~= locals(games, locations@));
    }
    out
}

// ---------------------------------------------------------------------------------------------
// The table of pairs

/// A game here that an identity goes with, and why.
pub struct Partner {
    pub id: String,
    pub name: String,
    pub evidence: String,
}

/// A row of the table: an identity in the cloud, and what it goes with.
pub struct PairRow {
    pub cloud_key: String,
    pub cloud_id: String,
    pub cloud_name: String,
    pub machines: u64,
    pub state: u64,
    pub local: Option<Partner>,
    /// The ids of the games here that may be meant.
    pub candidates: Vec<String>,
}

/// The name of a game here.
pub open spec fn name_of(locals: Seq<Local>, id: Seq<char>, from: int) -> Seq<char>
    decreases locals.len() - from,
{
    if from < 0 || from >= locals.len() {
        Seq::empty()
    } else if locals[from].id == id {
        locals[from].name
    } else {
        name_of(locals, id, from + 1)
    }
}

pub open spec fn choice_json(locals: Seq<Local>, id: Seq<char>) -> JsonValue {
    JsonValue::Object(
        seq![
            ("local_id"@, JsonValue::Text(id)),
            ("local_name"@, JsonValue::Text(name_of(locals, id, 0))),
        ],
    )
}

pub open spec fn partner_texts(partner: Option<Partner>) -> (Seq<char>, Seq<char>, Seq<char>) {
    match partner {
        Some(partner) => (partner.id@, partner.name@, partner.evidence@),
        None => (Seq::empty(), Seq::empty(), Seq::empty()),
    }
}

pub open spec fn pair_row_members(row: PairRow, locals: Seq<Local>) -> Seq<(Seq<char>, JsonValue)> {
    let (id, name, evidence) = partner_texts(row.local);
    seq![
        ("cloud_key"@, JsonValue::Text(row.cloud_key@)),
        ("cloud_id"@, JsonValue::Text(row.cloud_id@)),
        ("cloud_name"@, JsonValue::Text(row.cloud_name@)),
        ("machines"@, JsonValue::Number(row.machines as int)),
        ("state"@, JsonValue::Number(row.state as int)),
        ("local_id"@, JsonValue::Text(id)),
        ("local_name"@, JsonValue::Text(name)),
        ("evidence"@, JsonValue::Text(evidence)),
        (
            "choices"@,
            JsonValue::List(
                chars::texts(row.candidates@).map_values(|id: Seq<char>| choice_json(locals, id)),
            ),
        ),
    ]
}

fn find_name(locals: &Vec<LocalGame>, id: &str) -> (name: String)
    ensures
        name@ == name_of(locals_view(locals@), id@, 0),
{
    let ghost all = locals_view(locals@);
    let mut i: usize = 0;
    while i < locals.len()
        invariant
            i <= locals@.len(),
            all == locals_view(locals@),
            name_of(all, id@, 0) == name_of(all, id@, i as int),
        decreases locals@.len() - i,
    {
        assert(all[i as int] == locals@[i as int]@);
        if same_text(locals[i].id.as_str(), id) {
            return locals[i].name.clone();
        }
        i += 1;
    }
    String::new()
}

fn choices(candidates: &Vec<String>, locals: &Vec<LocalGame>) -> (out: Json)
    ensures
        out@ == JsonValue::List(
            chars::texts(candidates@).map_values(
                |id: Seq<char>| choice_json(locals_view(locals@), id),
            ),
        ),
{
    let ghost all = locals_view(locals@);
    let mut items: Vec<Json> = Vec::new();
    let mut i: usize = 0;
    while i < candidates.len()
        invariant
            i <= candidates@.len(),
            all == locals_view(locals@),
            items@.len() == i,
            forall|k: int|
                0 <= k < i ==> (#[trigger] items@[k])@ == choice_json(all, candidates@[k]@),
        decreases candidates@.len() - i,
    {
        let id = candidates[i].as_str();
        let one = with(no_members(), "local_id", text(id));
        let one = with(one, "local_name", text(find_name(locals, id).as_str()));
        assert(json::members_view(one@) =~= seq![
            ("local_id"@, JsonValue::Text(id@)),
            ("local_name"@, JsonValue::Text(name_of(all, id@, 0))),
        ]);
        items.push(Json::Object(one));
        i += 1;
    }
    proof {
        json::items_view_items(items@);
        assert(json::items_view(items@) =~= chars::texts(candidates@).map_values(
            |id: Seq<char>| choice_json(all, id),
        ));
    }
    Json::List(items)
}

pub fn pair_row(row: &PairRow, locals: &Vec<LocalGame>) -> (out: Json)
    ensures
        out@ == JsonValue::Object(pair_row_members(*row, locals_view(locals@))),
{
    let (id, name, evidence) = match &row.local {
        Some(partner) => (partner.id.clone(), partner.name.clone(), partner.evidence.clone()),
        None => (String::new(), String::new(), String::new()),
    };
    let out = with(no_members(), "cloud_key", text(row.cloud_key.as_str()));
    let out = with(out, "cloud_id", text(row.cloud_id.as_str()));
    let out = with(out, "cloud_name", text(row.cloud_name.as_str()));
    let out = with(out, "machines", number(row.machines));
    let out = with(out, "state", number(row.state));
    let out = with(out, "local_id", text(id.as_str()));
    let out = with(out, "local_name", text(name.as_str()));
    let out = with(out, "evidence", text(evidence.as_str()));
    let out = with(out, "choices", choices(&row.candidates, locals));
    assert(json::members_view(out@) =~= pair_row_members(*row, locals_view(locals@)));
    Json::Object(out)
}

/// The reply to a scan of the cloud: the table, and how many pairs were made by themselves.
pub fn pairing_reply(rows: &Vec<PairRow>, locals: &Vec<LocalGame>, bound: usize) -> (out: Json)
    ensures
        out@ == JsonValue::Object(
            seq![
                (
                    "rows"@,
                    JsonValue::List(
                        rows@.map_values(
                            |row: PairRow|
                                JsonValue::Object(pair_row_members(row, locals_view(locals@))),
                        ),
                    ),
                ),
                ("bound"@, JsonValue::Number(bound as int)),
            ],
        ),
{
    let ghost all = locals_view(locals@);
    let mut items: Vec<Json> = Vec::new();
    let mut i: usize = 0;
    while i < rows.len()
        invariant
            i <= rows@.len(),
            all == locals_view(locals@),
            items@.len() == i,
            forall|k: int|
                0 <= k < i ==> (#[trigger] items@[k])@ == JsonValue::Object(
                    pair_row_members(rows@[k], all),
                ),
        decreases rows@.len() - i,
    {
        items.push(pair_row(&rows[i], locals));
        i += 1;
    }
    let ghost wanted = rows@.map_values(
        |row: PairRow| JsonValue::Object(pair_row_members(row, all)),
    );
    proof {
        json::items_view_items(items@);
        assert(json::items_view(items@) =~= wanted);
    }
    let out = with(no_members(), "rows", Json::List(items));
    let out = with(out, "bound", number(bound as u64));
    assert(json::members_view(out@) =~= seq![
        ("rows"@, JsonValue::List(wanted)),
        ("bound"@, JsonValue::Number(bound as int)),
    ]);
    Json::Object(out)
}

// ---------------------------------------------------------------------------------------------
// What holds of pairs

proof fn lemma_without(list: Seq<Seq<char>>, gone: Seq<char>)
    ensures
        !without(list, gone).contains(gone),
        forall|text: Seq<char>|
            text != gone ==> #[trigger] without(list, gone).contains(text) == list.contains(text),
    decreases list.len(),
{
    if list.len() > 0 {
        let front = list.drop_last();
        let before = without(front, gone);
        let after = without(list, gone);
        lemma_without(front, gone);
        assert forall|text: Seq<char>| text != gone implies #[trigger] after.contains(text)
            == list.contains(text) by {
            if after.contains(text) {
                let i = choose|i: int| 0 <= i < after.len() && after[i] == text;
                if i < before.len() {
                    assert(before[i] == text);
                    assert(before.contains(text));
                    let k = choose|k: int| 0 <= k < front.len() && front[k] == text;
                    assert(list[k] == text);
                } else {
                    assert(list[list.len() - 1] == text);
                }
            }
            if list.contains(text) {
                let k = choose|k: int| 0 <= k < list.len() && list[k] == text;
                if k < front.len() {
                    assert(front[k] == text);
                    assert(before.contains(text));
                    let i = choose|i: int| 0 <= i < before.len() && before[i] == text;
                    assert(after[i] == text);
                } else {
                    assert(after[after.len() - 1] == text);
                }
            }
        }
        if after.contains(gone) {
            let i = choose|i: int| 0 <= i < after.len() && after[i] == gone;
            if i < before.len() {
                assert(before[i] == gone);
                assert(before.contains(gone));
            }
        }
    }
}

/// A game that was bound is not rejected any more, and what the user said of others stays.
pub proof fn binding_takes_a_rejection_back(
    game: Game,
    key: Seq<char>,
    cloud_id: Seq<char>,
    other: Seq<char>,
)
    requires
        other != cloud_id,
    ensures
        bound(game, key, cloud_id).cloud_id == Some(cloud_id),
        !bound(game, key, cloud_id).cloud_rejected.contains(cloud_id),
        bound(game, key, cloud_id).cloud_rejected.contains(other) == game.cloud_rejected.contains(
            other,
        ),
{
    lemma_without(game.cloud_rejected, cloud_id);
}

/// A game that was parted from an identity is not bound to it, and that is remembered.
pub proof fn a_rejection_is_remembered(game: Game, cloud_id: Seq<char>)
    ensures
        parted(game, cloud_id).cloud_id != Some(cloud_id),
        parted(game, cloud_id).cloud_rejected.contains(cloud_id),
        parted(parted(game, cloud_id), cloud_id) == parted(game, cloud_id),
{
    let list = game.cloud_rejected;
    if !list.contains(cloud_id) {
        assert(list.push(cloud_id)[list.len() as int] == cloud_id);
    }
}

/// Binding a game takes down the identity and its place, and changes nothing else but what was
/// rejected.
pub proof fn binding_takes_down_the_identity(game: Game, key: Seq<char>, cloud_id: Seq<char>)
    ensures
        ({
            let after = bound(game, key, cloud_id);
            &&& after.cloud_id == Some(cloud_id)
            &&& after.cloud_dir == Some(key)
            &&& after == (Game {
                cloud_id: after.cloud_id,
                cloud_dir: after.cloud_dir,
                cloud_rejected: after.cloud_rejected,
                ..game
            })
        }),
{
}

/// Parting a game from an identity takes the identity and its place away where the game has that
/// one, and leaves another one alone; nothing else changes but what is rejected.
pub proof fn parting_takes_away_that_identity_only(game: Game, cloud_id: Seq<char>)
    ensures
        ({
            let after = parted(game, cloud_id);
            &&& game.cloud_id == Some(cloud_id) ==> after.cloud_id is None && after.cloud_dir is None
            &&& game.cloud_id != Some(cloud_id) ==> after.cloud_id == game.cloud_id
                && after.cloud_dir == game.cloud_dir
            &&& forall|other: Seq<char>|
                other != cloud_id ==> #[trigger] after.cloud_rejected.contains(other)
                    == game.cloud_rejected.contains(other)
            &&& after == (Game {
                cloud_id: after.cloud_id,
                cloud_dir: after.cloud_dir,
                cloud_rejected: after.cloud_rejected,
                ..game
            })
        }),
{
    let after = parted(game, cloud_id);
    let list = game.cloud_rejected;
    if !list.contains(cloud_id) {
        assert forall|other: Seq<char>| other != cloud_id implies #[trigger]
            after.cloud_rejected.contains(other) == list.contains(other) by {
            let all = list.push(cloud_id);
            if all.contains(other) {
                let k = all.index_of(other);
                assert(list[k] == other);
            }
            if list.contains(other) {
                let k = list.index_of(other);
                assert(all[k] == other);
            }
        }
    }
}

/// What a scan was sure of is taken down pair by pair, as long as the games are there: the game
/// has the identity then, and every other game stays as it is.
pub proof fn a_sure_pair_is_taken_down(
    games: Seq<(Seq<char>, Game)>,
    bindings: Seq<Binding>,
    n: int,
    k: int,
)
    requires
        model::ids_are_distinct(games),
        0 < n <= bindings.len(),
        0 <= k < games.len(),
        bind_run(games, bindings, n).1 is None,
    ensures
        ({
            let before = bind_run(games, bindings, n - 1).0;
            let after = bind_run(games, bindings, n).0;
            let pair = bindings[n - 1];
            &&& bind_run(games, bindings, n - 1).1 is None
            &&& after.len() == games.len()
            &&& after[k].0 == games[k].0
            &&& games[k].0 != pair.id@ ==> after[k] == before[k]
            &&& games[k].0 == pair.id@ ==> after[k].1.cloud_id == Some(pair.cloud_id@)
                && after[k].1.cloud_dir == Some(pair.cloud_key@) && after[k].1 == (Game {
                cloud_id: after[k].1.cloud_id,
                cloud_dir: after[k].1.cloud_dir,
                ..before[k].1
            })
        }),
{
    lemma_bind_run(games, bindings, n - 1);
    let before = bind_run(games, bindings, n - 1).0;
    let pair = bindings[n - 1];
    assert(before[k].0 == games[k].0);
    model::a_game_is_put_in_its_place(
        before,
        pair.id@,
        identity::identified(model::game_at(before, pair.id@), pair.cloud_id@, pair.cloud_key@),
        k,
    );
}

proof fn lemma_bind_run(games: Seq<(Seq<char>, Game)>, bindings: Seq<Binding>, n: int)
    requires
        model::ids_are_distinct(games),
        0 <= n <= bindings.len(),
    ensures
        bind_run(games, bindings, n).0.len() == games.len(),
        model::ids_are_distinct(bind_run(games, bindings, n).0),
        forall|k: int|
            0 <= k < games.len() ==> (#[trigger] bind_run(games, bindings, n).0[k]).0 == games[k].0,
    decreases n,
{
    if n > 0 {
        lemma_bind_run(games, bindings, n - 1);
        let (before, problem) = bind_run(games, bindings, n - 1);
        let pair = bindings[n - 1];
        if problem is None && model::has_game(before, pair.id@) {
            let own = identity::identified(
                model::game_at(before, pair.id@),
                pair.cloud_id@,
                pair.cloud_key@,
            );
            assert forall|k: int| 0 <= k < games.len() implies (#[trigger] bind_run(
                games,
                bindings,
                n,
            ).0[k]).0 == games[k].0 by {
                model::a_game_is_put_in_its_place(before, pair.id@, own, k);
                assert(before[k].0 == games[k].0);
            }
            if games.len() > 0 {
                model::a_game_is_put_in_its_place(before, pair.id@, own, 0);
            }
        }
    }
}

/// The first pair whose game is not here stops it, and is named; what was taken down stays.
pub proof fn an_unknown_game_stops_it(games: Seq<(Seq<char>, Game)>, bindings: Seq<Binding>, n: int)
    requires
        0 < n <= bindings.len(),
        bind_run(games, bindings, n - 1).1 is None,
        !model::has_game(bind_run(games, bindings, n - 1).0, bindings[n - 1].id@),
    ensures
        bind_run(games, bindings, n) == (
            bind_run(games, bindings, n - 1).0,
            Some("配置中找不到游戏: "@ + bindings[n - 1].id@),
        ),
{
}

/// What is compared with the cloud is what the library says of a game.
pub proof fn a_game_here_is_what_the_library_says(
    games: Seq<(Seq<char>, Game)>,
    locations: Seq<Vec<String>>,
    i: int,
)
    requires
        0 <= i < games.len() == locations.len(),
    ensures
        locals(games, locations).len() == games.len(),
        exists|k: int|
            {
                let own = #[trigger] locals(games, locations)[k];
                &&& 0 <= k < locals(games, locations).len()
                &&& own.id == games[i].0
                &&& own.name == games[i].1.name
                &&& own.cloud_id == games[i].1.cloud_id
                &&& own.fingerprint == games[i].1.exe_fingerprint
                &&& own.locations == chars::texts(locations[i]@)
                &&& own.rejected == games[i].1.cloud_rejected
            },
{
    listing::every_game_has_its_turn(games, i);
    let order = listing::id_order(games);
    let at = choose|at: int| 0 <= at < order.len() && #[trigger] order[at] == i;
    assert(locals(games, locations)[at] == local_of(
        games[i].0,
        games[i].1,
        chars::texts(locations[i]@),
    ));
}

/// What a client hears of an identity in the cloud and what it goes with.
pub proof fn a_pair_is_described(row: PairRow, locals: Seq<Local>, partner: Partner)
    requires
        row.local == Some(partner),
    ensures
        json::has_member(JsonValue::Object(pair_row_members(row, locals)), "cloud_key"@, JsonValue::Text(row.cloud_key@)),
        json::has_member(JsonValue::Object(pair_row_members(row, locals)), "cloud_id"@, JsonValue::Text(row.cloud_id@)),
        json::has_member(JsonValue::Object(pair_row_members(row, locals)), "cloud_name"@, JsonValue::Text(row.cloud_name@)),
        json::has_member(JsonValue::Object(pair_row_members(row, locals)), "machines"@, JsonValue::Number(row.machines as int)),
        json::has_member(JsonValue::Object(pair_row_members(row, locals)), "state"@, JsonValue::Number(row.state as int)),
        json::has_member(JsonValue::Object(pair_row_members(row, locals)), "local_id"@, JsonValue::Text(partner.id@)),
        json::has_member(JsonValue::Object(pair_row_members(row, locals)), "local_name"@, JsonValue::Text(partner.name@)),
        json::has_member(JsonValue::Object(pair_row_members(row, locals)), "evidence"@, JsonValue::Text(partner.evidence@)),
        json::has_member(JsonValue::Object(pair_row_members(row, locals)), "choices"@, JsonValue::List(chars::texts(row.candidates@).map_values(|id: Seq<char>| choice_json(locals, id)))),
{
    let members = pair_row_members(row, locals);
    assert(members[0] == ("cloud_key"@, JsonValue::Text(row.cloud_key@)));
    assert(members[1] == ("cloud_id"@, JsonValue::Text(row.cloud_id@)));
    assert(members[2] == ("cloud_name"@, JsonValue::Text(row.cloud_name@)));
    assert(members[3] == ("machines"@, JsonValue::Number(row.machines as int)));
    assert(members[4] == ("state"@, JsonValue::Number(row.state as int)));
    assert(members[5] == ("local_id"@, JsonValue::Text(partner.id@)));
    assert(members[6] == ("local_name"@, JsonValue::Text(partner.name@)));
    assert(members[7] == ("evidence"@, JsonValue::Text(partner.evidence@)));
    assert(members[8] == ("choices"@, JsonValue::List(chars::texts(row.candidates@).map_values(|id: Seq<char>| choice_json(locals, id)))));
}

/// A game that may be meant is offered under its id and its name.
pub proof fn a_choice_has_its_name(locals: Seq<Local>, i: int)
    requires
        0 <= i < locals.len(),
        forall|k: int| 0 <= k < i ==> (#[trigger] locals[k]).id != locals[i].id,
    ensures
        json::has_member(
            choice_json(locals, locals[i].id),
            "local_id"@,
            JsonValue::Text(locals[i].id),
        ),
        json::has_member(
            choice_json(locals, locals[i].id),
            "local_name"@,
            JsonValue::Text(locals[i].name),
        ),
{
    lemma_name_of(locals, i, 0);
    let members = choice_json(locals, locals[i].id)->Object_0;
    assert(members[0] == ("local_id"@, JsonValue::Text(locals[i].id)));
    assert(members[1] == ("local_name"@, JsonValue::Text(locals[i].name)));
}

proof fn lemma_name_of(locals: Seq<Local>, i: int, from: int)
    requires
        0 <= from <= i < locals.len(),
        forall|k: int| 0 <= k < i ==> (#[trigger] locals[k]).id != locals[i].id,
    ensures
        name_of(locals, locals[i].id, from) == locals[i].name,
    decreases i - from,
{
    if from < i {
        assert(locals[from].id != locals[i].id);
        lemma_name_of(locals, i, from + 1);
    }
}

} // verus!
