//! Everything that the settings page shows of the sync, and nothing secret.

use crate::config::model;
use crate::config::model::{Config, Game, Settings, SyncEngine};
use crate::daemon::game_json;
use crate::daemon::game_json::{engine_name, positions_by_name, sync_value};
use crate::daemon::sync::actions::SyncRecord;
use crate::daemon::sync::rows;
use crate::daemon::sync::rows::IndexGame;
use crate::daemon::sync::settings;
use crate::daemon::sync::settings::{readiness_problem, MAX_KEEP_VERSIONS};
use crate::json;
use crate::json::{no_members, number, text, text_or_null, texts_json, with, Json, JsonValue};
use crate::text::chars;
use crate::text::chars::same_text;
use crate::text::keyed::Keyed;
use crate::text::order;
use vstd::prelude::*;

verus! {

/// Where the secrets are kept.
pub struct Keyring {
    pub backend: String,
    /// They are gone when the daemon stops.
    pub ephemeral: bool,
    /// Which store it is, and whether it has to be unlocked.
    pub store: Json,
    pub secrets_file: String,
    pub min_master_password: u64,
}

/// What the status is made of besides the settings.
pub struct StatusFacts {
    /// Where the programs were found.
    pub rclone: Option<String>,
    pub kopia: Option<String>,
    pub settings_problem: Option<String>,
    pub secrets_problem: Option<String>,
    pub misplaced: Option<String>,
    pub keyring: Keyring,
    /// Which secrets there are, by name.
    pub secrets: Vec<String>,
    pub remote: String,
    pub kopia_prefix: String,
    /// How long a launch waits for the newest saves.
    pub pull_timeout_seconds: u64,
    /// For each game of the library how many of its save locations there are, or why they cannot
    /// be told.
    pub locations: Vec<Result<u64, String>>,
    /// What this machine remembers of the cloud.
    pub index: Option<Vec<IndexGame>>,
    pub records: Keyed<SyncRecord>,
}

// ---------------------------------------------------------------------------------------------
// A game

/// The game of the cloud with an identity.
pub open spec fn known_as(index: Seq<IndexGame>, cloud_id: Seq<char>, from: int) -> Option<
    IndexGame,
>
    decreases index.len() - from,
{
    if from < 0 || from >= index.len() {
        None
    } else if index[from].cloud_id@ == cloud_id {
        Some(index[from])
    } else {
        known_as(index, cloud_id, from + 1)
    }
}

pub open spec fn known_game(index: Seq<IndexGame>, cloud_id: Option<Seq<char>>) -> Option<
    IndexGame,
> {
    match cloud_id {
        Some(cloud_id) => if cloud_id.len() == 0 {
            None
        } else {
            known_as(index, cloud_id, 0)
        },
        None => None,
    }
}

pub open spec fn or_empty(value: Option<Seq<char>>) -> Seq<char> {
    match value {
        Some(value) => value,
        None => Seq::empty(),
    }
}

pub open spec fn record_json(records: Map<Seq<char>, SyncRecord>, id: Seq<char>) -> JsonValue {
    if records.dom().contains(id) {
        JsonValue::Object(
            seq![
                ("at"@, JsonValue::Text(records[id].at@)),
                ("ok"@, JsonValue::Bool(records[id].ok)),
                ("action"@, JsonValue::Text(records[id].action@)),
                ("detail"@, JsonValue::Text(records[id].detail@)),
            ],
        )
    } else {
        JsonValue::Null
    }
}

pub open spec fn local_members(
    id: Seq<char>,
    game: Game,
    locations: Result<u64, String>,
    records: Map<Seq<char>, SyncRecord>,
) -> Seq<(Seq<char>, JsonValue)> {
    seq![
        ("id"@, JsonValue::Text(id)),
        ("name"@, JsonValue::Text(game.name)),
        (
            "locations"@,
            JsonValue::Number(
                match locations {
                    Ok(count) => count as int,
                    Err(_) => 0,
                },
            ),
        ),
        (
            "location_problem"@,
            match locations {
                Ok(_) => JsonValue::Null,
                Err(problem) => JsonValue::Text(problem@),
            },
        ),
        ("last"@, record_json(records, id)),
        ("cloud_id"@, JsonValue::Text(or_empty(game.cloud_id))),
        ("cloud_key"@, JsonValue::Text(or_empty(game.cloud_dir))),
    ]
}

pub open spec fn cloud_members(known: Option<IndexGame>) -> Seq<(Seq<char>, JsonValue)> {
    match known {
        Some(game) => seq![
            ("cloud_name"@, JsonValue::Text(game.name@)),
            ("cloud_versions"@, JsonValue::Number(game.versions as int)),
            ("cloud_latest"@, JsonValue::Text(or_empty(chars::text_view(game.latest)))),
            ("cloud_size"@, JsonValue::Number(game.size as int)),
        ],
        None => seq![
            ("cloud_name"@, JsonValue::Text(Seq::empty())),
            ("cloud_versions"@, JsonValue::Number(0)),
            ("cloud_latest"@, JsonValue::Text(Seq::empty())),
            ("cloud_size"@, JsonValue::Number(0)),
        ],
    }
}

/// What is shown of a game: how many save locations there are now, what was done last, and what
/// it is in the cloud.
pub open spec fn game_status(id: Seq<char>, game: Game, facts: StatusFacts, at: int) -> JsonValue {
    JsonValue::Object(
        local_members(id, game, facts.locations@[at], facts.records@) + cloud_members(
            known_game(rows::index_list(facts.index), game.cloud_id),
        ),
    )
}

fn find_known<'a>(index: &'a Option<Vec<IndexGame>>, cloud_id: &Option<String>) -> (known: Option<
    &'a IndexGame,
>)
    ensures
        match known {
            Some(game) => known_game(rows::index_list(*index), chars::text_view(*cloud_id)) == Some(
                *game,
            ),
            None => known_game(rows::index_list(*index), chars::text_view(*cloud_id)) is None,
        },
{
    let wanted = match cloud_id {
        Some(wanted) => wanted.as_str(),
        None => {
            return None;
        },
    };
    let list = match index {
        Some(list) => list,
        None => {
            return None;
        },
    };
    if wanted.is_empty() {
        return None;
    }
    let mut i: usize = 0;
    while i < list.len()
        invariant
            i <= list@.len(),
            known_game(rows::index_list(*index), chars::text_view(*cloud_id)) == known_as(
                list@,
                wanted@,
                i as int,
            ),
        decreases list@.len() - i,
    {
        if same_text(list[i].cloud_id.as_str(), wanted) {
            return Some(&list[i]);
        }
        i += 1;
    }
    None
}

fn text_or_empty(value: &Option<String>) -> (out: Json)
    ensures
        out@ == JsonValue::Text(or_empty(chars::text_view(*value))),
{
    match value {
        Some(value) => text(value.as_str()),
        None => {
            proof {
                reveal_strlit("");
                assert(""@ =~= Seq::<char>::empty());
            }
            text("")
        },
    }
}

fn record_value(records: &Keyed<SyncRecord>, id: &str) -> (out: Json)
    requires
        records.wf(),
    ensures
        out@ == record_json(records@, id@),
{
    match records.get(id) {
        Some(record) => {
            let out = with(no_members(), "at", text(record.at.as_str()));
            let out = with(out, "ok", Json::Bool(record.ok));
            let out = with(out, "action", text(record.action.as_str()));
            let out = with(out, "detail", text(record.detail.as_str()));
            assert(json::members_view(out@) =~= record_json(records@, id@)->Object_0);
            Json::Object(out)
        },
        None => Json::Null,
    }
}

fn local_part(config: &Config, at: usize, facts: &StatusFacts) -> (out: Vec<(String, Json)>)
    requires
        at < config.games@.len(),
        at < facts.locations@.len(),
        facts.records.wf(),
    ensures
        json::members_view(out@) == local_members(
            config@.games[at as int].0,
            config@.games[at as int].1,
            facts.locations@[at as int],
            facts.records@,
        ),
{
    assert(config@.games[at as int] == (config.games@[at as int].0@, config.games@[at as int].1@));
    let id = config.games[at].0.as_str();
    let game = &config.games[at].1;
    let (count, problem): (u64, Json) = match &facts.locations[at] {
        Ok(count) => (*count, Json::Null),
        Err(problem) => (0, text(problem.as_str())),
    };
    let out = with(no_members(), "id", text(id));
    let out = with(out, "name", text(game.name.as_str()));
    let out = with(out, "locations", number(count));
    let out = with(out, "location_problem", problem);
    let out = with(out, "last", record_value(&facts.records, id));
    let out = with(out, "cloud_id", text_or_empty(&game.cloud_id));
    let out = with(out, "cloud_key", text_or_empty(&game.cloud_dir));
    assert(json::members_view(out@) =~= local_members(
        id@,
        game@,
        facts.locations@[at as int],
        facts.records@,
    ));
    out
}

fn with_cloud(out: Vec<(String, Json)>, known: Option<&IndexGame>) -> (full: Vec<(String, Json)>)
    ensures
        json::members_view(full@) == json::members_view(out@) + cloud_members(
            match known {
                Some(game) => Some(*game),
                None => None,
            },
        ),
{
    let ghost start = json::members_view(out@);
    match known {
        Some(game) => {
            let out = with(out, "cloud_name", text(game.name.as_str()));
            let out = with(out, "cloud_versions", number(game.versions));
            let out = with(out, "cloud_latest", text_or_empty(&game.latest));
            let out = with(out, "cloud_size", number(game.size));
            assert(json::members_view(out@) =~= start + cloud_members(Some(*game)));
            out
        },
        None => {
            let out = with(out, "cloud_name", text_or_empty(&None));
            let out = with(out, "cloud_versions", number(0));
            let out = with(out, "cloud_latest", text_or_empty(&None));
            let out = with(out, "cloud_size", number(0));
            assert(json::members_view(out@) =~= start + cloud_members(None));
            out
        },
    }
}

fn game_value(config: &Config, at: usize, facts: &StatusFacts) -> (out: Json)
    requires
        at < config.games@.len(),
        at < facts.locations@.len(),
        facts.records.wf(),
    ensures
        out@ == game_status(
            config@.games[at as int].0,
            config@.games[at as int].1,
            *facts,
            at as int,
        ),
{
    assert(config@.games[at as int] == (config.games@[at as int].0@, config.games@[at as int].1@));
    let out = local_part(config, at, facts);
    let known = find_known(&facts.index, &config.games[at].1.cloud_id);
    Json::Object(with_cloud(out, known))
}

/// The games in the order of their names.
pub open spec fn games_json(games: Seq<(Seq<char>, Game)>, facts: StatusFacts) -> JsonValue {
    JsonValue::List(
        game_json::name_order(games).map_values(
            |i: int| game_status(games[i].0, games[i].1, facts, i),
        ),
    )
}

fn games_value(config: &Config, facts: &StatusFacts) -> (out: Json)
    requires
        facts.locations@.len() == config.games@.len(),
        facts.records.wf(),
    ensures
        out@ == games_json(config@.games, *facts),
{
    let ghost games = config@.games;
    let positions = positions_by_name(config);
    let mut items: Vec<Json> = Vec::new();
    let mut k: usize = 0;
    while k < positions.len()
        invariant
            k <= positions@.len(),
            games == config@.games,
            facts.locations@.len() == config.games@.len(),
            facts.records.wf(),
            forall|j: int|
                0 <= j < positions@.len() ==> #[trigger] positions@[j] < config.games@.len(),
            items@.len() == k,
            forall|j: int|
                0 <= j < k ==> (#[trigger] items@[j])@ == game_status(
                    games[positions@[j] as int].0,
                    games[positions@[j] as int].1,
                    *facts,
                    positions@[j] as int,
                ),
        decreases positions@.len() - k,
    {
        items.push(game_value(config, positions[k], facts));
        k += 1;
    }
    proof {
        let order = game_json::name_order(games);
        assert forall|j: int| 0 <= j < order.len() implies #[trigger] order[j] == positions@[j] by {
            assert(order::positions_view(positions@)[j] == positions@[j]);
        }
        json::items_view_items(items@);
        assert(json::items_view(items@) =~= order.map_values(
            |i: int| game_status(games[i].0, games[i].1, *facts, i),
        ));
    }
    Json::List(items)
}

// ---------------------------------------------------------------------------------------------
// The whole

/// The program that the chosen engine needs.
pub open spec fn engine_binary(engine: SyncEngine, facts: StatusFacts) -> Option<Seq<char>> {
    match engine {
        SyncEngine::Rclone => chars::text_view(facts.rclone),
        SyncEngine::Kopia => chars::text_view(facts.kopia),
    }
}

/// Why the sync cannot work. While it is off, an unfinished setup is no problem.
pub open spec fn problem_of(settings: model::SyncSettings, facts: StatusFacts) -> Option<
    Seq<char>,
> {
    if settings.enabled {
        settings::not_ready(
            settings.engine,
            chars::text_view(facts.settings_problem),
            chars::text_view(facts.secrets_problem),
            chars::text_view(facts.misplaced),
            engine_binary(settings.engine, facts) is Some,
        )
    } else {
        None
    }
}

/// The sync works: it is on, nothing stands in the way, and the program is there.
pub open spec fn is_ready(settings: model::SyncSettings, facts: StatusFacts) -> bool {
    settings.enabled && problem_of(settings, facts) is None && engine_binary(
        settings.engine,
        facts,
    ) is Some
}

pub open spec fn keyring_json(keyring: Keyring) -> JsonValue {
    JsonValue::Object(
        seq![
            ("backend"@, JsonValue::Text(keyring.backend@)),
            ("ephemeral"@, JsonValue::Bool(keyring.ephemeral)),
            ("store"@, keyring.store@),
            ("secrets_file"@, JsonValue::Text(keyring.secrets_file@)),
            ("min_master_password"@, JsonValue::Number(keyring.min_master_password as int)),
        ],
    )
}

pub open spec fn setup_members(settings: model::SyncSettings, facts: StatusFacts) -> Seq<
    (Seq<char>, JsonValue),
> {
    seq![
        ("settings"@, JsonValue::Object(game_json::sync_members(settings))),
        ("enabled"@, JsonValue::Bool(settings.enabled)),
        ("engine"@, JsonValue::Text(game_json::engine_word(settings.engine))),
        ("engine_label"@, JsonValue::Text(model::engine_label(settings.engine))),
        ("rclone"@, json::optional_text(chars::text_view(facts.rclone))),
        ("kopia"@, json::optional_text(chars::text_view(facts.kopia))),
        ("keyring"@, keyring_json(facts.keyring)),
        ("secrets"@, json::text_list(chars::texts(facts.secrets@))),
    ]
}

pub open spec fn work_members(config: Settings, facts: StatusFacts) -> Seq<
    (Seq<char>, JsonValue),
> {
    seq![
        ("ready"@, JsonValue::Bool(is_ready(config.sync, facts))),
        ("problem"@, json::optional_text(problem_of(config.sync, facts))),
        ("remote"@, JsonValue::Text(facts.remote@)),
        ("kopia_prefix"@, JsonValue::Text(facts.kopia_prefix@)),
        ("pull_timeout_secs"@, JsonValue::Number(facts.pull_timeout_seconds as int)),
        ("keep_versions_max"@, JsonValue::Number(MAX_KEEP_VERSIONS as int)),
        ("games"@, games_json(config.games, facts)),
    ]
}

fn keyring_value(keyring: &Keyring) -> (out: Json)
    ensures
        out@ == keyring_json(*keyring),
{
    let out = with(no_members(), "backend", text(keyring.backend.as_str()));
    let out = with(out, "ephemeral", Json::Bool(keyring.ephemeral));
    let out = with(out, "store", keyring.store.copy());
    let out = with(out, "secrets_file", text(keyring.secrets_file.as_str()));
    let out = with(out, "min_master_password", number(keyring.min_master_password));
    assert(json::members_view(out@) =~= keyring_json(*keyring)->Object_0);
    Json::Object(out)
}

fn setup_part(config: &Config, facts: &StatusFacts) -> (out: Vec<(String, Json)>)
    ensures
        json::members_view(out@) == setup_members(config@.sync, *facts),
{
    let settings = &config.sync;
    let out = with(no_members(), "settings", sync_value(settings));
    let out = with(out, "enabled", Json::Bool(settings.enabled));
    let out = with(out, "engine", text(engine_name(settings.engine)));
    let out = with(out, "engine_label", text(settings.engine.label()));
    let out = with(out, "rclone", text_or_null(&facts.rclone));
    let out = with(out, "kopia", text_or_null(&facts.kopia));
    let out = with(out, "keyring", keyring_value(&facts.keyring));
    let out = with(out, "secrets", texts_json(&facts.secrets));
    assert(json::members_view(out@) =~= setup_members(config@.sync, *facts));
    out
}

/// Everything that the settings page shows.
pub fn sync_status(config: &Config, facts: &StatusFacts) -> (out: Json)
    requires
        facts.locations@.len() == config.games@.len(),
        facts.records.wf(),
    ensures
        out@ == JsonValue::Object(
            setup_members(config@.sync, *facts) + work_members(config@, *facts),
        ),
{
    let settings = &config.sync;
    let found = match settings.engine {
        SyncEngine::Rclone => facts.rclone.is_some(),
        SyncEngine::Kopia => facts.kopia.is_some(),
    };
    let problem = if settings.enabled {
        readiness_problem(
            settings.engine,
            &facts.settings_problem,
            &facts.secrets_problem,
            &facts.misplaced,
            found,
        )
    } else {
        None
    };
    let ready = settings.enabled && problem.is_none() && found;
    let out = setup_part(config, facts);
    let ghost start = json::members_view(out@);
    let out = with(out, "ready", Json::Bool(ready));
    let out = with(out, "problem", text_or_null(&problem));
    let out = with(out, "remote", text(facts.remote.as_str()));
    let out = with(out, "kopia_prefix", text(facts.kopia_prefix.as_str()));
    let out = with(out, "pull_timeout_secs", number(facts.pull_timeout_seconds));
    let out = with(out, "keep_versions_max", number(MAX_KEEP_VERSIONS as u64));
    let out = with(out, "games", games_value(config, facts));
    assert(json::members_view(out@) =~= start + work_members(config@, *facts));
    Json::Object(out)
}

/// A sync that is ready has no problem to report, and one that is off reports none either.
pub proof fn a_problem_means_not_ready(settings: model::SyncSettings, facts: StatusFacts)
    ensures
        problem_of(settings, facts) is Some ==> settings.enabled && !is_ready(settings, facts),
        settings.enabled ==> is_ready(settings, facts) == (problem_of(settings, facts) is None),
{
}

proof fn lemma_known(index: Seq<IndexGame>, cloud_id: Seq<char>, from: int)
    requires
        0 <= from,
    ensures
        match known_as(index, cloud_id, from) {
            Some(game) => exists|i: int|
                from <= i < index.len() && #[trigger] index[i] == game && game.cloud_id@ == cloud_id
                    && forall|k: int| from <= k < i ==> (#[trigger] index[k]).cloud_id@ != cloud_id,
            None => forall|i: int|
                from <= i < index.len() ==> (#[trigger] index[i]).cloud_id@ != cloud_id,
        },
    decreases index.len() - from,
{
    if from < index.len() {
        if index[from].cloud_id@ == cloud_id {
            assert(index[from] == index[from]);
        } else {
            lemma_known(index, cloud_id, from + 1);
        }
    }
}

/// What is shown of a game in the cloud is what the index says of the identity that the game has;
/// a game without one, or with one that the index does not know, has nothing there.
pub proof fn the_identity_finds_the_game(index: Seq<IndexGame>, i: int)
    requires
        0 <= i < index.len(),
        index[i].cloud_id@.len() > 0,
        forall|k: int| 0 <= k < i ==> (#[trigger] index[k]).cloud_id@ != index[i].cloud_id@,
    ensures
        known_game(index, Some(index[i].cloud_id@)) == Some(index[i]),
        known_game(index, None) is None,
        known_game(index, Some(Seq::empty())) is None,
        forall|other: Seq<char>|
            (forall|k: int| 0 <= k < index.len() ==> (#[trigger] index[k]).cloud_id@ != other)
                ==> (#[trigger] known_game(index, Some(other))) is None,
{
    lemma_known(index, index[i].cloud_id@, 0);
    assert forall|other: Seq<char>|
        (forall|k: int| 0 <= k < index.len() ==> (#[trigger] index[k]).cloud_id@ != other) implies (
    #[trigger] known_game(index, Some(other))) is None by {
        lemma_known(index, other, 0);
    }
}

/// What was remembered of a game is shown, and nothing of a game without a record.
pub proof fn a_record_is_shown(records: Map<Seq<char>, SyncRecord>, id: Seq<char>)
    requires
        records.contains_key(id),
    ensures
        json::has_member(record_json(records, id), "at"@, JsonValue::Text(records[id].at@)),
        json::has_member(record_json(records, id), "ok"@, JsonValue::Bool(records[id].ok)),
        json::has_member(record_json(records, id), "action"@, JsonValue::Text(records[id].action@)),
        json::has_member(record_json(records, id), "detail"@, JsonValue::Text(records[id].detail@)),
        record_json(records.remove(id), id) == JsonValue::Null,
{
    let members = record_json(records, id)->Object_0;
    assert(members[0] == ("at"@, JsonValue::Text(records[id].at@)));
    assert(members[1] == ("ok"@, JsonValue::Bool(records[id].ok)));
    assert(members[2] == ("action"@, JsonValue::Text(records[id].action@)));
    assert(members[3] == ("detail"@, JsonValue::Text(records[id].detail@)));
}

/// What is shown of a game on this machine: how many save locations it has, or what keeps them from
/// being told, what was done last, and what it is in the cloud.
pub proof fn a_game_is_shown(id: Seq<char>, game: Game, count: u64, problem: String, records: Map<Seq<char>, SyncRecord>)
    ensures
        json::has_member(JsonValue::Object(local_members(id, game, Ok(count), records)), "id"@, JsonValue::Text(id)),
        json::has_member(JsonValue::Object(local_members(id, game, Ok(count), records)), "name"@, JsonValue::Text(game.name)),
        json::has_member(JsonValue::Object(local_members(id, game, Ok(count), records)), "locations"@, JsonValue::Number(count as int)),
        json::has_member(JsonValue::Object(local_members(id, game, Ok(count), records)), "location_problem"@, JsonValue::Null),
        json::has_member(JsonValue::Object(local_members(id, game, Ok(count), records)), "last"@, record_json(records, id)),
        json::has_member(JsonValue::Object(local_members(id, game, Ok(count), records)), "cloud_id"@, JsonValue::Text(
            if game.cloud_id is Some {
                game.cloud_id.unwrap()
            } else {
                Seq::empty()
            },
        )),
        json::has_member(JsonValue::Object(local_members(id, game, Ok(count), records)), "cloud_key"@, JsonValue::Text(
            if game.cloud_dir is Some {
                game.cloud_dir.unwrap()
            } else {
                Seq::empty()
            },
        )),
        json::has_member(
            JsonValue::Object(local_members(id, game, Err(problem), records)),
            "locations"@,
            JsonValue::Number(0),
        ),
        json::has_member(
            JsonValue::Object(local_members(id, game, Err(problem), records)),
            "location_problem"@,
            JsonValue::Text(problem@),
        ),
{
    let bad = local_members(id, game, Err(problem), records);
    assert(bad[2] == ("locations"@, JsonValue::Number(0)));
    assert(bad[3] == ("location_problem"@, JsonValue::Text(problem@)));
    let members = local_members(id, game, Ok(count), records);
    assert(members[0] == ("id"@, JsonValue::Text(id)));
    assert(members[1] == ("name"@, JsonValue::Text(game.name)));
    assert(members[2] == ("locations"@, JsonValue::Number(count as int)));
    assert(members[3] == ("location_problem"@, JsonValue::Null));
    assert(members[4] == ("last"@, record_json(records, id)));
    assert(members[5] == ("cloud_id"@, JsonValue::Text(
            if game.cloud_id is Some {
                game.cloud_id.unwrap()
            } else {
                Seq::empty()
            },
        )));
    assert(members[6] == ("cloud_key"@, JsonValue::Text(
            if game.cloud_dir is Some {
                game.cloud_dir.unwrap()
            } else {
                Seq::empty()
            },
        )));
}

/// What the cloud has of a game is shown, and empty where it has nothing.
pub proof fn what_the_cloud_has_is_shown(game: IndexGame)
    ensures
        json::has_member(JsonValue::Object(cloud_members(Some(game))), "cloud_name"@, JsonValue::Text(game.name@)),
        json::has_member(JsonValue::Object(cloud_members(Some(game))), "cloud_versions"@, JsonValue::Number(game.versions as int)),
        json::has_member(JsonValue::Object(cloud_members(Some(game))), "cloud_latest"@, JsonValue::Text(
            if game.latest is Some {
                game.latest.unwrap()@
            } else {
                Seq::empty()
            },
        )),
        json::has_member(JsonValue::Object(cloud_members(Some(game))), "cloud_size"@, JsonValue::Number(game.size as int)),
        json::has_member(
            JsonValue::Object(cloud_members(None)),
            "cloud_versions"@,
            JsonValue::Number(0),
        ),
{
    assert(cloud_members(None)[1] == ("cloud_versions"@, JsonValue::Number(0)));
    let members = cloud_members(Some(game));
    assert(members[0] == ("cloud_name"@, JsonValue::Text(game.name@)));
    assert(members[1] == ("cloud_versions"@, JsonValue::Number(game.versions as int)));
    assert(members[2] == ("cloud_latest"@, JsonValue::Text(
            if game.latest is Some {
                game.latest.unwrap()@
            } else {
                Seq::empty()
            },
        )));
    assert(members[3] == ("cloud_size"@, JsonValue::Number(game.size as int)));
}

/// The sync works exactly where it is on, its settings and credentials are good, and the program of
/// the engine that was chosen was found where it is said to be.
pub proof fn when_the_sync_works(settings: model::SyncSettings, facts: StatusFacts)
    ensures
        is_ready(settings, facts) <==> {
            &&& settings.enabled
            &&& facts.settings_problem is None
            &&& facts.secrets_problem is None
            &&& facts.misplaced is None
            &&& settings.engine == SyncEngine::Rclone ==> facts.rclone is Some
            &&& settings.engine == SyncEngine::Kopia ==> facts.kopia is Some
        },
        settings.enabled && facts.settings_problem is Some ==> problem_of(settings, facts) == Some(
            facts.settings_problem.unwrap()@,
        ),
        !settings.enabled ==> problem_of(settings, facts) is None,
{
}

/// What is shown of the setup.
pub proof fn the_setup_is_shown(settings: model::SyncSettings, facts: StatusFacts)
    ensures
        json::has_member(JsonValue::Object(setup_members(settings, facts)), "settings"@, JsonValue::Object(game_json::sync_members(settings))),
        json::has_member(JsonValue::Object(setup_members(settings, facts)), "enabled"@, JsonValue::Bool(settings.enabled)),
        json::has_member(JsonValue::Object(setup_members(settings, facts)), "engine"@, JsonValue::Text(
            if settings.engine == SyncEngine::Rclone {
                "rclone"@
            } else {
                "kopia"@
            },
        )),
        json::has_member(JsonValue::Object(setup_members(settings, facts)), "engine_label"@, JsonValue::Text(model::engine_label(settings.engine))),
        json::has_member(JsonValue::Object(setup_members(settings, facts)), "rclone"@, json::optional_text(chars::text_view(facts.rclone))),
        json::has_member(JsonValue::Object(setup_members(settings, facts)), "kopia"@, json::optional_text(chars::text_view(facts.kopia))),
        json::has_member(JsonValue::Object(setup_members(settings, facts)), "keyring"@, keyring_json(facts.keyring)),
        json::has_member(JsonValue::Object(setup_members(settings, facts)), "secrets"@, json::text_list(chars::texts(facts.secrets@))),
{
    let members = setup_members(settings, facts);
    assert(members[0] == ("settings"@, JsonValue::Object(game_json::sync_members(settings))));
    assert(members[1] == ("enabled"@, JsonValue::Bool(settings.enabled)));
    assert(members[2] == ("engine"@, JsonValue::Text(
            if settings.engine == SyncEngine::Rclone {
                "rclone"@
            } else {
                "kopia"@
            },
        )));
    assert(members[3] == ("engine_label"@, JsonValue::Text(model::engine_label(settings.engine))));
    assert(members[4] == ("rclone"@, json::optional_text(chars::text_view(facts.rclone))));
    assert(members[5] == ("kopia"@, json::optional_text(chars::text_view(facts.kopia))));
    assert(members[6] == ("keyring"@, keyring_json(facts.keyring)));
    assert(members[7] == ("secrets"@, json::text_list(chars::texts(facts.secrets@))));
}

/// What is shown of how the sync works.
pub proof fn the_work_is_shown(config: Settings, facts: StatusFacts)
    ensures
        json::has_member(JsonValue::Object(work_members(config, facts)), "ready"@, JsonValue::Bool(is_ready(config.sync, facts))),
        json::has_member(JsonValue::Object(work_members(config, facts)), "problem"@, json::optional_text(problem_of(config.sync, facts))),
        json::has_member(JsonValue::Object(work_members(config, facts)), "remote"@, JsonValue::Text(facts.remote@)),
        json::has_member(JsonValue::Object(work_members(config, facts)), "kopia_prefix"@, JsonValue::Text(facts.kopia_prefix@)),
        json::has_member(JsonValue::Object(work_members(config, facts)), "pull_timeout_secs"@, JsonValue::Number(facts.pull_timeout_seconds as int)),
        json::has_member(JsonValue::Object(work_members(config, facts)), "keep_versions_max"@, JsonValue::Number(100)),
        json::has_member(JsonValue::Object(work_members(config, facts)), "games"@, games_json(config.games, facts)),
{
    let members = work_members(config, facts);
    assert(members[0] == ("ready"@, JsonValue::Bool(is_ready(config.sync, facts))));
    assert(members[1] == ("problem"@, json::optional_text(problem_of(config.sync, facts))));
    assert(members[2] == ("remote"@, JsonValue::Text(facts.remote@)));
    assert(members[3] == ("kopia_prefix"@, JsonValue::Text(facts.kopia_prefix@)));
    assert(members[4] == ("pull_timeout_secs"@, JsonValue::Number(facts.pull_timeout_seconds as int)));
    assert(members[5] == ("keep_versions_max"@, JsonValue::Number(100)));
    assert(members[6] == ("games"@, games_json(config.games, facts)));
}

/// What is shown of where the secrets are kept.
pub proof fn the_keyring_is_shown(keyring: Keyring)
    ensures
        json::has_member(keyring_json(keyring), "backend"@, JsonValue::Text(keyring.backend@)),
        json::has_member(keyring_json(keyring), "ephemeral"@, JsonValue::Bool(keyring.ephemeral)),
        json::has_member(keyring_json(keyring), "store"@, keyring.store@),
        json::has_member(keyring_json(keyring), "secrets_file"@, JsonValue::Text(keyring.secrets_file@)),
        json::has_member(keyring_json(keyring), "min_master_password"@, JsonValue::Number(keyring.min_master_password as int)),
{
    let members = keyring_json(keyring)->Object_0;
    assert(members[0] == ("backend"@, JsonValue::Text(keyring.backend@)));
    assert(members[1] == ("ephemeral"@, JsonValue::Bool(keyring.ephemeral)));
    assert(members[2] == ("store"@, keyring.store@));
    assert(members[3] == ("secrets_file"@, JsonValue::Text(keyring.secrets_file@)));
    assert(members[4] == ("min_master_password"@, JsonValue::Number(keyring.min_master_password as int)));
}

/// Every game is shown, in the order of the names, with its own locations.
pub proof fn every_game_is_shown(games: Seq<(Seq<char>, Game)>, facts: StatusFacts, k: int)
    requires
        0 <= k < games.len(),
    ensures
        match games_json(games, facts) {
            JsonValue::List(list) => {
                let i = game_json::name_order(games)[k];
                list.len() == games.len() && list[k] == JsonValue::Object(
                    local_members(
                        games[i].0,
                        games[i].1,
                        facts.locations@[i],
                        facts.records@,
                    ) + cloud_members(
                        known_game(rows::index_list(facts.index), games[i].1.cloud_id),
                    ),
                )
            },
            _ => false,
        },
{
    game_json::the_list_holds_every_game(games);
}

} // verus!
