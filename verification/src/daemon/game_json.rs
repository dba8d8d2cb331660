//! Games and settings as clients see them.

use crate::config::locations;
use crate::config::model;
use crate::config::model::{
    Config, Game, GameConfig, SaveLocation, SavePath, SyncConfig, SyncEngine, SyncSettings,
};
use crate::config::profile::{Profile, ScaleAlgorithm, ScaleProfile};
use crate::config::ratio::{Ratio, INFINITE};
use crate::json;
use crate::json::{
    no_members, number, number_or_null, text, text_or_null, texts_json, with, Json, JsonValue,
};
use crate::mount::table;
use crate::mount::table::{MountEntry, MountPath, MountTable, Reference};
use crate::path;
use crate::path::FsPath;
use crate::text::order;
use crate::text::order::{sort_positions, SortKey};
use vstd::prelude::*;

verus! {

pub open spec fn path_json(place: Seq<u8>) -> JsonValue {
    JsonValue::Text(path::lossy_text(place))
}

pub fn path_value(place: &FsPath) -> (out: Json)
    ensures
        out@ == path_json(place@),
{
    Json::Text(place.text())
}

pub open spec fn optional_path(place: Option<Seq<u8>>) -> JsonValue {
    match place {
        Some(place) => path_json(place),
        None => JsonValue::Null,
    }
}

pub fn path_or_null(place: &Option<FsPath>) -> (out: Json)
    ensures
        out@ == optional_path(model::path_view(*place)),
{
    match place {
        Some(place) => path_value(place),
        None => Json::Null,
    }
}

pub open spec fn reference_json(reference: Option<Reference>) -> JsonValue {
    match reference {
        Some(reference) => JsonValue::Object(
            seq![
                ("disk"@, JsonValue::Text(reference.disk)),
                ("relative"@, path_json(reference.relative)),
            ],
        ),
        None => JsonValue::Null,
    }
}

pub fn reference_value(reference: &Option<MountPath>) -> (out: Json)
    ensures
        out@ == reference_json(table::reference_view(*reference)),
{
    match reference {
        Some(reference) => {
            let out = with(no_members(), "disk", text(reference.disk.as_str()));
            let out = with(out, "relative", path_value(&reference.relative));
            assert(json::members_view(out@) =~= seq![
                ("disk"@, JsonValue::Text(reference@.disk)),
                ("relative"@, path_json(reference@.relative)),
            ]);
            Json::Object(out)
        },
        None => Json::Null,
    }
}

// ---------------------------------------------------------------------------------------------
// Profiles

/// An algorithm: a name, and for those that have one the sharpness under it.
pub open spec fn algorithm_json(algorithm: ScaleAlgorithm) -> JsonValue {
    match algorithm {
        ScaleAlgorithm::Fsr { sharpness } => JsonValue::Object(
            seq![("Fsr"@, sharpness_json(sharpness))],
        ),
        ScaleAlgorithm::Nis { sharpness } => JsonValue::Object(
            seq![("Nis"@, sharpness_json(sharpness))],
        ),
        ScaleAlgorithm::Integer => JsonValue::Text("Integer"@),
        ScaleAlgorithm::Bilinear => JsonValue::Text("Bilinear"@),
    }
}

pub open spec fn sharpness_json(sharpness: u32) -> JsonValue {
    JsonValue::Object(seq![("sharpness"@, JsonValue::Number(sharpness as int))])
}

fn sharpness_value(sharpness: u32) -> (out: Json)
    ensures
        out@ == sharpness_json(sharpness),
{
    let out = with(no_members(), "sharpness", number(sharpness as u64));
    assert(json::members_view(out@) =~= seq![("sharpness"@, JsonValue::Number(sharpness as int))]);
    Json::Object(out)
}

fn algorithm_value(algorithm: ScaleAlgorithm) -> (out: Json)
    ensures
        out@ == algorithm_json(algorithm),
{
    match algorithm {
        ScaleAlgorithm::Fsr { sharpness } => {
            let out = with(no_members(), "Fsr", sharpness_value(sharpness));
            assert(json::members_view(out@) =~= seq![("Fsr"@, sharpness_json(sharpness))]);
            Json::Object(out)
        },
        ScaleAlgorithm::Nis { sharpness } => {
            let out = with(no_members(), "Nis", sharpness_value(sharpness));
            assert(json::members_view(out@) =~= seq![("Nis"@, sharpness_json(sharpness))]);
            Json::Object(out)
        },
        ScaleAlgorithm::Integer => text("Integer"),
        ScaleAlgorithm::Bilinear => text("Bilinear"),
    }
}

/// A ratio is a number in double precision; what is not finite is `null`.
pub open spec fn ratio_json(ratio: Option<(u32, Seq<char>, Seq<char>)>) -> JsonValue {
    match ratio {
        Some((bits, _, wide)) => if bits % 0x8000_0000 >= INFINITE {
            JsonValue::Null
        } else {
            JsonValue::Real(wide)
        },
        None => JsonValue::Null,
    }
}

fn ratio_value(ratio: &Option<Ratio>) -> (out: Json)
    ensures
        out@ == ratio_json(crate::config::profile::ratio_view(*ratio)),
{
    match ratio {
        Some(ratio) => if ratio.bits % 0x8000_0000 >= INFINITE {
            Json::Null
        } else {
            Json::Real(ratio.wide.clone())
        },
        None => Json::Null,
    }
}

/// A profile; the arguments that the user wrote are mentioned only where there are some.
pub open spec fn profile_members(profile: Profile) -> Seq<(Seq<char>, JsonValue)> {
    let fields = seq![
        ("name"@, JsonValue::Text(profile.name)),
        ("algorithm"@, algorithm_json(profile.algorithm)),
        ("internal_width"@, json::optional_number(profile.internal_width)),
        ("internal_height"@, json::optional_number(profile.internal_height)),
        ("output_width"@, json::optional_number(profile.output_width)),
        ("output_height"@, json::optional_number(profile.output_height)),
        ("scale_ratio"@, ratio_json(profile.scale_ratio)),
        ("framerate_limit"@, json::optional_number(profile.framerate_limit)),
        ("force_fullscreen"@, JsonValue::Bool(profile.force_fullscreen)),
    ];
    if profile.gamescope_args.len() == 0 {
        fields
    } else {
        fields.push(("gamescope_args"@, json::text_list(profile.gamescope_args)))
    }
}

pub fn profile_value(profile: &ScaleProfile) -> (out: Json)
    ensures
        out@ == JsonValue::Object(profile_members(profile@)),
{
    let out = with(no_members(), "name", text(profile.name.as_str()));
    let out = with(out, "algorithm", algorithm_value(profile.algorithm));
    let out = with(out, "internal_width", number_or_null(profile.internal_width));
    let out = with(out, "internal_height", number_or_null(profile.internal_height));
    let out = with(out, "output_width", number_or_null(profile.output_width));
    let out = with(out, "output_height", number_or_null(profile.output_height));
    let out = with(out, "scale_ratio", ratio_value(&profile.scale_ratio));
    let out = with(out, "framerate_limit", number_or_null(profile.framerate_limit));
    let out = with(out, "force_fullscreen", Json::Bool(profile.force_fullscreen));
    assert(profile@.gamescope_args.len() == profile.gamescope_args@.len());
    let out = if profile.gamescope_args.len() == 0 {
        out
    } else {
        with(out, "gamescope_args", texts_json(&profile.gamescope_args))
    };
    assert(json::members_view(out@) =~= profile_members(profile@));
    Json::Object(out)
}

// ---------------------------------------------------------------------------------------------
// Save locations

/// A save location, with the path of the moment where its reference leads somewhere; patterns
/// are mentioned only where there are some.
pub open spec fn save_members(save: SaveLocation, mounts: Seq<MountEntry>) -> Seq<
    (Seq<char>, JsonValue),
> {
    let fields = seq![
        ("kind"@, JsonValue::Text(model::kind_name(save.kind))),
        (
            "path"@,
            match locations::save_now(save, mounts) {
                Some(place) => path_json(place),
                None => JsonValue::Text(save.path),
            },
        ),
        ("mount"@, reference_json(save.mount)),
    ];
    if save.exclude.len() == 0 {
        fields
    } else {
        fields.push(("exclude"@, json::text_list(save.exclude)))
    }
}

pub open spec fn saves_json(saves: Seq<SaveLocation>, mounts: Seq<MountEntry>) -> JsonValue {
    JsonValue::List(
        saves.map_values(|save: SaveLocation| JsonValue::Object(save_members(save, mounts))),
    )
}

fn save_value(save: &SavePath, now: &Option<FsPath>, Ghost(mounts): Ghost<Seq<MountEntry>>) -> (out:
    Json)
    requires
        model::path_view(*now) == locations::save_now(save@, mounts),
    ensures
        out@ == JsonValue::Object(save_members(save@, mounts)),
{
    let place = match now {
        Some(place) => path_value(place),
        None => text(save.path.as_str()),
    };
    let out = with(no_members(), "kind", text(save.kind.as_str()));
    let out = with(out, "path", place);
    let out = with(out, "mount", reference_value(&save.mount));
    assert(save@.exclude.len() == save.exclude@.len());
    let out = if save.exclude.len() == 0 {
        out
    } else {
        with(out, "exclude", texts_json(&save.exclude))
    };
    assert(json::members_view(out@) =~= save_members(save@, mounts));
    Json::Object(out)
}

fn saves_value(
    saves: &Vec<SavePath>,
    now: &Vec<Option<FsPath>>,
    Ghost(mounts): Ghost<Seq<MountEntry>>,
) -> (out: Json)
    requires
        now@.len() == saves@.len(),
        forall|i: int|
            0 <= i < now@.len() ==> model::path_view(#[trigger] now@[i]) == locations::save_now(
                model::saves_view(saves@)[i],
                mounts,
            ),
    ensures
        out@ == saves_json(model::saves_view(saves@), mounts),
{
    let ghost all = model::saves_view(saves@);
    let mut items: Vec<Json> = Vec::new();
    let mut i: usize = 0;
    while i < saves.len()
        invariant
            i <= saves@.len() == now@.len(),
            all == model::saves_view(saves@),
            forall|k: int|
                0 <= k < now@.len() ==> model::path_view(#[trigger] now@[k])
                    == locations::save_now(all[k], mounts),
            items@.len() == i,
            forall|k: int|
                0 <= k < i ==> (#[trigger] items@[k])@ == JsonValue::Object(
                    save_members(all[k], mounts),
                ),
        decreases saves@.len() - i,
    {
        assert(all[i as int] == saves@[i as int]@);
        assert(model::path_view(now@[i as int]) == locations::save_now(all[i as int], mounts));
        items.push(save_value(&saves[i], &now[i], Ghost(mounts)));
        i += 1;
    }
    proof {
        json::items_view_items(items@);
        assert(json::items_view(items@) =~= all.map_values(
            |save: SaveLocation| JsonValue::Object(save_members(save, mounts)),
        ));
    }
    Json::List(items)
}

// ---------------------------------------------------------------------------------------------
// Games

/// Where a game is: its places of the moment, and what stands in the way of finding them.
pub open spec fn place_members(game: Game, mounts: Seq<MountEntry>) -> Seq<(Seq<char>, JsonValue)> {
    let dir = locations::game_dir_now(game, mounts);
    let exe = locations::exe_now(game, mounts);
    seq![
        ("game_dir"@, path_json(locations::or_empty(dir))),
        ("game_dir_mount"@, reference_json(game.game_dir_mount)),
        ("exe_path"@, path_json(locations::or_empty(exe))),
        ("exe_mount"@, reference_json(game.exe_mount)),
        ("save_paths"@, saves_json(game.save_paths, mounts)),
        ("location_error"@, json::optional_text(locations::first_error(dir, exe))),
    ]
}

/// How a game is started and told.
pub open spec fn start_members(game: Game) -> Seq<(Seq<char>, JsonValue)> {
    seq![
        ("name"@, JsonValue::Text(game.name)),
        ("launch_args"@, json::text_list(game.launch_args)),
        ("wine_prefix"@, optional_path(game.wine_prefix)),
        ("auto_watch"@, JsonValue::Bool(game.auto_watch)),
        ("direct_launch"@, JsonValue::Bool(game.direct_launch)),
        ("process_name"@, json::optional_text(game.process_name)),
        ("scale_profile"@, JsonValue::Object(profile_members(game.scale_profile))),
        ("created_at"@, JsonValue::Text(game.created_at)),
    ]
}

/// What a game is in the cloud.
pub open spec fn cloud_members(game: Game) -> Seq<(Seq<char>, JsonValue)> {
    seq![
        ("exe_fingerprint"@, json::optional_text(game.exe_fingerprint)),
        ("cloud_id"@, json::optional_text(game.cloud_id)),
        ("cloud_dir"@, json::optional_text(game.cloud_dir)),
        ("cloud_rejected"@, json::text_list(game.cloud_rejected)),
        ("sync_enabled"@, JsonValue::Bool(game.sync_enabled)),
        ("cloud_conclusion"@, json::optional_text(game.cloud_conclusion)),
    ]
}

/// A game with everything that is stored of it.
pub open spec fn game_members(id: Seq<char>, game: Game, mounts: Seq<MountEntry>) -> Seq<
    (Seq<char>, JsonValue),
> {
    seq![("id"@, JsonValue::Text(id))] + start_members(game) + place_members(game, mounts)
        + cloud_members(game)
}

fn with_start(object: Vec<(String, Json)>, game: &GameConfig) -> (out: Vec<(String, Json)>)
    ensures
        json::members_view(out@) == json::members_view(object@) + start_members(game@),
{
    let out = with(object, "name", text(game.name.as_str()));
    let out = with(out, "launch_args", texts_json(&game.launch_args));
    let out = with(out, "wine_prefix", path_or_null(&game.wine_prefix));
    let out = with(out, "auto_watch", Json::Bool(game.auto_watch));
    let out = with(out, "direct_launch", Json::Bool(game.direct_launch));
    let out = with(out, "process_name", text_or_null(&game.process_name));
    let out = with(out, "scale_profile", profile_value(&game.scale_profile));
    let out = with(out, "created_at", text(game.created_at.as_str()));
    assert(json::members_view(out@) =~= json::members_view(object@) + start_members(game@));
    out
}

fn with_places(object: Vec<(String, Json)>, game: &GameConfig, mounts: &MountTable) -> (out: Vec<
    (String, Json),
>)
    ensures
        json::members_view(out@) == json::members_view(object@) + place_members(game@, mounts@),
{
    let places = game.location_view(mounts);
    let out = with(object, "game_dir", path_value(&places.game_dir));
    let out = with(out, "game_dir_mount", reference_value(&game.game_dir_mount));
    let out = with(out, "exe_path", path_value(&places.exe_path));
    let out = with(out, "exe_mount", reference_value(&game.exe_mount));
    let saves = saves_value(&game.save_paths, &places.save_paths, Ghost(mounts@));
    let out = with(out, "save_paths", saves);
    let out = with(out, "location_error", text_or_null(&places.location_error));
    assert(json::members_view(out@) =~= json::members_view(object@) + place_members(
        game@,
        mounts@,
    ));
    out
}

fn with_cloud(object: Vec<(String, Json)>, game: &GameConfig) -> (out: Vec<(String, Json)>)
    ensures
        json::members_view(out@) == json::members_view(object@) + cloud_members(game@),
{
    let out = with(object, "exe_fingerprint", text_or_null(&game.exe_fingerprint));
    let out = with(out, "cloud_id", text_or_null(&game.cloud_id));
    let out = with(out, "cloud_dir", text_or_null(&game.cloud_dir));
    let out = with(out, "cloud_rejected", texts_json(&game.cloud_rejected));
    let out = with(out, "sync_enabled", Json::Bool(game.sync_enabled));
    let out = with(out, "cloud_conclusion", text_or_null(&game.cloud_conclusion));
    assert(json::members_view(out@) =~= json::members_view(object@) + cloud_members(game@));
    out
}

pub fn game_value(id: &str, game: &GameConfig, mounts: &MountTable) -> (out: Json)
    ensures
        out@ == JsonValue::Object(game_members(id@, game@, mounts@)),
{
    let out = with(no_members(), "id", text(id));
    assert(json::members_view(out@) =~= seq![("id"@, JsonValue::Text(id@))]);
    let out = with_start(out, game);
    let out = with_places(out, game, mounts);
    let out = with_cloud(out, game);
    Json::Object(out)
}

/// What the games are sorted by: their names, and the ids where names are the same.
pub open spec fn name_keys(games: Seq<(Seq<char>, Game)>) -> Seq<(Seq<char>, Seq<char>)> {
    games.map_values(|entry: (Seq<char>, Game)| (entry.1.name, entry.0))
}

pub open spec fn name_order(games: Seq<(Seq<char>, Game)>) -> Seq<int> {
    order::sorted_positions(name_keys(games), games.len() as int)
}

/// The positions of the games in the order of their names.
pub fn positions_by_name(config: &Config) -> (out: Vec<usize>)
    ensures
        order::positions_view(out@) == name_order(config@.games),
        out@.len() == config.games@.len(),
        forall|i: int| 0 <= i < out@.len() ==> #[trigger] out@[i] < config.games@.len(),
{
    let mut keys: Vec<SortKey> = Vec::new();
    let mut i: usize = 0;
    while i < config.games.len()
        invariant
            i <= config.games@.len(),
            keys@.len() == i,
            forall|k: int|
                0 <= k < i ==> (#[trigger] keys@[k]).first@ == config.games@[k].1.name@
                    && keys@[k].second@ == config.games@[k].0@,
        decreases config.games@.len() - i,
    {
        keys.push(
            SortKey { first: config.games[i].1.name.clone(), second: config.games[i].0.clone() },
        );
        i += 1;
    }
    assert(order::keys_view(keys@) =~= name_keys(config@.games));
    sort_positions(&keys)
}

pub open spec fn games_json(games: Seq<(Seq<char>, Game)>, mounts: Seq<MountEntry>) -> JsonValue {
    JsonValue::List(
        name_order(games).map_values(
            |i: int| JsonValue::Object(game_members(games[i].0, games[i].1, mounts)),
        ),
    )
}

pub open spec fn game_list_json(games: Seq<(Seq<char>, Game)>, mounts: Seq<MountEntry>) -> JsonValue {
    JsonValue::Object(seq![("games"@, games_json(games, mounts))])
}

/// The library, sorted by name and id.
pub fn game_list(config: &Config, mounts: &MountTable) -> (out: Json)
    ensures
        out@ == game_list_json(config@.games, mounts@),
{
    let ghost games = config@.games;
    let positions = positions_by_name(config);
    let mut items: Vec<Json> = Vec::new();
    let mut i: usize = 0;
    while i < positions.len()
        invariant
            i <= positions@.len(),
            games == config@.games,
            forall|k: int| 0 <= k < positions@.len() ==> #[trigger] positions@[k] < games.len(),
            items@.len() == i,
            forall|k: int|
                0 <= k < i ==> (#[trigger] items@[k])@ == JsonValue::Object(
                    game_members(
                        games[positions@[k] as int].0,
                        games[positions@[k] as int].1,
                        mounts@,
                    ),
                ),
        decreases positions@.len() - i,
    {
        let at = positions[i];
        assert(games[at as int] == (config.games@[at as int].0@, config.games@[at as int].1@));
        items.push(game_value(config.games[at].0.as_str(), &config.games[at].1, mounts));
        i += 1;
    }
    proof {
        json::items_view_items(items@);
        let order = name_order(games);
        assert forall|k: int| 0 <= k < order.len() implies #[trigger] order[k] == positions@[k] by {
            assert(order::positions_view(positions@)[k] == positions@[k]);
        }
        assert(json::items_view(items@) =~= order.map_values(
            |i: int| JsonValue::Object(game_members(games[i].0, games[i].1, mounts@)),
        ));
    }
    let out = with(no_members(), "games", Json::List(items));
    assert(json::members_view(out@) =~= seq![("games"@, games_json(games, mounts@))]);
    Json::Object(out)
}

/// Every game of the library is listed, once.
pub proof fn the_list_holds_every_game(games: Seq<(Seq<char>, Game)>)
    ensures
        name_order(games).len() == games.len(),
        name_order(games).to_multiset() == Seq::new(games.len(), |i: int| i).to_multiset(),
        order::is_sorted(name_keys(games), name_order(games)),
{
    order::sorting_keeps_everything(name_keys(games), games.len() as int);
}

// ---------------------------------------------------------------------------------------------
// The settings of the sync

pub open spec fn engine_word(engine: SyncEngine) -> Seq<char> {
    match engine {
        SyncEngine::Rclone => "rclone"@,
        SyncEngine::Kopia => "kopia"@,
    }
}

pub fn engine_name(engine: SyncEngine) -> (name: &'static str)
    ensures
        name@ == engine_word(engine),
{
    match engine {
        SyncEngine::Rclone => "rclone",
        SyncEngine::Kopia => "kopia",
    }
}

pub open spec fn sync_members(settings: SyncSettings) -> Seq<(Seq<char>, JsonValue)> {
    seq![
        ("enabled"@, JsonValue::Bool(settings.enabled)),
        ("engine"@, JsonValue::Text(engine_word(settings.engine))),
        ("endpoint"@, JsonValue::Text(settings.endpoint)),
        ("bucket"@, JsonValue::Text(settings.bucket)),
        ("prefix"@, JsonValue::Text(settings.prefix)),
        ("keep_versions"@, JsonValue::Number(settings.keep_versions as int)),
        ("rclone_binary"@, JsonValue::Text(settings.rclone_binary)),
        ("kopia_binary"@, JsonValue::Text(settings.kopia_binary)),
    ]
}

pub fn sync_value(settings: &SyncConfig) -> (out: Json)
    ensures
        out@ == JsonValue::Object(sync_members(settings@)),
{
    let out = with(no_members(), "enabled", Json::Bool(settings.enabled));
    let out = with(out, "engine", text(engine_name(settings.engine)));
    let out = with(out, "endpoint", text(settings.endpoint.as_str()));
    let out = with(out, "bucket", text(settings.bucket.as_str()));
    let out = with(out, "prefix", text(settings.prefix.as_str()));
    let out = with(out, "keep_versions", number(settings.keep_versions as u64));
    let out = with(out, "rclone_binary", text(settings.rclone_binary.as_str()));
    let out = with(out, "kopia_binary", text(settings.kopia_binary.as_str()));
    assert(json::members_view(out@) =~= sync_members(settings@));
    Json::Object(out)
}

// ---------------------------------------------------------------------------------------------
// What holds of what clients see

/// What clients see of a profile.
pub proof fn a_profile_is_shown_as_it_is(profile: Profile)
    ensures
        json::has_member(JsonValue::Object(profile_members(profile)), "name"@, JsonValue::Text(profile.name)),
        json::has_member(JsonValue::Object(profile_members(profile)), "algorithm"@, algorithm_json(profile.algorithm)),
        json::has_member(JsonValue::Object(profile_members(profile)), "internal_width"@, json::optional_number(profile.internal_width)),
        json::has_member(JsonValue::Object(profile_members(profile)), "internal_height"@, json::optional_number(profile.internal_height)),
        json::has_member(JsonValue::Object(profile_members(profile)), "output_width"@, json::optional_number(profile.output_width)),
        json::has_member(JsonValue::Object(profile_members(profile)), "output_height"@, json::optional_number(profile.output_height)),
        json::has_member(JsonValue::Object(profile_members(profile)), "scale_ratio"@, ratio_json(profile.scale_ratio)),
        json::has_member(JsonValue::Object(profile_members(profile)), "framerate_limit"@, json::optional_number(profile.framerate_limit)),
        json::has_member(JsonValue::Object(profile_members(profile)), "force_fullscreen"@, JsonValue::Bool(profile.force_fullscreen)),
        profile.gamescope_args.len() > 0 ==> json::has_member(
            JsonValue::Object(profile_members(profile)),
            "gamescope_args"@,
            json::text_list(profile.gamescope_args),
        ),
        profile.gamescope_args.len() == 0 ==> profile_members(profile).len() == 9,
{
    if profile.gamescope_args.len() > 0 {
        assert(profile_members(profile)[9] == (
            "gamescope_args"@,
            json::text_list(profile.gamescope_args),
        ));
    }
    let members = profile_members(profile);
    assert(members[0] == ("name"@, JsonValue::Text(profile.name)));
    assert(members[1] == ("algorithm"@, algorithm_json(profile.algorithm)));
    assert(members[2] == ("internal_width"@, json::optional_number(profile.internal_width)));
    assert(members[3] == ("internal_height"@, json::optional_number(profile.internal_height)));
    assert(members[4] == ("output_width"@, json::optional_number(profile.output_width)));
    assert(members[5] == ("output_height"@, json::optional_number(profile.output_height)));
    assert(members[6] == ("scale_ratio"@, ratio_json(profile.scale_ratio)));
    assert(members[7] == ("framerate_limit"@, json::optional_number(profile.framerate_limit)));
    assert(members[8] == ("force_fullscreen"@, JsonValue::Bool(profile.force_fullscreen)));
}

/// An algorithm is shown under its name, with its sharpness where it has one.
pub proof fn an_algorithm_is_shown_under_its_name(sharpness: u32)
    ensures
        ({
            let sharp = JsonValue::Object(
                seq![("sharpness"@, JsonValue::Number(sharpness as int))],
            );
            &&& algorithm_json(ScaleAlgorithm::Fsr { sharpness }) == JsonValue::Object(
                seq![("Fsr"@, sharp)],
            )
            &&& algorithm_json(ScaleAlgorithm::Nis { sharpness }) == JsonValue::Object(
                seq![("Nis"@, sharp)],
            )
        }),
        algorithm_json(ScaleAlgorithm::Integer) == JsonValue::Text("Integer"@),
        algorithm_json(ScaleAlgorithm::Bilinear) == JsonValue::Text("Bilinear"@),
{
}

/// A ratio is shown as the number it is; one that is no finite number, or is missing, is not.
pub proof fn a_finite_ratio_is_shown(bits: u32, shown: Seq<char>, wide: Seq<char>)
    ensures
        bits < 0x7f80_0000 ==> ratio_json(Some((bits, shown, wide))) == JsonValue::Real(wide),
        0x7f80_0000 <= bits < 0x8000_0000 ==> ratio_json(Some((bits, shown, wide)))
            == JsonValue::Null,
        ratio_json(None) == JsonValue::Null,
{
}

/// A path is shown as its text, and a reference with its disk and its path there.
pub proof fn places_are_shown_as_text(place: Seq<u8>, reference: Reference)
    ensures
        path_json(place) == JsonValue::Text(path::lossy_text(place)),
        optional_path(Some(place)) == JsonValue::Text(path::lossy_text(place)),
        optional_path(None) == JsonValue::Null,
        reference_json(None) == JsonValue::Null,
        json::has_member(
            reference_json(Some(reference)),
            "disk"@,
            JsonValue::Text(reference.disk),
        ),
        json::has_member(
            reference_json(Some(reference)),
            "relative"@,
            JsonValue::Text(path::lossy_text(reference.relative)),
        ),
{
    let members = reference_json(Some(reference))->Object_0;
    assert(members[0] == ("disk"@, JsonValue::Text(reference.disk)));
    assert(members[1] == ("relative"@, JsonValue::Text(path::lossy_text(reference.relative))));
}

/// A save location is shown with its kind, the path of the moment where there is one and the
/// stored one otherwise, its reference, and what is left out.
pub proof fn a_save_location_is_shown(save: SaveLocation, mounts: Seq<MountEntry>)
    ensures
        ({
            let value = JsonValue::Object(save_members(save, mounts));
            &&& json::has_member(value, "kind"@, JsonValue::Text(model::kind_name(save.kind)))
            &&& locations::save_now(save, mounts) is Some ==> json::has_member(
                value,
                "path"@,
                JsonValue::Text(path::lossy_text(locations::save_now(save, mounts).unwrap())),
            )
            &&& locations::save_now(save, mounts) is None ==> json::has_member(
                value,
                "path"@,
                JsonValue::Text(save.path),
            )
            &&& json::has_member(value, "mount"@, reference_json(save.mount))
            &&& save.exclude.len() > 0 ==> json::has_member(
                value,
                "exclude"@,
                json::text_list(save.exclude),
            )
        }),
{
    let members = save_members(save, mounts);
    assert(members[0] == ("kind"@, JsonValue::Text(model::kind_name(save.kind))));
    assert(members[1].0 == "path"@);
    assert(members[2] == ("mount"@, reference_json(save.mount)));
    if save.exclude.len() > 0 {
        assert(members[3] == ("exclude"@, json::text_list(save.exclude)));
    }
}

/// All save locations are shown, in their order.
pub proof fn all_save_locations_are_shown(saves: Seq<SaveLocation>, mounts: Seq<MountEntry>)
    ensures
        match saves_json(saves, mounts) {
            JsonValue::List(list) => list.len() == saves.len() && forall|i: int|
                0 <= i < saves.len() ==> #[trigger] list[i] == JsonValue::Object(
                    save_members(saves[i], mounts),
                ),
            _ => false,
        },
{
}

/// What clients see of a game is what is stored of it, with its places of the moment.
pub proof fn a_game_is_shown_as_it_is(id: Seq<char>, game: Game, mounts: Seq<MountEntry>)
    ensures
        json::has_member(JsonValue::Object(game_members(id, game, mounts)), "id"@, JsonValue::Text(id)),
        json::has_member(JsonValue::Object(game_members(id, game, mounts)), "name"@, JsonValue::Text(game.name)),
        json::has_member(JsonValue::Object(game_members(id, game, mounts)), "launch_args"@, json::text_list(game.launch_args)),
        json::has_member(JsonValue::Object(game_members(id, game, mounts)), "wine_prefix"@, match game.wine_prefix {
            Some(place) => JsonValue::Text(path::lossy_text(place)),
            None => JsonValue::Null,
        }),
        json::has_member(JsonValue::Object(game_members(id, game, mounts)), "auto_watch"@, JsonValue::Bool(game.auto_watch)),
        json::has_member(JsonValue::Object(game_members(id, game, mounts)), "direct_launch"@, JsonValue::Bool(game.direct_launch)),
        json::has_member(JsonValue::Object(game_members(id, game, mounts)), "process_name"@, json::optional_text(game.process_name)),
        json::has_member(JsonValue::Object(game_members(id, game, mounts)), "scale_profile"@, JsonValue::Object(profile_members(game.scale_profile))),
        json::has_member(JsonValue::Object(game_members(id, game, mounts)), "created_at"@, JsonValue::Text(game.created_at)),
        json::has_member(JsonValue::Object(game_members(id, game, mounts)), "game_dir"@, JsonValue::Text(
            path::lossy_text(
                match locations::game_dir_now(game, mounts) {
                    Ok(found) => found,
                    Err(_) => Seq::empty(),
                },
            ),
        )),
        json::has_member(JsonValue::Object(game_members(id, game, mounts)), "game_dir_mount"@, reference_json(game.game_dir_mount)),
        json::has_member(JsonValue::Object(game_members(id, game, mounts)), "exe_path"@, JsonValue::Text(
            path::lossy_text(
                match locations::exe_now(game, mounts) {
                    Ok(found) => found,
                    Err(_) => Seq::empty(),
                },
            ),
        )),
        json::has_member(JsonValue::Object(game_members(id, game, mounts)), "exe_mount"@, reference_json(game.exe_mount)),
        json::has_member(JsonValue::Object(game_members(id, game, mounts)), "save_paths"@, saves_json(game.save_paths, mounts)),
        json::has_member(JsonValue::Object(game_members(id, game, mounts)), "location_error"@, json::optional_text(
            locations::first_error(
                locations::game_dir_now(game, mounts),
                locations::exe_now(game, mounts),
            ),
        )),
        json::has_member(JsonValue::Object(game_members(id, game, mounts)), "exe_fingerprint"@, json::optional_text(game.exe_fingerprint)),
        json::has_member(JsonValue::Object(game_members(id, game, mounts)), "cloud_id"@, json::optional_text(game.cloud_id)),
        json::has_member(JsonValue::Object(game_members(id, game, mounts)), "cloud_dir"@, json::optional_text(game.cloud_dir)),
        json::has_member(JsonValue::Object(game_members(id, game, mounts)), "cloud_rejected"@, json::text_list(game.cloud_rejected)),
        json::has_member(JsonValue::Object(game_members(id, game, mounts)), "sync_enabled"@, JsonValue::Bool(game.sync_enabled)),
        json::has_member(JsonValue::Object(game_members(id, game, mounts)), "cloud_conclusion"@, json::optional_text(game.cloud_conclusion)),
{
    let members = game_members(id, game, mounts);
    assert(members[0] == ("id"@, JsonValue::Text(id)));
    assert(members[1] == ("name"@, JsonValue::Text(game.name)));
    assert(members[2] == ("launch_args"@, json::text_list(game.launch_args)));
    assert(members[3] == ("wine_prefix"@, match game.wine_prefix {
            Some(place) => JsonValue::Text(path::lossy_text(place)),
            None => JsonValue::Null,
        }));
    assert(members[4] == ("auto_watch"@, JsonValue::Bool(game.auto_watch)));
    assert(members[5] == ("direct_launch"@, JsonValue::Bool(game.direct_launch)));
    assert(members[6] == ("process_name"@, json::optional_text(game.process_name)));
    assert(members[7] == ("scale_profile"@, JsonValue::Object(profile_members(game.scale_profile))));
    assert(members[8] == ("created_at"@, JsonValue::Text(game.created_at)));
    assert(members[9] == ("game_dir"@, JsonValue::Text(
            path::lossy_text(
                match locations::game_dir_now(game, mounts) {
                    Ok(found) => found,
                    Err(_) => Seq::empty(),
                },
            ),
        )));
    assert(members[10] == ("game_dir_mount"@, reference_json(game.game_dir_mount)));
    assert(members[11] == ("exe_path"@, JsonValue::Text(
            path::lossy_text(
                match locations::exe_now(game, mounts) {
                    Ok(found) => found,
                    Err(_) => Seq::empty(),
                },
            ),
        )));
    assert(members[12] == ("exe_mount"@, reference_json(game.exe_mount)));
    assert(members[13] == ("save_paths"@, saves_json(game.save_paths, mounts)));
    assert(members[14] == ("location_error"@, json::optional_text(
            locations::first_error(
                locations::game_dir_now(game, mounts),
                locations::exe_now(game, mounts),
            ),
        )));
    assert(members[15] == ("exe_fingerprint"@, json::optional_text(game.exe_fingerprint)));
    assert(members[16] == ("cloud_id"@, json::optional_text(game.cloud_id)));
    assert(members[17] == ("cloud_dir"@, json::optional_text(game.cloud_dir)));
    assert(members[18] == ("cloud_rejected"@, json::text_list(game.cloud_rejected)));
    assert(members[19] == ("sync_enabled"@, JsonValue::Bool(game.sync_enabled)));
    assert(members[20] == ("cloud_conclusion"@, json::optional_text(game.cloud_conclusion)));
}

/// What clients see of the settings of the sync.
pub proof fn the_settings_are_shown_as_they_are(settings: SyncSettings)
    ensures
        json::has_member(JsonValue::Object(sync_members(settings)), "enabled"@, JsonValue::Bool(settings.enabled)),
        json::has_member(JsonValue::Object(sync_members(settings)), "engine"@, JsonValue::Text(
            if settings.engine == SyncEngine::Rclone {
                "rclone"@
            } else {
                "kopia"@
            },
        )),
        json::has_member(JsonValue::Object(sync_members(settings)), "endpoint"@, JsonValue::Text(settings.endpoint)),
        json::has_member(JsonValue::Object(sync_members(settings)), "bucket"@, JsonValue::Text(settings.bucket)),
        json::has_member(JsonValue::Object(sync_members(settings)), "prefix"@, JsonValue::Text(settings.prefix)),
        json::has_member(JsonValue::Object(sync_members(settings)), "keep_versions"@, JsonValue::Number(settings.keep_versions as int)),
        json::has_member(JsonValue::Object(sync_members(settings)), "rclone_binary"@, JsonValue::Text(settings.rclone_binary)),
        json::has_member(JsonValue::Object(sync_members(settings)), "kopia_binary"@, JsonValue::Text(settings.kopia_binary)),
{
    let members = sync_members(settings);
    assert(members[0] == ("enabled"@, JsonValue::Bool(settings.enabled)));
    assert(members[1] == ("engine"@, JsonValue::Text(
            if settings.engine == SyncEngine::Rclone {
                "rclone"@
            } else {
                "kopia"@
            },
        )));
    assert(members[2] == ("endpoint"@, JsonValue::Text(settings.endpoint)));
    assert(members[3] == ("bucket"@, JsonValue::Text(settings.bucket)));
    assert(members[4] == ("prefix"@, JsonValue::Text(settings.prefix)));
    assert(members[5] == ("keep_versions"@, JsonValue::Number(settings.keep_versions as int)));
    assert(members[6] == ("rclone_binary"@, JsonValue::Text(settings.rclone_binary)));
    assert(members[7] == ("kopia_binary"@, JsonValue::Text(settings.kopia_binary)));
}

/// The list shows the games in the order of their names, and of their ids where names are the same;
/// each is shown as it is.
pub proof fn the_list_is_in_order(games: Seq<(Seq<char>, Game)>, mounts: Seq<MountEntry>, k: int)
    requires
        0 <= k < games.len(),
    ensures
        json::has_member(game_list_json(games, mounts), "games"@, games_json(games, mounts)),
        match games_json(games, mounts) {
            JsonValue::List(list) => {
                let i = name_order(games)[k];
                &&& list.len() == games.len()
                &&& 0 <= i < games.len()
                &&& list[k] == JsonValue::Object(game_members(games[i].0, games[i].1, mounts))
                &&& k > 0 ==> {
                    let j = name_order(games)[k - 1];
                    !order::text_before(games[i].1.name, games[j].1.name) && (games[i].1.name
                        == games[j].1.name ==> !order::text_before(games[i].0, games[j].0))
                }
            },
            _ => false,
        },
{
    the_list_holds_every_game(games);
    order::sorting_keeps_everything(name_keys(games), games.len() as int);
    let members = game_list_json(games, mounts)->Object_0;
    assert(members[0] == ("games"@, games_json(games, mounts)));
    let list = name_order(games);
    if k > 0 {
        let keys = name_keys(games);
        assert(!order::pair_before(keys[list[k]], keys[list[k - 1]]));
    }
}

} // verus!
