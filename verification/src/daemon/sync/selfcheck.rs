//! Before a game starts: which game of the cloud it is, and what the user answered.

use crate::config::model;
use crate::config::model::{copy_text, Config, Game, GameConfig, Settings};
use crate::daemon::game_rpc::Decision;
use crate::daemon::game_write;
use crate::daemon::sync::identity;
use crate::json;
use crate::json::{no_members, number, text, text_or_null, with, Json, JsonValue};
use crate::text::chars;
use crate::text::chars::same_text;
use crate::text::glue::glue2;
use vstd::prelude::*;

verus! {

// ---------------------------------------------------------------------------------------------
// What the fingerprint says

/// An identity in the cloud: where it lies, and which one it is.
pub struct Hit {
    pub cloud_key: String,
    pub cloud_id: String,
}

/// What the fingerprint of a program says of the cloud. `T` are texts.
pub enum Found<T> {
    Nothing,
    /// More than one identity, or one that another game here has: the user has to say.
    Many,
    One { cloud_id: T, cloud_key: T },
}

pub open spec fn found_view(found: Found<String>) -> Found<Seq<char>> {
    match found {
        Found::Nothing => Found::Nothing,
        Found::Many => Found::Many,
        Found::One { cloud_id, cloud_key } => Found::One {
            cloud_id: cloud_id@,
            cloud_key: cloud_key@,
        },
    }
}

/// Another game here has this identity.
pub open spec fn is_taken(games: Seq<(Seq<char>, Game)>, id: Seq<char>, cloud_id: Seq<char>) -> bool {
    exists|i: int|
        0 <= i < games.len() && (#[trigger] games[i]).0 != id && games[i].1.cloud_id == Some(
            cloud_id,
        )
}

/// `hits` are the identities that the fingerprint belongs to.
pub open spec fn hit(games: Seq<(Seq<char>, Game)>, id: Seq<char>, hits: Seq<Hit>) -> Found<
    Seq<char>,
> {
    if hits.len() == 0 {
        Found::Nothing
    } else if hits.len() > 1 || is_taken(games, id, hits[0].cloud_id@) {
        Found::Many
    } else {
        Found::One { cloud_id: hits[0].cloud_id@, cloud_key: hits[0].cloud_key@ }
    }
}

fn taken(config: &Config, id: &str, cloud_id: &str) -> (yes: bool)
    ensures
        yes == is_taken(config@.games, id@, cloud_id@),
{
    let ghost games = config@.games;
    let mut i: usize = 0;
    while i < config.games.len()
        invariant
            i <= config.games@.len(),
            games == config@.games,
            forall|k: int|
                0 <= k < i ==> (#[trigger] games[k]).0 == id@ || games[k].1.cloud_id != Some(
                    cloud_id@,
                ),
        decreases config.games@.len() - i,
    {
        assert(games[i as int] == (config.games@[i as int].0@, config.games@[i as int].1@));
        if !same_text(config.games[i].0.as_str(), id) {
            match &config.games[i].1.cloud_id {
                Some(own) => if same_text(own.as_str(), cloud_id) {
                    assert(games[i as int].1.cloud_id == Some(cloud_id@));
                    return true;
                },
                None => {},
            }
        }
        i += 1;
    }
    false
}

pub fn fingerprint_hit(config: &Config, id: &str, hits: &Vec<Hit>) -> (found: Found<String>)
    ensures
        found_view(found) == hit(config@.games, id@, hits@),
{
    if hits.len() == 0 {
        return Found::Nothing;
    }
    if hits.len() > 1 || taken(config, id, hits[0].cloud_id.as_str()) {
        return Found::Many;
    }
    Found::One { cloud_id: hits[0].cloud_id.clone(), cloud_key: hits[0].cloud_key.clone() }
}

// ---------------------------------------------------------------------------------------------
// Taking down what was decided

pub open spec fn confirmed(signature: Seq<char>) -> Seq<char> {
    "ok:"@ + signature
}

pub open spec fn declined(signature: Seq<char>) -> Seq<char> {
    "off:"@ + signature
}

/// The user wants a new identity, which comes with the next upload.
pub open spec fn renewed(signature: Seq<char>) -> Seq<char> {
    "new:"@ + signature
}

pub open spec fn concluded(game: Game, conclusion: Seq<char>) -> Game {
    Game { cloud_conclusion: Some(conclusion), ..game }
}

pub open spec fn without_identity(game: Game) -> Game {
    Game { cloud_id: None, cloud_dir: None, ..game }
}

/// The games with a change to the one under an id, where there is one.
pub open spec fn changed(games: Seq<(Seq<char>, Game)>, id: Seq<char>, game: Game) -> Seq<
    (Seq<char>, Game),
> {
    if model::has_game(games, id) {
        model::with_game(games, id, game)
    } else {
        games
    }
}

/// What a decision does to a game: an identity that the program told is taken, and a game that
/// is a new one loses the one it had.
pub open spec fn decided(game: Game, decision: Decision, signature: Seq<char>) -> Game {
    match decision {
        Decision::Adopt { cloud_id, cloud_key } => concluded(
            identity::identified(game, cloud_id@, cloud_key@),
            confirmed(signature),
        ),
        Decision::Fresh => concluded(without_identity(game), confirmed(signature)),
        _ => game,
    }
}

/// Takes down a decision for the sync target with this signature. Without a target, and for a
/// decision that leaves things as they are, nothing changes.
pub fn apply_decision(
    config: &mut Config,
    id: &str,
    decision: &Decision,
    signature: &Option<String>,
) -> (out: Result<(), String>)
    ensures
        old(config).wf() ==> final(config).wf(),
        match out {
            Ok(_) => final(config)@ == match chars::text_view(*signature) {
                Some(signature) => Settings {
                    games: changed(
                        old(config)@.games,
                        id@,
                        decided(model::game_at(old(config)@.games, id@), *decision, signature),
                    ),
                    ..old(config)@
                },
                None => old(config)@,
            },
            Err(message) => *signature is Some && decision is Adopt && !model::has_game(
                old(config)@.games,
                id@,
            ) && message@ == game_write::unknown_game(id@) && final(config)@ == old(config)@,
        },
{
    let signature = match signature {
        Some(signature) => signature,
        None => {
            return Ok(());
        },
    };
    let ghost start = config@;
    let at = match config.find(id) {
        Some(at) => at,
        None => {
            return match decision {
                Decision::Adopt { .. } => Err(glue2("配置中找不到游戏: ", id)),
                _ => Ok(()),
            };
        },
    };
    assert(start.games[at as int] == (
        config.games@[at as int].0@,
        config.games@[at as int].1@,
    ));
    let mut game = config.games[at].1.copy();
    match decision {
        Decision::Adopt { cloud_id, cloud_key } => {
            game.cloud_id = Some(cloud_id.clone());
            game.cloud_dir = Some(cloud_key.clone());
            game.cloud_conclusion = Some(glue2("ok:", signature.as_str()));
        },
        Decision::Fresh => {
            game.cloud_id = None;
            game.cloud_dir = None;
            game.cloud_conclusion = Some(glue2("ok:", signature.as_str()));
        },
        _ => {},
    }
    assert(game@ == decided(start.games[at as int].1, *decision, signature@));
    config.put_game(at, game);
    Ok(())
}

// ---------------------------------------------------------------------------------------------
// What the user answered

/// What an answer does to a game: `ok` confirms, `pair` takes the identity that was picked or
/// asks for a new one, and `off` switches the sync of this game off.
pub open spec fn answered(
    game: Game,
    choice: Seq<char>,
    picked_id: Option<Seq<char>>,
    picked_key: Option<Seq<char>>,
    signature: Seq<char>,
) -> Game {
    if choice == "ok"@ {
        concluded(game, confirmed(signature))
    } else if choice == "pair"@ {
        match (picked_id, picked_key) {
            (Some(cloud_id), Some(key)) => concluded(
                identity::identified(game, cloud_id, key),
                confirmed(signature),
            ),
            _ => concluded(without_identity(game), renewed(signature)),
        }
    } else {
        Game { sync_enabled: false, ..concluded(game, declined(signature)) }
    }
}

/// What is wrong with an answer. One that is about no game of the library goes unnoticed where
/// it would only be taken down.
pub open spec fn answer_complaint(
    games: Seq<(Seq<char>, Game)>,
    id: Seq<char>,
    choice: Seq<char>,
    picked: bool,
    signature: Option<Seq<char>>,
) -> Option<Seq<char>> {
    if signature is None {
        Some("云同步还没配好目标（bucket）"@)
    } else if choice == "ok"@ {
        None
    } else if choice == "pair"@ {
        if picked && !model::has_game(games, id) {
            Some(game_write::unknown_game(id))
        } else {
            None
        }
    } else if choice == "off"@ {
        if !model::has_game(games, id) {
            Some(game_write::unknown_game(id))
        } else {
            None
        }
    } else {
        Some("不认识的回答: "@ + choice)
    }
}

pub open spec fn ok_json() -> JsonValue {
    JsonValue::Object(seq![("ok"@, JsonValue::Bool(true))])
}

pub fn ok_value() -> (out: Json)
    ensures
        out@ == ok_json(),
{
    let out = with(no_members(), "ok", Json::Bool(true));
    assert(json::members_view(out@) =~= seq![("ok"@, JsonValue::Bool(true))]);
    Json::Object(out)
}

fn answer(
    game: &GameConfig,
    choice: &str,
    picked_id: &Option<String>,
    picked_key: &Option<String>,
    signature: &str,
) -> (out: GameConfig)
    ensures
        out@ == answered(
            game@,
            choice@,
            chars::text_view(*picked_id),
            chars::text_view(*picked_key),
            signature@,
        ),
{
    let mut out = game.copy();
    if same_text(choice, "ok") {
        out.cloud_conclusion = Some(glue2("ok:", signature));
    } else if same_text(choice, "pair") {
        if picked_id.is_some() && picked_key.is_some() {
            out.cloud_id = copy_text(picked_id);
            out.cloud_dir = copy_text(picked_key);
            out.cloud_conclusion = Some(glue2("ok:", signature));
        } else {
            out.cloud_id = None;
            out.cloud_dir = None;
            out.cloud_conclusion = Some(glue2("new:", signature));
        }
    } else {
        out.sync_enabled = false;
        out.cloud_conclusion = Some(glue2("off:", signature));
    }
    out
}

/// Takes down what the user answered before a launch.
pub fn resolve(
    config: &mut Config,
    id: &str,
    choice: &str,
    picked_id: &Option<String>,
    picked_key: &Option<String>,
    signature: &Option<String>,
) -> (out: Result<Json, String>)
    ensures
        old(config).wf() ==> final(config).wf(),
        ({
            let complaint = answer_complaint(
                old(config)@.games,
                id@,
                choice@,
                *picked_id is Some && *picked_key is Some,
                chars::text_view(*signature),
            );
            match out {
                Ok(reply) => complaint is None && reply@ == ok_json() && final(config)@ == (
                Settings {
                    games: changed(
                        old(config)@.games,
                        id@,
                        answered(
                            model::game_at(old(config)@.games, id@),
                            choice@,
                            chars::text_view(*picked_id),
                            chars::text_view(*picked_key),
                            chars::text_view(*signature).unwrap(),
                        ),
                    ),
                    ..old(config)@
                }),
                Err(message) => complaint == Some(message@) && final(config)@ == old(config)@,
            }
        }),
{
    let signature = match signature {
        Some(signature) => signature,
        None => {
            return Err("云同步还没配好目标（bucket）".to_owned());
        },
    };
    let pair = same_text(choice, "pair");
    let off = same_text(choice, "off");
    if !same_text(choice, "ok") && !pair && !off {
        return Err(glue2("不认识的回答: ", choice));
    }
    let ghost start = config@;
    let at = match config.find(id) {
        Some(at) => at,
        None => {
            if !same_text(choice, "ok") && ((pair && picked_id.is_some() && picked_key.is_some())
                || (!pair && off)) {
                return Err(glue2("配置中找不到游戏: ", id));
            }
            return Ok(ok_value());
        },
    };
    assert(start.games[at as int] == (
        config.games@[at as int].0@,
        config.games@[at as int].1@,
    ));
    let game = answer(&config.games[at].1, choice, picked_id, picked_key, signature.as_str());
    config.put_game(at, game);
    Ok(ok_value())
}

// ---------------------------------------------------------------------------------------------
// The identities to pick from

/// An identity in the cloud, as it is offered.
pub struct Card {
    pub cloud_key: String,
    pub cloud_id: String,
    pub name: String,
    pub machines: u64,
}

/// The name of the first game here that has an identity.
pub open spec fn owner(games: Seq<(Seq<char>, Game)>, cloud_id: Seq<char>, from: int) -> Option<
    Seq<char>,
>
    decreases games.len() - from,
{
    if from < 0 || from >= games.len() {
        None
    } else if games[from].1.cloud_id == Some(cloud_id) {
        Some(games[from].1.name)
    } else {
        owner(games, cloud_id, from + 1)
    }
}

pub open spec fn is_mine(games: Seq<(Seq<char>, Game)>, id: Seq<char>, cloud_id: Seq<char>) -> bool {
    model::has_game(games, id) && model::game_at(games, id).cloud_id == Some(cloud_id)
}

pub open spec fn card_json(games: Seq<(Seq<char>, Game)>, id: Seq<char>, card: Card) -> JsonValue {
    JsonValue::Object(
        seq![
            ("cloud_key"@, JsonValue::Text(card.cloud_key@)),
            ("cloud_id"@, JsonValue::Text(card.cloud_id@)),
            ("name"@, JsonValue::Text(card.name@)),
            ("machines"@, JsonValue::Number(card.machines as int)),
            ("mine"@, JsonValue::Bool(is_mine(games, id, card.cloud_id@))),
            ("taken_by"@, json::optional_text(owner(games, card.cloud_id@, 0))),
        ],
    )
}

fn owner_of(config: &Config, cloud_id: &str) -> (name: Option<String>)
    ensures
        chars::text_view(name) == owner(config@.games, cloud_id@, 0),
{
    let ghost games = config@.games;
    let mut i: usize = 0;
    while i < config.games.len()
        invariant
            i <= config.games@.len(),
            games == config@.games,
            owner(games, cloud_id@, 0) == owner(games, cloud_id@, i as int),
        decreases config.games@.len() - i,
    {
        assert(games[i as int] == (config.games@[i as int].0@, config.games@[i as int].1@));
        match &config.games[i].1.cloud_id {
            Some(own) => if same_text(own.as_str(), cloud_id) {
                return Some(config.games[i].1.name.clone());
            },
            None => {},
        }
        i += 1;
    }
    None
}

fn mine(config: &Config, id: &str, cloud_id: &str) -> (yes: bool)
    ensures
        yes == is_mine(config@.games, id@, cloud_id@),
{
    match config.game(id) {
        Some(game) => match &game.cloud_id {
            Some(own) => same_text(own.as_str(), cloud_id),
            None => false,
        },
        None => false,
    }
}

fn card_value(config: &Config, id: &str, card: &Card) -> (out: Json)
    ensures
        out@ == card_json(config@.games, id@, *card),
{
    let cloud_id = card.cloud_id.as_str();
    let out = with(no_members(), "cloud_key", text(card.cloud_key.as_str()));
    let out = with(out, "cloud_id", text(cloud_id));
    let out = with(out, "name", text(card.name.as_str()));
    let out = with(out, "machines", number(card.machines));
    let out = with(out, "mine", Json::Bool(mine(config, id, cloud_id)));
    let out = with(out, "taken_by", text_or_null(&owner_of(config, cloud_id)));
    assert(json::members_view(out@) =~= seq![
        ("cloud_key"@, JsonValue::Text(card.cloud_key@)),
        ("cloud_id"@, JsonValue::Text(card.cloud_id@)),
        ("name"@, JsonValue::Text(card.name@)),
        ("machines"@, JsonValue::Number(card.machines as int)),
        ("mine"@, JsonValue::Bool(is_mine(config@.games, id@, card.cloud_id@))),
        ("taken_by"@, json::optional_text(owner(config@.games, card.cloud_id@, 0))),
    ]);
    Json::Object(out)
}

/// The identities in the cloud, with what this machine has to do with each.
pub fn identities(config: &Config, id: &str, cards: &Vec<Card>) -> (out: Json)
    ensures
        out@ == JsonValue::Object(
            seq![
                (
                    "identities"@,
                    JsonValue::List(
                        cards@.map_values(|card: Card| card_json(config@.games, id@, card)),
                    ),
                ),
            ],
        ),
{
    let mut items: Vec<Json> = Vec::new();
    let mut i: usize = 0;
    while i < cards.len()
        invariant
            i <= cards@.len(),
            items@.len() == i,
            forall|k: int|
                0 <= k < i ==> (#[trigger] items@[k])@ == card_json(
                    config@.games,
                    id@,
                    cards@[k],
                ),
        decreases cards@.len() - i,
    {
        items.push(card_value(config, id, &cards[i]));
        i += 1;
    }
    let ghost wanted = cards@.map_values(|card: Card| card_json(config@.games, id@, card));
    proof {
        json::items_view_items(items@);
        assert(json::items_view(items@) =~= wanted);
    }
    let out = with(no_members(), "identities", Json::List(items));
    assert(json::members_view(out@) =~= seq![("identities"@, JsonValue::List(wanted))]);
    Json::Object(out)
}

// ---------------------------------------------------------------------------------------------
// What holds of answers

/// The same answer twice is the answer once.
pub proof fn an_answer_can_be_repeated(
    game: Game,
    choice: Seq<char>,
    picked_id: Option<Seq<char>>,
    picked_key: Option<Seq<char>>,
    signature: Seq<char>,
)
    ensures
        answered(
            answered(game, choice, picked_id, picked_key, signature),
            choice,
            picked_id,
            picked_key,
            signature,
        ) == answered(game, choice, picked_id, picked_key, signature),
{
}

/// An answer about an identity that was picked binds the game to it.
pub proof fn a_picked_identity_is_bound(
    game: Game,
    cloud_id: Seq<char>,
    key: Seq<char>,
    signature: Seq<char>,
)
    ensures
        ({
            let after = answered(game, "pair"@, Some(cloud_id), Some(key), signature);
            &&& after.cloud_id == Some(cloud_id)
            &&& after.cloud_dir == Some(key)
            &&& after.cloud_conclusion == Some(confirmed(signature))
        }),
{
    reveal_strlit("ok");
    reveal_strlit("pair");
    assert("ok"@.len() == 2 && "pair"@.len() == 4);
}

/// An identity that another game here has is never taken silently.
pub proof fn a_taken_identity_is_asked_about(
    games: Seq<(Seq<char>, Game)>,
    id: Seq<char>,
    hits: Seq<Hit>,
)
    requires
        hits.len() > 0,
        is_taken(games, id, hits[0].cloud_id@),
    ensures
        hit(games, id, hits) == Found::<Seq<char>>::Many,
{
}

/// What the fingerprint of a program says: nothing where no identity has it; the identity where
/// there is exactly one and no other game here has that one; else the user has to say.
pub proof fn one_free_identity_is_taken(
    games: Seq<(Seq<char>, Game)>,
    id: Seq<char>,
    hits: Seq<Hit>,
)
    ensures
        hits.len() == 0 ==> hit(games, id, hits) == Found::<Seq<char>>::Nothing,
        hits.len() > 1 ==> hit(games, id, hits) == Found::<Seq<char>>::Many,
        hits.len() == 1 && (forall|i: int|
            0 <= i < games.len() && (#[trigger] games[i]).1.cloud_id == Some(hits[0].cloud_id@)
                ==> games[i].0 == id) ==> hit(games, id, hits) == (Found::One {
            cloud_id: hits[0].cloud_id@,
            cloud_key: hits[0].cloud_key@,
        }),
{
}

/// What a decision does to a game: an identity that the program told is taken down and confirmed,
/// a new game loses the identity it had, and any other decision leaves it as it is.
pub proof fn what_a_decision_does(
    game: Game,
    cloud_id: String,
    cloud_key: String,
    signature: Seq<char>,
    found: Option<crate::daemon::game_rpc::Suspect>,
)
    ensures
        decided(game, Decision::Adopt { cloud_id, cloud_key }, signature) == (Game {
            cloud_id: Some(cloud_id@),
            cloud_dir: Some(cloud_key@),
            cloud_conclusion: Some("ok:"@ + signature),
            ..game
        }),
        decided(game, Decision::Fresh, signature) == (Game {
            cloud_id: None,
            cloud_dir: None,
            cloud_conclusion: Some("ok:"@ + signature),
            ..game
        }),
        decided(game, Decision::Skip, signature) == game,
        decided(game, Decision::Pull, signature) == game,
        decided(game, Decision::Ask { found }, signature) == game,
{
}

/// What an answer of the user does to a game: `ok` confirms it, `pair` binds it to what was picked
/// or, without that, frees it for a new identity, and `off` switches its sync off. What was
/// answered is remembered for the target.
pub proof fn what_an_answer_does(
    game: Game,
    picked: Seq<char>,
    key: Seq<char>,
    signature: Seq<char>,
)
    ensures
        forall|a: Option<Seq<char>>, b: Option<Seq<char>>| #[trigger]
            answered(game, "ok"@, a, b, signature) == (Game {
                cloud_conclusion: Some("ok:"@ + signature),
                ..game
            }),
        answered(game, "pair"@, Some(picked), Some(key), signature) == (Game {
            cloud_id: Some(picked),
            cloud_dir: Some(key),
            cloud_conclusion: Some("ok:"@ + signature),
            ..game
        }),
        answered(game, "pair"@, None, None, signature) == (Game {
            cloud_id: None,
            cloud_dir: None,
            cloud_conclusion: Some("new:"@ + signature),
            ..game
        }),
        answered(game, "pair"@, Some(picked), None, signature) == answered(
            game,
            "pair"@,
            None,
            None,
            signature,
        ),
        answered(game, "pair"@, None, Some(key), signature) == answered(
            game,
            "pair"@,
            None,
            None,
            signature,
        ),
        forall|a: Option<Seq<char>>, b: Option<Seq<char>>| #[trigger]
            answered(game, "off"@, a, b, signature) == (Game {
                sync_enabled: false,
                cloud_conclusion: Some("off:"@ + signature),
                ..game
            }),
{
    reveal_strlit("ok");
    reveal_strlit("pair");
    reveal_strlit("off");
    assert("ok"@.len() == 2 && "pair"@.len() == 4 && "off"@.len() == 3);
}

/// An answer is taken where the sync has a target and the answer is one of the three; what changes
/// a game needs that game.
pub proof fn which_answers_are_taken(
    games: Seq<(Seq<char>, Game)>,
    id: Seq<char>,
    choice: Seq<char>,
    picked: bool,
    signature: Seq<char>,
)
    ensures
        answer_complaint(games, id, choice, picked, None) == Some("云同步还没配好目标（bucket）"@),
        answer_complaint(games, id, "ok"@, picked, Some(signature)) is None,
        answer_complaint(games, id, "pair"@, false, Some(signature)) is None,
        model::has_game(games, id) ==> answer_complaint(
            games,
            id,
            "pair"@,
            picked,
            Some(signature),
        ) is None && answer_complaint(games, id, "off"@, picked, Some(signature)) is None,
        !model::has_game(games, id) ==> answer_complaint(
            games,
            id,
            "pair"@,
            true,
            Some(signature),
        ) == Some("配置中找不到游戏: "@ + id) && answer_complaint(
            games,
            id,
            "off"@,
            picked,
            Some(signature),
        ) == Some("配置中找不到游戏: "@ + id),
        choice != "ok"@ && choice != "pair"@ && choice != "off"@ ==> answer_complaint(
            games,
            id,
            choice,
            picked,
            Some(signature),
        ) == Some("不认识的回答: "@ + choice),
{
    reveal_strlit("ok");
    reveal_strlit("pair");
    reveal_strlit("off");
    assert("ok"@.len() == 2 && "pair"@.len() == 4 && "off"@.len() == 3);
}

/// A change is to the game under the id, and without such a game there is none.
pub proof fn a_decision_is_about_one_game(
    games: Seq<(Seq<char>, Game)>,
    id: Seq<char>,
    game: Game,
    k: int,
)
    requires
        model::ids_are_distinct(games),
        0 <= k < games.len(),
    ensures
        changed(games, id, game).len() == games.len(),
        games[k].0 == id ==> changed(games, id, game)[k] == (id, game),
        games[k].0 != id ==> changed(games, id, game)[k] == games[k],
{
    model::position_is_first(games, id, 0);
    model::a_game_is_found_under_its_id(games, k);
    if model::has_game(games, id) {
        model::a_game_is_put_in_its_place(games, id, game, k);
    }
}

/// Who has an identity here: the first game that does.
pub proof fn the_first_owner_is_named(
    games: Seq<(Seq<char>, Game)>,
    cloud_id: Seq<char>,
    from: int,
)
    requires
        0 <= from,
    ensures
        match owner(games, cloud_id, from) {
            Some(name) => exists|i: int|
                from <= i < games.len() && (#[trigger] games[i]).1.cloud_id == Some(cloud_id)
                    && games[i].1.name == name && forall|k: int|
                    from <= k < i ==> (#[trigger] games[k]).1.cloud_id != Some(cloud_id),
            None => forall|i: int|
                from <= i < games.len() ==> (#[trigger] games[i]).1.cloud_id != Some(cloud_id),
        },
    decreases games.len() - from,
{
    if from < games.len() {
        if games[from].1.cloud_id == Some(cloud_id) {
            assert(games[from].1.name == games[from].1.name);
        } else {
            the_first_owner_is_named(games, cloud_id, from + 1);
        }
    }
}

/// An identity is offered with its place, its name, how many machines have it, whether it is the one of
/// this game, and which game here has it.
pub proof fn an_identity_is_offered(games: Seq<(Seq<char>, Game)>, i: int, card: Card)
    requires
        model::ids_are_distinct(games),
        0 <= i < games.len(),
    ensures
        json::has_member(card_json(games, games[i].0, card), "cloud_key"@, JsonValue::Text(card.cloud_key@)),
        json::has_member(card_json(games, games[i].0, card), "cloud_id"@, JsonValue::Text(card.cloud_id@)),
        json::has_member(card_json(games, games[i].0, card), "name"@, JsonValue::Text(card.name@)),
        json::has_member(card_json(games, games[i].0, card), "machines"@, JsonValue::Number(card.machines as int)),
        json::has_member(card_json(games, games[i].0, card), "mine"@, JsonValue::Bool(games[i].1.cloud_id == Some(card.cloud_id@))),
        json::has_member(card_json(games, games[i].0, card), "taken_by"@, json::optional_text(owner(games, card.cloud_id@, 0))),
{
    model::a_game_is_found_under_its_id(games, i);
    let members = card_json(games, games[i].0, card)->Object_0;
    assert(members[0] == ("cloud_key"@, JsonValue::Text(card.cloud_key@)));
    assert(members[1] == ("cloud_id"@, JsonValue::Text(card.cloud_id@)));
    assert(members[2] == ("name"@, JsonValue::Text(card.name@)));
    assert(members[3] == ("machines"@, JsonValue::Number(card.machines as int)));
    assert(members[4] == ("mine"@, JsonValue::Bool(games[i].1.cloud_id == Some(card.cloud_id@))));
    assert(members[5] == ("taken_by"@, json::optional_text(owner(games, card.cloud_id@, 0))));
}

/// An identity that another game here has is asked about, even where it is the only one.
pub proof fn an_identity_of_another_game_is_asked_about(
    games: Seq<(Seq<char>, Game)>,
    id: Seq<char>,
    hits: Seq<Hit>,
    k: int,
)
    requires
        hits.len() > 0,
        0 <= k < games.len(),
        games[k].0 != id,
        games[k].1.cloud_id == Some(hits[0].cloud_id@),
    ensures
        hit(games, id, hits) == Found::<Seq<char>>::Many,
{
    assert(is_taken(games, id, hits[0].cloud_id@));
}

} // verus!
