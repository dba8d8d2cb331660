//! The index of the cloud: what it holds of each game.

use crate::config::model;
use crate::config::model::Config;
use crate::daemon::game_write;
use crate::daemon::sync::rows::IndexGame;
use crate::text::chars;
use crate::text::glue::glue2;
use crate::text::keyed::Keyed;
use vstd::prelude::*;

verus! {

/// How often the index is fetched anew by itself.
pub const INDEX_REFRESH_SECONDS: u64 = 3600;

pub open spec fn last_text(list: Seq<Seq<char>>) -> Option<Seq<char>> {
    if list.len() == 0 {
        None
    } else {
        Some(list.last())
    }
}

/// What the index is to say of a game after an upload: `programs` are those that this machine
/// uses, and `versions` what the cloud has, the oldest first.
pub fn index_entry(
    config: &Config,
    id: &str,
    cloud_key: &str,
    programs: Vec<String>,
    versions: &Vec<String>,
) -> (out: Result<IndexGame, String>)
    ensures
        match out {
            Ok(entry) => {
                let game = model::game_at(config@.games, id@);
                model::has_game(config@.games, id@) && game.cloud_id == Some(entry.cloud_id@)
                    && entry.cloud_key@ == cloud_key@ && entry.name@ == game.name
                    && entry.machines@ == seq![programs] && entry.versions == versions@.len()
                    && chars::text_view(entry.latest) == last_text(chars::texts(versions@))
                    && entry.size == 0
            },
            Err(message) => if !model::has_game(config@.games, id@) {
                message@ == game_write::unknown_game(id@)
            } else {
                model::game_at(config@.games, id@).cloud_id is None && message@ == id@
                    + " 还没有云端身份"@
            },
        },
{
    let game = match config.game(id) {
        Some(game) => game,
        None => {
            return Err(glue2("配置中找不到游戏: ", id));
        },
    };
    let cloud_id = match &game.cloud_id {
        Some(cloud_id) => cloud_id.clone(),
        None => {
            return Err(glue2(id, " 还没有云端身份"));
        },
    };
    let total: usize = versions.len();
    let latest: Option<String> = if total == 0 {
        None
    } else {
        Some(versions[total - 1].clone())
    };
    let mut machines: Vec<Vec<String>> = Vec::new();
    machines.push(programs);
    assert(machines@ =~= seq![programs]);
    Ok(
        IndexGame {
            cloud_key: cloud_key.to_owned(),
            cloud_id,
            name: game.name.clone(),
            machines,
            versions: total as u64,
            latest,
            size: 0,
        },
    )
}

pub open spec fn count_of(counts: Map<Seq<char>, u64>, key: Seq<char>) -> u64 {
    if counts.dom().contains(key) {
        counts[key]
    } else {
        0
    }
}

/// The index written anew from the identities: each game with the number of its versions, and 0
/// where it is not known.
pub fn rebuild_entries(cards: Vec<IndexGame>, counts: &Keyed<u64>) -> (out: Vec<IndexGame>)
    requires
        counts.wf(),
    ensures
        out@ == cards@.map_values(
            |card: IndexGame| IndexGame { versions: count_of(counts@, card.cloud_key@), ..card },
        ),
{
    let ghost all = cards@;
    let mut rest = cards;
    let mut out: Vec<IndexGame> = Vec::new();
    let total: usize = rest.len();
    let mut i: usize = 0;
    while i < total
        invariant
            i <= total == all.len(),
            counts.wf(),
            rest@ == all.skip(i as int),
            out@.len() == i,
            forall|k: int|
                0 <= k < i ==> #[trigger] out@[k] == (IndexGame {
                    versions: count_of(counts@, all[k].cloud_key@),
                    ..all[k]
                }),
        decreases total - i,
    {
        let mut card = rest.remove(0);
        assert(rest@ =~= all.skip(i + 1));
        card.versions = match counts.get(card.cloud_key.as_str()) {
            Some(count) => *count,
            None => 0,
        };
        out.push(card);
        i += 1;
    }
    assert(out@ =~= all.map_values(
        |card: IndexGame| IndexGame { versions: count_of(counts@, card.cloud_key@), ..card },
    ));
    out
}

/// The newest version is the last one, and a game without versions has none; a number that is not
/// known counts as zero. The index is fetched anew every hour.
pub proof fn what_the_index_says(list: Seq<Seq<char>>, own: Seq<char>, counts: Map<Seq<char>, u64>)
    ensures
        last_text(list.push(own)) == Some(own),
        last_text(Seq::empty()) is None,
        counts.contains_key(own) ==> count_of(counts, own) == counts[own],
        !counts.contains_key(own) ==> count_of(counts, own) == 0,
        INDEX_REFRESH_SECONDS == 3600,
{
}

} // verus!
