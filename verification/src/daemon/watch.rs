//! Noticing games that somebody else started.
//!
//! Every few seconds the daemon looks at the processes. A game that is to be watched, whose
//! process runs and which has no session yet, gets one that follows it. It has to be seen in two
//! rounds: a game that kotori has just started has its session a moment after its process.

use crate::config::model;
use crate::config::model::{Config, Game, GameConfig};
use crate::config::profile::{Profile, ScaleProfile};
use crate::daemon::session::Session;
use crate::game::listing;
use crate::game::listing::positions_by_id;
use crate::path::FsPath;
use crate::text::chars;
use crate::text::chars::same_text;
use crate::text::keyed::Keyed;
use crate::text::order;
use vstd::prelude::*;

verus! {

/// How long a round takes, in milliseconds: a process has to be there for that long.
pub const WATCH_POLL: u64 = 2000;

// ---------------------------------------------------------------------------------------------
// The games to look for

/// A game to look for, and the name of its process.
pub struct Watched {
    pub id: String,
    pub name: String,
    pub game_dir: FsPath,
    pub profile: ScaleProfile,
}

/// What is looked for.
pub struct Sought {
    pub id: Seq<char>,
    pub name: Seq<char>,
    pub game_dir: Seq<u8>,
    pub profile: Profile,
}

impl View for Watched {
    type V = Sought;

    open spec fn view(&self) -> Sought {
        Sought {
            id: self.id@,
            name: self.name@,
            game_dir: self.game_dir@,
            profile: self.profile@,
        }
    }
}

pub open spec fn watched_view(list: Seq<Watched>) -> Seq<Sought> {
    list.map_values(|one: Watched| one@)
}

/// A game that is to be watched, where the name of its process is known.
pub open spec fn sought(id: Seq<char>, game: Game) -> Option<Sought> {
    match model::watched_name(game) {
        Some(name) => if game.auto_watch {
            Some(Sought { id, name, game_dir: model::started_in(game), profile: game.scale_profile })
        } else {
            None
        },
        None => None,
    }
}

/// The games to look for among those at the given positions.
pub open spec fn all_sought(games: Seq<(Seq<char>, Game)>, order: Seq<int>) -> Seq<Sought>
    decreases order.len(),
{
    if order.len() == 0 {
        Seq::empty()
    } else {
        let before = all_sought(games, order.drop_last());
        let (id, game) = games[order.last()];
        match sought(id, game) {
            Some(one) => before.push(one),
            None => before,
        }
    }
}

/// The games to look for, in the order of their ids: where a process could be more than one of
/// them, the first one gets it.
pub open spec fn to_look_for(games: Seq<(Seq<char>, Game)>) -> Seq<Sought> {
    all_sought(games, listing::id_order(games))
}

fn watched(id: &str, game: &GameConfig) -> (out: Option<Watched>)
    ensures
        match out {
            Some(one) => sought(id@, game@) == Some(one@),
            None => sought(id@, game@) is None,
        },
{
    if !game.auto_watch {
        return None;
    }
    match game.watch_name() {
        Some(name) => Some(
            Watched {
                id: id.to_owned(),
                name,
                game_dir: game.effective_game_dir(),
                profile: game.scale_profile.copy(),
            },
        ),
        None => None,
    }
}

pub fn games_to_look_for(config: &Config) -> (out: Vec<Watched>)
    ensures
        watched_view(out@) == to_look_for(config@.games),
{
    let ghost games = config@.games;
    let positions = positions_by_id(config);
    let ghost all = order::positions_view(positions@);
    let mut out: Vec<Watched> = Vec::new();
    let mut k: usize = 0;
    assert(watched_view(out@) =~= all_sought(games, all.take(0)));
    while k < positions.len()
        invariant
            k <= positions@.len(),
            games == config@.games,
            all == order::positions_view(positions@),
            forall|j: int| 0 <= j < positions@.len() ==> #[trigger] positions@[j] < games.len(),
            watched_view(out@) == all_sought(games, all.take(k as int)),
        decreases positions@.len() - k,
    {
        let at = positions[k];
        assert(all.take(k + 1).drop_last() =~= all.take(k as int));
        assert(all.take(k + 1).last() == at);
        assert(games[at as int] == (config.games@[at as int].0@, config.games@[at as int].1@));
        match watched(config.games[at].0.as_str(), &config.games[at].1) {
            Some(one) => {
                let ghost before = out@;
                out.push(one);
                assert(watched_view(out@) =~= watched_view(before).push(one@));
            },
            None => {},
        }
        k += 1;
    }
    assert(all.take(k as int) =~= all);
    out
}

/// Those whose process runs: `running` says so for each of the list.
pub open spec fn that_run(list: Seq<Sought>, running: Seq<bool>, n: int) -> Seq<Sought>
    decreases n,
{
    if n <= 0 {
        Seq::empty()
    } else {
        let before = that_run(list, running, n - 1);
        if running[n - 1] {
            before.push(list[n - 1])
        } else {
            before
        }
    }
}

pub fn candidates(list: &Vec<Watched>, running: &Vec<bool>) -> (out: Vec<usize>)
    requires
        running@.len() == list@.len(),
    ensures
        out@.len() == that_run(watched_view(list@), running@, list@.len() as int).len(),
        forall|k: int|
            0 <= k < out@.len() ==> (#[trigger] out@[k]) < list@.len()
                && list@[out@[k] as int]@ == that_run(
                watched_view(list@),
                running@,
                list@.len() as int,
            )[k],
{
    let mut out: Vec<usize> = Vec::new();
    let mut i: usize = 0;
    while i < list.len()
        invariant
            i <= list@.len() == running@.len(),
            out@.len() == that_run(watched_view(list@), running@, i as int).len(),
            forall|k: int|
                0 <= k < out@.len() ==> (#[trigger] out@[k]) < list@.len()
                    && list@[out@[k] as int]@ == that_run(
                    watched_view(list@),
                    running@,
                    i as int,
                )[k],
        decreases list@.len() - i,
    {
        if running[i] {
            out.push(i);
            assert(watched_view(list@)[i as int] == list@[i as int]@);
        }
        i += 1;
    }
    out
}

// ---------------------------------------------------------------------------------------------
// A round

/// What the daemon remembers from round to round.
pub struct Watch {
    /// When a process was seen first, in milliseconds of a clock that only goes forward.
    pub first_seen: Keyed<u64>,
    /// The games that could not be followed, so that it is said once.
    pub complained: Keyed<bool>,
    /// The runs that the user stopped by hand.
    pub ignored: Keyed<Vec<i32>>,
    /// The names of the processes that some session goes by, those of this round counted.
    pub claimed: Vec<String>,
}

impl Watch {
    pub open spec fn wf(&self) -> bool {
        self.first_seen.wf() && self.complained.wf() && self.ignored.wf()
    }

    pub fn new() -> (watch: Watch)
        ensures
            watch.wf(),
            watch.first_seen@ == Map::<Seq<char>, u64>::empty(),
            watch.complained@ == Map::<Seq<char>, bool>::empty(),
            watch.ignored@ == Map::<Seq<char>, Vec<i32>>::empty(),
            watch.claimed@.len() == 0,
    {
        Watch {
            first_seen: Keyed::new(),
            complained: Keyed::new(),
            ignored: Keyed::new(),
            claimed: Vec::new(),
        }
    }

    /// Starts a round: what was remembered of a game whose process is gone is forgotten, and the
    /// sessions of this moment claim their processes. `ids` are the games whose process runs.
    pub fn start_round(&mut self, ids: &Vec<String>, live: &Vec<Session>)
        requires
            old(self).wf(),
        ensures
            final(self).wf(),
            final(self).first_seen@ == old(self).first_seen@.restrict(
                chars::texts(ids@).to_set(),
            ),
            final(self).complained@ == old(self).complained@.restrict(
                chars::texts(ids@).to_set(),
            ),
            final(self).ignored@ == old(self).ignored@.restrict(chars::texts(ids@).to_set()),
            chars::texts(final(self).claimed@) == claimed_by(live@, live@.len() as int),
    {
        self.first_seen.keep(ids);
        self.complained.keep(ids);
        self.ignored.keep(ids);
        self.claimed = claimed_names(live);
    }
}

/// The run of a game is one that the user stopped: one of its processes was there then.
pub open spec fn was_stopped(
    ignored: Map<Seq<char>, Vec<i32>>,
    id: Seq<char>,
    pids: Seq<i32>,
) -> bool {
    ignored.dom().contains(id) && exists|i: int|
        0 <= i < ignored[id]@.len() && pids.contains(#[trigger] ignored[id]@[i])
}

/// A game has a session.
pub open spec fn has_session(live: Seq<Session>, id: Seq<char>) -> bool {
    exists|i: int|
        0 <= i < live.len() && chars::text_view((#[trigger] live[i]).game_id) == Some(id)
}

/// The moment a process was seen first, with this round counted.
pub open spec fn seen_since(first_seen: Map<Seq<char>, u64>, id: Seq<char>, now: u64) -> u64 {
    if first_seen.dom().contains(id) {
        first_seen[id]
    } else {
        now
    }
}

fn pid_in(pids: &Vec<i32>, pid: i32) -> (yes: bool)
    ensures
        yes == pids@.contains(pid),
{
    let mut i: usize = 0;
    while i < pids.len()
        invariant
            i <= pids@.len(),
            forall|k: int| 0 <= k < i ==> pids@[k] != pid,
        decreases pids@.len() - i,
    {
        if pids[i] == pid {
            return true;
        }
        i += 1;
    }
    false
}

fn stopped(ignored: &Keyed<Vec<i32>>, id: &str, pids: &Vec<i32>) -> (yes: bool)
    requires
        ignored.wf(),
    ensures
        yes == was_stopped(ignored@, id@, pids@),
{
    match ignored.get(id) {
        Some(then) => {
            let mut i: usize = 0;
            while i < then.len()
                invariant
                    i <= then@.len(),
                    ignored@.dom().contains(id@),
                    *then == ignored@[id@],
                    forall|k: int| 0 <= k < i ==> !pids@.contains(#[trigger] then@[k]),
                decreases then@.len() - i,
            {
                if pid_in(pids, then[i]) {
                    assert(pids@.contains(ignored@[id@]@[i as int]));
                    return true;
                }
                i += 1;
            }
            false
        },
        None => false,
    }
}

fn in_session(live: &Vec<Session>, id: &str) -> (yes: bool)
    ensures
        yes == has_session(live@, id@),
{
    let mut i: usize = 0;
    while i < live.len()
        invariant
            i <= live@.len(),
            forall|k: int|
                0 <= k < i ==> chars::text_view((#[trigger] live@[k]).game_id) != Some(id@),
        decreases live@.len() - i,
    {
        match &live[i].game_id {
            Some(own) => if same_text(own.as_str(), id) {
                assert(chars::text_view(live@[i as int].game_id) == Some(id@));
                return true;
            },
            None => {},
        }
        i += 1;
    }
    false
}

/// The names of the processes that sessions go by.
pub open spec fn claimed_by(live: Seq<Session>, n: int) -> Seq<Seq<char>>
    decreases n,
{
    if n <= 0 {
        Seq::empty()
    } else {
        let before = claimed_by(live, n - 1);
        match chars::text_view(live[n - 1].process_name) {
            Some(name) => before.push(name),
            None => before,
        }
    }
}

/// The names that are taken at the start of a round.
pub fn claimed_names(live: &Vec<Session>) -> (out: Vec<String>)
    ensures
        chars::texts(out@) == claimed_by(live@, live@.len() as int),
{
    let mut out: Vec<String> = Vec::new();
    let mut i: usize = 0;
    assert(chars::texts(out@) =~= claimed_by(live@, 0));
    while i < live.len()
        invariant
            i <= live@.len(),
            chars::texts(out@) == claimed_by(live@, i as int),
        decreases live@.len() - i,
    {
        match &live[i].process_name {
            Some(name) => {
                let ghost before = out@;
                out.push(name.clone());
                assert(chars::texts(out@) =~= chars::texts(before).push(name@));
            },
            None => {},
        }
        i += 1;
    }
    out
}

/// A process is claimed: one of the names that are taken means the same program. `same` says
/// so for each of them.
pub open spec fn is_claimed(same: Seq<bool>) -> bool {
    exists|i: int| 0 <= i < same.len() && #[trigger] same[i]
}

fn any_true(flags: &Vec<bool>) -> (yes: bool)
    ensures
        yes == is_claimed(flags@),
{
    let mut i: usize = 0;
    while i < flags.len()
        invariant
            i <= flags@.len(),
            forall|k: int| 0 <= k < i ==> !(#[trigger] flags@[k]),
        decreases flags@.len() - i,
    {
        if flags[i] {
            return true;
        }
        i += 1;
    }
    false
}

/// A game is considered: not the run that was stopped, not one with a session, and not one
/// whose process another game has.
pub open spec fn is_open(
    ignored: Map<Seq<char>, Vec<i32>>,
    live: Seq<Session>,
    id: Seq<char>,
    pids: Seq<i32>,
    claimed: bool,
) -> bool {
    !was_stopped(ignored, id, pids) && !has_session(live, id) && !claimed
}

impl Watch {
    /// Whether to follow a game now. `pids` are the processes with its name, `same` says for each
    /// name that is taken whether it means the program of the game, and `now` is the time. A game
    /// that is considered is remembered from its first round on, and followed from the second on.
    pub fn consider(
        &mut self,
        live: &Vec<Session>,
        game: &Watched,
        pids: &Vec<i32>,
        same: &Vec<bool>,
        now: u64,
    ) -> (follow: bool)
        requires
            old(self).wf(),
            same@.len() == old(self).claimed@.len(),
        ensures
            final(self).wf(),
            final(self).ignored@ == old(self).ignored@,
            final(self).complained@ == old(self).complained@,
            final(self).claimed == old(self).claimed,
            ({
                let id = game.id@;
                let open = is_open(old(self).ignored@, live@, id, pids@, is_claimed(same@));
                let since = seen_since(old(self).first_seen@, id, now);
                &&& final(self).first_seen@ == if open {
                    old(self).first_seen@.insert(id, since)
                } else {
                    old(self).first_seen@
                }
                &&& follow == (open && now - since >= WATCH_POLL
                    && !old(self).complained@.dom().contains(id))
            }),
    {
        let id = game.id.as_str();
        if stopped(&self.ignored, id, pids) || in_session(live, id) || any_true(same) {
            return false;
        }
        let ghost before = self.first_seen@;
        let since: u64 = match self.first_seen.get(id) {
            Some(since) => *since,
            None => now,
        };
        self.first_seen.insert(id, since);
        if now < since || now - since < WATCH_POLL {
            return false;
        }
        self.complained.get(id).is_none()
    }

    /// A game is followed now, and its process is claimed for the rest of the round.
    pub fn followed(&mut self, game: &Watched)
        requires
            old(self).wf(),
        ensures
            final(self).wf(),
            final(self).first_seen@ == old(self).first_seen@.remove(game.id@),
            final(self).complained@ == old(self).complained@,
            final(self).ignored@ == old(self).ignored@,
            chars::texts(final(self).claimed@) == chars::texts(old(self).claimed@).push(game.name@),
    {
        self.first_seen.remove(game.id.as_str());
        let ghost before = self.claimed@;
        self.claimed.push(game.name.clone());
        assert(chars::texts(self.claimed@) =~= chars::texts(before).push(game.name@));
    }

    /// A game could not be followed: it is not tried again while its process runs.
    pub fn failed(&mut self, id: &str)
        requires
            old(self).wf(),
        ensures
            final(self).wf(),
            final(self).complained@ == old(self).complained@.insert(id@, true),
            final(self).first_seen@ == old(self).first_seen@,
            final(self).ignored@ == old(self).ignored@,
            final(self).claimed == old(self).claimed,
    {
        self.complained.insert(id, true);
    }
}

// ---------------------------------------------------------------------------------------------
// What holds of rounds

/// A process is never followed in the round in which it is seen first.
pub proof fn a_first_sight_is_not_enough(first_seen: Map<Seq<char>, u64>, id: Seq<char>, now: u64)
    requires
        !first_seen.dom().contains(id),
    ensures
        now - seen_since(first_seen, id, now) < WATCH_POLL,
{
}

/// A run that the user stopped is not followed again, and a run with new processes is.
pub proof fn a_stopped_run_stays_stopped(
    ignored: Map<Seq<char>, Vec<i32>>,
    live: Seq<Session>,
    id: Seq<char>,
    then: Vec<i32>,
    pids: Seq<i32>,
)
    ensures
        (exists|i: int| 0 <= i < then@.len() && pids.contains(#[trigger] then@[i])) ==> !is_open(
            ignored.insert(id, then),
            live,
            id,
            pids,
            false,
        ),
        (forall|i: int| 0 <= i < then@.len() ==> !pids.contains(#[trigger] then@[i])) && !has_session(
            live,
            id,
        ) ==> is_open(ignored.insert(id, then), live, id, pids, false),
{
    let after = ignored.insert(id, then);
    assert(after[id] == then);
    if exists|i: int| 0 <= i < then@.len() && pids.contains(#[trigger] then@[i]) {
        let i = choose|i: int| 0 <= i < then@.len() && pids.contains(#[trigger] then@[i]);
        assert(pids.contains(after[id]@[i]));
        assert(was_stopped(after, id, pids));
    }
}

/// A game with a session gets no second one.
pub proof fn one_session_for_a_game(
    ignored: Map<Seq<char>, Vec<i32>>,
    live: Seq<Session>,
    id: Seq<char>,
    pids: Seq<i32>,
    claimed: bool,
)
    requires
        has_session(live, id),
    ensures
        !is_open(ignored, live, id, pids, claimed),
{
}

/// One process is never two games: once a game is followed, another one whose program goes by
/// the same name is left alone in that round, and so is one whose process a session has.
pub proof fn a_claimed_process_is_left_alone(
    ignored: Map<Seq<char>, Vec<i32>>,
    live: Seq<Session>,
    id: Seq<char>,
    pids: Seq<i32>,
    before: Seq<bool>,
    after: Seq<bool>,
)
    ensures
        !is_open(ignored, live, id, pids, is_claimed(before.push(true) + after)),
        is_claimed(before) ==> is_claimed(before + after),
{
    let same = before.push(true) + after;
    assert(same[before.len() as int]);
    if is_claimed(before) {
        let i = choose|i: int| 0 <= i < before.len() && #[trigger] before[i];
        assert((before + after)[i]);
    }
}

/// What is remembered of a game is forgotten once its process is gone, so the next run is
/// followed again.
pub proof fn a_game_that_is_gone_is_forgotten(
    ignored: Map<Seq<char>, Vec<i32>>,
    ids: Seq<Seq<char>>,
    id: Seq<char>,
    pids: Seq<i32>,
)
    requires
        !ids.contains(id),
    ensures
        !was_stopped(ignored.restrict(ids.to_set()), id, pids),
{
}

/// A game is looked for exactly where it is to be watched and its process has a name: under that
/// name, with the directory it is started in and its own profile.
pub proof fn every_watched_game_is_looked_for(id: Seq<char>, game: Game)
    ensures
        sought(id, game) is Some <==> game.auto_watch && model::watched_name(game) is Some,
        sought(id, game) is Some ==> {
            let one = sought(id, game).unwrap();
            &&& one.id == id
            &&& one.name == model::watched_name(game).unwrap()
            &&& one.game_dir == model::started_in(game)
            &&& one.profile == game.scale_profile
        },
{
}

proof fn lemma_all_sought(games: Seq<(Seq<char>, Game)>, order: Seq<int>)
    ensures
        forall|k: int|
            0 <= k < order.len() ==> match sought(
                games[#[trigger] order[k]].0,
                games[order[k]].1,
            ) {
                Some(one) => all_sought(games, order).contains(one),
                None => true,
            },
        forall|j: int|
            0 <= j < all_sought(games, order).len() ==> exists|k: int|
                0 <= k < order.len() && sought(
                    games[#[trigger] order[k]].0,
                    games[order[k]].1,
                ) == Some(#[trigger] all_sought(games, order)[j]),
    decreases order.len(),
{
    if order.len() > 0 {
        let front = order.drop_last();
        lemma_all_sought(games, front);
        let before = all_sought(games, front);
        let all = all_sought(games, order);
        assert forall|k: int| 0 <= k < order.len() implies match sought(
            games[#[trigger] order[k]].0,
            games[order[k]].1,
        ) {
            Some(one) => all.contains(one),
            None => true,
        } by {
            match sought(games[order[k]].0, games[order[k]].1) {
                Some(one) => {
                    if k < front.len() {
                        assert(front[k] == order[k]);
                        let j = before.index_of(one);
                        assert(all[j] == one);
                    } else {
                        assert(all[all.len() - 1] == one);
                    }
                },
                None => {},
            }
        }
        assert forall|j: int| 0 <= j < all.len() implies exists|k: int|
            0 <= k < order.len() && sought(games[#[trigger] order[k]].0, games[order[k]].1) == Some(
                #[trigger] all[j],
            ) by {
            if j < before.len() {
                assert(before[j] == all[j]);
                let k = choose|k: int|
                    0 <= k < front.len() && sought(
                        games[#[trigger] front[k]].0,
                        games[front[k]].1,
                    ) == Some(before[j]);
                assert(order[k] == front[k]);
            } else {
                assert(order[order.len() - 1] == order.last());
            }
        }
    }
}

/// Every game of the library that is to be watched is looked for, and no other.
pub proof fn no_watched_game_is_left_out(games: Seq<(Seq<char>, Game)>, i: int)
    requires
        0 <= i < games.len(),
    ensures
        games[i].1.auto_watch && model::watched_name(games[i].1) is Some ==> exists|k: int|
            0 <= k < to_look_for(games).len() && (#[trigger] to_look_for(games)[k]).id
                == games[i].0 && to_look_for(games)[k].name == model::watched_name(
                games[i].1,
            ).unwrap(),
        forall|k: int|
            0 <= k < to_look_for(games).len() ==> exists|j: int|
                0 <= j < games.len() && (#[trigger] games[j]).1.auto_watch && games[j].0 == (
                #[trigger] to_look_for(games)[k]).id,
{
    let order = listing::id_order(games);
    listing::every_game_has_its_turn(games, i);
    lemma_all_sought(games, order);
    let at = choose|at: int| 0 <= at < order.len() && #[trigger] order[at] == i;
    if games[i].1.auto_watch && model::watched_name(games[i].1) is Some {
        let one = sought(games[order[at]].0, games[order[at]].1).unwrap();
        let k = to_look_for(games).index_of(one);
        assert(to_look_for(games)[k] == one);
    }
    assert forall|k: int| 0 <= k < to_look_for(games).len() implies exists|j: int|
        0 <= j < games.len() && (#[trigger] games[j]).1.auto_watch && games[j].0 == (
        #[trigger] to_look_for(games)[k]).id by {
        let at = choose|at: int|
            0 <= at < order.len() && sought(games[#[trigger] order[at]].0, games[order[at]].1)
                == Some(to_look_for(games)[k]);
        let j = order[at];
        assert(games[j].1.auto_watch);
    }
}

/// Of the games that are looked for those are considered whose process runs, in the same order.
pub proof fn those_that_run_are_considered(list: Seq<Sought>, running: Seq<bool>, n: int)
    requires
        0 <= n <= list.len() == running.len(),
    ensures
        forall|i: int|
            0 <= i < n && running[i] ==> that_run(list, running, n).contains(#[trigger] list[i]),
        forall|one: Sought| #[trigger]
            that_run(list, running, n).contains(one) ==> exists|i: int|
                0 <= i < n && running[i] && #[trigger] list[i] == one,
        (forall|i: int| 0 <= i < n ==> #[trigger] running[i]) ==> that_run(list, running, n)
            == list.take(n),
    decreases n,
{
    if n > 0 {
        those_that_run_are_considered(list, running, n - 1);
        let before = that_run(list, running, n - 1);
        let all = that_run(list, running, n);
        assert forall|i: int| 0 <= i < n && running[i] implies all.contains(#[trigger] list[i]) by {
            if i < n - 1 {
                let k = before.index_of(list[i]);
                assert(all[k] == list[i]);
            } else {
                assert(all[all.len() - 1] == list[i]);
            }
        }
        assert forall|one: Sought| #[trigger] all.contains(one) implies exists|i: int|
            0 <= i < n && running[i] && #[trigger] list[i] == one by {
            let k = all.index_of(one);
            if k < before.len() {
                assert(before[k] == one);
                assert(before.contains(one));
                let i = choose|i: int| 0 <= i < n - 1 && running[i] && #[trigger] list[i] == one;
                assert(running[i] && list[i] == one);
            } else {
                assert(running[n - 1] && list[n - 1] == one);
            }
        }
        assert(that_run(list, running, n) == all);
        if forall|i: int| 0 <= i < n ==> #[trigger] running[i] {
            assert(running[n - 1]);
            assert(all =~= list.take(n)) by {
                assert(before =~= list.take(n - 1));
            }
        }
    } else {
        assert(that_run(list, running, n) =~= list.take(n));
    }
}

/// A game is considered as soon as no session has it, no taken name means its program, and none
/// of its processes was there when the user stopped it; and only then.
pub proof fn what_keeps_a_game_from_being_followed(
    ignored: Map<Seq<char>, Vec<i32>>,
    live: Seq<Session>,
    id: Seq<char>,
    pids: Seq<i32>,
    same: Seq<bool>,
)
    ensures
        is_open(ignored, live, id, pids, is_claimed(same)) <==> {
            &&& forall|i: int| 0 <= i < same.len() ==> !(#[trigger] same[i])
            &&& forall|i: int|
                0 <= i < live.len() && (#[trigger] live[i]).game_id is Some
                    ==> live[i].game_id.unwrap()@ != id
            &&& ignored.contains_key(id) ==> forall|i: int|
                0 <= i < ignored[id]@.len() ==> !pids.contains(#[trigger] ignored[id]@[i])
        },
{
}

/// A process has to be there for two seconds: what counts is when it was seen first, and a later
/// round does not change that.
pub proof fn two_seconds_make_a_run(
    first_seen: Map<Seq<char>, u64>,
    id: Seq<char>,
    then: u64,
    now: u64,
)
    ensures
        WATCH_POLL == 2000,
        seen_since(first_seen.insert(id, then), id, now) == then,
        !first_seen.contains_key(id) ==> seen_since(first_seen, id, now) == now,
        ({
            let after = first_seen.insert(id, seen_since(first_seen, id, then));
            seen_since(after, id, now) == seen_since(first_seen, id, then)
        }),
{
}

/// The names that sessions go by are taken, and no other.
pub proof fn sessions_take_their_names(live: Seq<Session>, n: int)
    requires
        0 <= n <= live.len(),
    ensures
        forall|i: int|
            0 <= i < n && (#[trigger] live[i]).process_name is Some ==> claimed_by(live, n).contains(
                live[i].process_name.unwrap()@,
            ),
        claimed_by(live, n).len() <= n,
        (forall|i: int| 0 <= i < n ==> (#[trigger] live[i]).process_name is None) ==> claimed_by(
            live,
            n,
        ).len() == 0,
    decreases n,
{
    if n > 0 {
        sessions_take_their_names(live, n - 1);
        let before = claimed_by(live, n - 1);
        let all = claimed_by(live, n);
        assert(live[n - 1].process_name is None ==> all == before);
        assert forall|i: int| 0 <= i < n && (#[trigger] live[i]).process_name is Some implies all.contains(
            live[i].process_name.unwrap()@,
        ) by {
            let name = live[i].process_name.unwrap()@;
            if i < n - 1 {
                let k = before.index_of(name);
                assert(all[k] == name);
            } else {
                assert(all[all.len() - 1] == name);
            }
        }
    }
}

} // verus!
