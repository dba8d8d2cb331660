//! The ids of games.

use crate::config::model;
use crate::config::model::{Config, Game};
use crate::text::chars;
use crate::text::chars::{chars_of, is_letter_or_digit, to_ascii_lower};
use crate::text::number;
use crate::text::number::wide_number_text;
use crate::text::split;
use crate::text::split::{joined, split_at_char};
use vstd::prelude::*;
use vstd::string::StringExecFns;

verus! {

/// What a character of a name becomes in an id: letters and digits, `-` and `_` stay, in lower
/// case where they are ASCII letters; everything else becomes a dash.
pub open spec fn id_char(c: char) -> char {
    if chars::is_alnum(c) || c == '-' || c == '_' {
        chars::ascii_lower(c)
    } else {
        '-'
    }
}

pub open spec fn id_chars(name: Seq<char>) -> Seq<char> {
    Seq::new(name.len(), |i: int| id_char(name[i]))
}

/// The pieces that are not empty, in their order.
pub open spec fn not_empty(pieces: Seq<Seq<char>>) -> Seq<Seq<char>>
    decreases pieces.len(),
{
    if pieces.len() == 0 {
        Seq::empty()
    } else {
        let before = not_empty(pieces.drop_last());
        if pieces.last().len() > 0 {
            before.push(pieces.last())
        } else {
            before
        }
    }
}

/// The id that a name gives: its pieces between dashes, joined by single dashes.
pub open spec fn game_id(name: Seq<char>) -> Seq<char> {
    split::join(not_empty(split::split(id_chars(name), '-')), "-"@)
}

/// The ids that are tried for a name: the id itself, then the id with `-2`, `-3` and so on.
pub open spec fn candidate(base: Seq<char>, n: nat) -> Seq<char> {
    if n <= 1 {
        base
    } else {
        base + "-"@ + number::decimal(n)
    }
}

/// The first candidate from the n-th on that no game has.
pub open spec fn free_candidate(games: Seq<(Seq<char>, Game)>, base: Seq<char>, n: nat, id: Seq<
    char,
>) -> bool {
    exists|k: nat|
        n <= k && id == #[trigger] candidate(base, k) && !model::has_game(games, id) && forall|j: nat|
            n <= j < k ==> model::has_game(games, #[trigger] candidate(base, j))
}

/// `id` is the id that a new game with this name gets.
pub open spec fn is_unique_id(games: Seq<(Seq<char>, Game)>, name: Seq<char>, id: Seq<char>) -> bool {
    free_candidate(games, game_id(name), 1, id)
}

/// The id that a name gives.
pub fn generate_game_id(name: &str) -> (id: String)
    ensures
        id@ == game_id(name@),
{
    let list = chars_of(name);
    let mut mapped = String::new();
    let mut i: usize = 0;
    while i < list.len()
        invariant
            i <= list@.len(),
            list@ == name@,
            mapped@ == id_chars(name@.take(i as int)),
        decreases list@.len() - i,
    {
        let c = list[i];
        let out = if is_letter_or_digit(c) || c == '-' || c == '_' {
            to_ascii_lower(c)
        } else {
            '-'
        };
        mapped.push(out);
        assert(id_chars(name@.take(i + 1)) =~= id_chars(name@.take(i as int)).push(
            id_char(name@[i as int]),
        ));
        i += 1;
    }
    assert(name@.take(i as int) =~= name@);
    let pieces = split_at_char(mapped.as_str(), '-');
    let ghost all = split::split(id_chars(name@), '-');
    let mut kept: Vec<String> = Vec::new();
    let mut k: usize = 0;
    assert(chars::texts(kept@) =~= not_empty(all.take(0)));
    while k < pieces.len()
        invariant
            k <= pieces@.len(),
            chars::texts(pieces@) == all,
            chars::texts(kept@) == not_empty(all.take(k as int)),
        decreases pieces@.len() - k,
    {
        assert(all.take(k + 1).drop_last() =~= all.take(k as int));
        assert(all.take(k + 1).last() == pieces@[k as int]@);
        let ghost before = kept@;
        if !pieces[k].as_str().is_empty() {
            kept.push(pieces[k].clone());
            assert(chars::texts(kept@) =~= chars::texts(before).push(kept@.last()@));
        }
        k += 1;
    }
    assert(all.take(k as int) =~= all);
    joined(&kept, "-")
}

proof fn lemma_decimal(n: nat)
    ensures
        number::decimal(n).len() > 0,
        number::decimal_value(number::decimal(n)) == n,
    decreases n,
{
    if n >= 10 {
        lemma_decimal(n / 10);
        assert(number::decimal(n).drop_last() =~= number::decimal(n / 10));
    } else {
        assert(number::decimal(n).drop_last() =~= Seq::<char>::empty());
        assert(number::decimal_value(Seq::<char>::empty()) == 0);
    }
}

/// Different numbers give different candidates.
proof fn lemma_candidates_differ(base: Seq<char>, a: nat, b: nat)
    requires
        1 <= a < b,
    ensures
        candidate(base, a) != candidate(base, b),
{
    lemma_decimal(a);
    lemma_decimal(b);
    if candidate(base, a) == candidate(base, b) {
        if a == 1 {
            assert(candidate(base, b).len() > base.len());
        } else {
            let n = (base + "-"@).len() as int;
            assert(candidate(base, a).skip(n) =~= number::decimal(a));
            assert(candidate(base, b).skip(n) =~= number::decimal(b));
        }
    }
}

/// As long as every candidate so far is taken, there are at least as many games.
proof fn lemma_candidates_fit(games: Seq<(Seq<char>, Game)>, base: Seq<char>, n: nat)
    requires
        forall|j: nat| 1 <= j <= n ==> model::has_game(games, #[trigger] candidate(base, j)),
    ensures
        n <= games.len(),
{
    let places = Seq::new(
        n,
        |j: int| model::position(games, candidate(base, (j + 1) as nat), 0).unwrap(),
    );
    assert forall|j: int| 0 <= j < n implies 0 <= #[trigger] places[j] < games.len()
        && games[places[j]].0 == candidate(base, (j + 1) as nat) by {
        assert(model::has_game(games, candidate(base, (j + 1) as nat)));
        model::position_is_first(games, candidate(base, (j + 1) as nat), 0);
    }
    assert(places.no_duplicates()) by {
        assert forall|i: int, j: int| 0 <= i < n && 0 <= j < n && i != j implies places[i]
            != places[j] by {
            if i < j {
                lemma_candidates_differ(base, (i + 1) as nat, (j + 1) as nat);
            } else {
                lemma_candidates_differ(base, (j + 1) as nat, (i + 1) as nat);
            }
        }
    }
    places.unique_seq_to_set();
    let range = vstd::set_lib::set_int_range(0, games.len() as int);
    vstd::set_lib::lemma_int_range(0, games.len() as int);
    assert(places.to_set().subset_of(range)) by {
        assert forall|x: int| places.to_set().contains(x) implies range.contains(x) by {
            let j = places.index_of(x);
            assert(places[j] == x);
        }
    }
    vstd::set_lib::lemma_len_subset(places.to_set(), range);
}

/// The id that a new game with this name gets.
pub fn generate_unique_game_id(config: &Config, name: &str) -> (id: String)
    ensures
        is_unique_id(config@.games, name@, id@),
{
    let base = generate_game_id(name);
    let ghost games = config@.games;
    let mut id = base.clone();
    let mut n: u128 = 1;
    let total: u128 = config.games.len() as u128;
    assert(games.len() == total);
    loop
        invariant
            games == config@.games,
            games.len() == total,
            base@ == game_id(name@),
            1 <= n <= total + 1,
            total <= u64::MAX,
            id@ == candidate(base@, n as nat),
            forall|j: nat| 1 <= j < n ==> model::has_game(games, #[trigger] candidate(base@, j)),
        ensures
            is_unique_id(config@.games, name@, id@),
        decreases total + 1 - n,
    {
        if config.find(id.as_str()).is_none() {
            assert(free_candidate(games, base@, 1, id@)) by {
                assert(id@ == candidate(base@, n as nat));
                assert(!model::has_game(games, id@));
            }
            break;
        }
        assert forall|j: nat| 1 <= j <= n implies model::has_game(
            games,
            #[trigger] candidate(base@, j),
        ) by {
            if j == n {
                assert(model::has_game(games, id@));
            }
        }
        proof {
            lemma_candidates_fit(games, base@, n as nat);
        }
        n += 1;
        id = base.clone();
        id.append("-");
        id.append(wide_number_text(n).as_str());
    }
    id
}

// ---------------------------------------------------------------------------------------------
// What holds of ids

/// The id of a new game belongs to no other game.
pub proof fn a_new_id_is_free(games: Seq<(Seq<char>, Game)>, name: Seq<char>, id: Seq<char>)
    requires
        is_unique_id(games, name, id),
    ensures
        !model::has_game(games, id),
{
}

/// There is only one id that a new game with this name can get.
pub proof fn a_new_id_is_determined(
    games: Seq<(Seq<char>, Game)>,
    name: Seq<char>,
    one: Seq<char>,
    other: Seq<char>,
)
    requires
        is_unique_id(games, name, one),
        is_unique_id(games, name, other),
    ensures
        one == other,
{
    let base = game_id(name);
    let a = choose|k: nat|
        1 <= k && one == #[trigger] candidate(base, k) && !model::has_game(games, one) && forall|j: nat|
            1 <= j < k ==> model::has_game(games, #[trigger] candidate(base, j));
    let b = choose|k: nat|
        1 <= k && other == #[trigger] candidate(base, k) && !model::has_game(games, other)
            && forall|j: nat| 1 <= j < k ==> model::has_game(games, #[trigger] candidate(base, j));
    if a < b {
        assert(model::has_game(games, candidate(base, a)));
    }
    if b < a {
        assert(model::has_game(games, candidate(base, b)));
    }
}

/// Where no game has the id of the name yet, a new game gets that id.
pub proof fn an_unused_id_is_taken_as_it_is(games: Seq<(Seq<char>, Game)>, name: Seq<char>)
    requires
        !model::has_game(games, game_id(name)),
    ensures
        is_unique_id(games, name, game_id(name)),
{
    assert(game_id(name) == candidate(game_id(name), 1));
}

/// A character of an id, which can stand in the name of a file anywhere: a letter that is no ASCII
/// capital, a digit, `-` or `_`.
pub open spec fn is_safe(c: char) -> bool {
    (chars::is_alnum(c) || c == '-' || c == '_') && !('A' <= c <= 'Z')
}

pub open spec fn all_safe(s: Seq<char>) -> bool {
    forall|i: int| 0 <= i < s.len() ==> is_safe(#[trigger] s[i])
}

proof fn lemma_pieces_safe(s: Seq<char>)
    requires
        all_safe(s),
    ensures
        forall|i: int| 0 <= i < split::split(s, '-').len() ==> all_safe(
            #[trigger] split::split(s, '-')[i],
        ),
    decreases s.len(),
{
    if s.len() > 0 {
        let front = s.drop_last();
        assert(all_safe(front)) by {
            assert forall|i: int| 0 <= i < front.len() implies is_safe(#[trigger] front[i]) by {
                assert(front[i] == s[i]);
            }
        }
        lemma_pieces_safe(front);
        split::split_has_a_piece(front, '-');
        let before = split::split(front, '-');
        let list = split::split(s, '-');
        assert(is_safe(s[s.len() - 1]));
        assert forall|i: int| 0 <= i < list.len() implies all_safe(#[trigger] list[i]) by {
            if i < before.len() - 1 || (s.last() == '-' && i < before.len()) {
                assert(list[i] == before[i]);
            } else if s.last() != '-' {
                assert(all_safe(before[before.len() - 1]));
                let piece = list[i];
                assert forall|k: int| 0 <= k < piece.len() implies is_safe(#[trigger] piece[k]) by {
                    if k < before.last().len() {
                        assert(piece[k] == before[before.len() - 1][k]);
                    }
                }
            }
        }
    }
}

proof fn lemma_not_empty_safe(pieces: Seq<Seq<char>>)
    requires
        forall|i: int| 0 <= i < pieces.len() ==> all_safe(#[trigger] pieces[i]),
    ensures
        forall|i: int| 0 <= i < not_empty(pieces).len() ==> all_safe(#[trigger] not_empty(pieces)[i]),
    decreases pieces.len(),
{
    if pieces.len() > 0 {
        let front = pieces.drop_last();
        assert forall|i: int| 0 <= i < front.len() implies all_safe(#[trigger] front[i]) by {
            assert(front[i] == pieces[i]);
        }
        lemma_not_empty_safe(front);
        assert(all_safe(pieces[pieces.len() - 1]));
        let before = not_empty(front);
        let list = not_empty(pieces);
        assert forall|i: int| 0 <= i < list.len() implies all_safe(#[trigger] list[i]) by {
            if i < before.len() {
                assert(list[i] == before[i]);
            }
        }
    }
}

proof fn lemma_join_safe(pieces: Seq<Seq<char>>)
    requires
        forall|i: int| 0 <= i < pieces.len() ==> all_safe(#[trigger] pieces[i]),
    ensures
        all_safe(split::join(pieces, "-"@)),
    decreases pieces.len(),
{
    reveal_strlit("-");
    if pieces.len() == 1 {
        assert(all_safe(pieces[0]));
    } else if pieces.len() > 1 {
        let front = pieces.drop_last();
        assert forall|i: int| 0 <= i < front.len() implies all_safe(#[trigger] front[i]) by {
            assert(front[i] == pieces[i]);
        }
        lemma_join_safe(front);
        let head = split::join(front, "-"@);
        let last = pieces[pieces.len() - 1];
        assert(all_safe(last));
        let whole = split::join(pieces, "-"@);
        assert(whole == head + "-"@ + last);
        assert forall|i: int| 0 <= i < whole.len() implies is_safe(#[trigger] whole[i]) by {
            if i < head.len() {
                assert(whole[i] == head[i]);
            } else if i == head.len() {
                assert(whole[i] == "-"@[0]);
            } else {
                assert(whole[i] == last[i - head.len() - 1]);
            }
        }
    }
}

proof fn lemma_mapped_safe(name: Seq<char>)
    ensures
        all_safe(id_chars(name)),
{
    let mapped = id_chars(name);
    assert forall|i: int| 0 <= i < mapped.len() implies is_safe(#[trigger] mapped[i]) by {
        let c = name[i];
        assert(mapped[i] == id_char(c));
        if chars::is_alnum(c) {
            if 'A' <= c <= 'Z' {
                assert('a' <= chars::ascii_lower(c) <= 'z');
            }
        }
    }
}

/// The pieces of an id.
spec fn id_pieces(name: Seq<char>) -> Seq<Seq<char>> {
    not_empty(split::split(id_chars(name), '-'))
}

/// A piece of an id: it is not empty and holds no dash.
pub open spec fn is_piece(piece: Seq<char>) -> bool {
    piece.len() > 0 && !piece.contains('-')
}

proof fn lemma_not_empty(pieces: Seq<Seq<char>>)
    requires
        forall|i: int| 0 <= i < pieces.len() ==> !(#[trigger] pieces[i]).contains('-'),
    ensures
        forall|i: int| 0 <= i < not_empty(pieces).len() ==> is_piece(#[trigger] not_empty(pieces)[i]),
        (forall|i: int| 0 <= i < pieces.len() ==> (#[trigger] pieces[i]).len() > 0) ==> not_empty(
            pieces,
        ) == pieces,
    decreases pieces.len(),
{
    if pieces.len() > 0 {
        let front = pieces.drop_last();
        assert forall|i: int| 0 <= i < front.len() implies !(#[trigger] front[i]).contains('-') by {
            assert(front[i] == pieces[i]);
        }
        lemma_not_empty(front);
        assert(!pieces[pieces.len() - 1].contains('-'));
        let before = not_empty(front);
        let list = not_empty(pieces);
        assert forall|i: int| 0 <= i < list.len() implies is_piece(#[trigger] list[i]) by {
            if i < before.len() {
                assert(list[i] == before[i]);
            }
        }
        if forall|i: int| 0 <= i < pieces.len() ==> (#[trigger] pieces[i]).len() > 0 {
            assert forall|i: int| 0 <= i < front.len() implies (#[trigger] front[i]).len() > 0 by {
                assert(front[i] == pieces[i]);
            }
            assert(pieces[pieces.len() - 1].len() > 0);
            assert(front.push(pieces.last()) =~= pieces);
        }
    } else {
        assert(not_empty(pieces) =~= pieces);
    }
}

proof fn lemma_id_pieces(name: Seq<char>)
    ensures
        forall|i: int| 0 <= i < id_pieces(name).len() ==> is_piece(#[trigger] id_pieces(name)[i]),
{
    split::pieces_hold_no_separator(id_chars(name), '-');
    lemma_not_empty(split::split(id_chars(name), '-'));
}

/// Dashes stand alone, and inside.
pub open spec fn dashes_are_single(s: Seq<char>) -> bool {
    &&& s.len() > 0 ==> s[0] != '-' && s.last() != '-'
    &&& forall|i: int| 0 <= i < s.len() - 1 ==> !(#[trigger] s[i] == '-' && s[i + 1] == '-')
}

proof fn lemma_join_dashes(pieces: Seq<Seq<char>>)
    requires
        forall|i: int| 0 <= i < pieces.len() ==> is_piece(#[trigger] pieces[i]),
    ensures
        dashes_are_single(split::join(pieces, "-"@)),
        pieces.len() > 0 ==> split::join(pieces, "-"@).len() > 0,
    decreases pieces.len(),
{
    reveal_strlit("-");
    if pieces.len() > 0 {
        let last = pieces[pieces.len() - 1];
        assert(is_piece(last));
        assert forall|k: int| 0 <= k < last.len() implies #[trigger] last[k] != '-' by {
            assert(last.contains(last[k]));
        }
        if pieces.len() > 1 {
            let front = pieces.drop_last();
            assert forall|i: int| 0 <= i < front.len() implies is_piece(#[trigger] front[i]) by {
                assert(front[i] == pieces[i]);
            }
            lemma_join_dashes(front);
            let head = split::join(front, "-"@);
            let whole = split::join(pieces, "-"@);
            assert(whole == head + "-"@ + last);
            assert(whole[0] == head[0]);
            assert(whole.last() == last.last());
            assert forall|i: int| 0 <= i < whole.len() - 1 implies !(#[trigger] whole[i] == '-'
                && whole[i + 1] == '-') by {
                if i < head.len() - 1 {
                    assert(whole[i] == head[i] && whole[i + 1] == head[i + 1]);
                } else if i == head.len() - 1 {
                    assert(whole[i] == head.last());
                } else if i == head.len() {
                    assert(whole[i + 1] == last[0]);
                } else {
                    assert(whole[i] == last[i - head.len() - 1]);
                }
            }
        }
    }
}

/// An id is made of letters, digits, dashes and underscores, without ASCII capitals: it can be
/// the name of a file or of a directory, and no part of a path is hidden in it.
pub proof fn an_id_is_safe_in_a_path(name: Seq<char>)
    ensures
        all_safe(game_id(name)),
        !game_id(name).contains('/'),
        !game_id(name).contains('\\'),
        !game_id(name).contains('.'),
{
    let mapped = id_chars(name);
    lemma_mapped_safe(name);
    lemma_pieces_safe(mapped);
    lemma_not_empty_safe(split::split(mapped, '-'));
    lemma_join_safe(not_empty(split::split(mapped, '-')));
    let id = game_id(name);
    assert forall|c: char| id.contains(c) implies is_safe(c) by {
        let k = id.index_of(c);
        assert(id[k] == c);
    }
    assert(!is_safe('/') && !is_safe('\\') && !is_safe('.'));
}

/// No id starts or ends with a dash, and no two dashes of an id stand side by side.
pub proof fn dashes_of_an_id_are_single(name: Seq<char>)
    ensures
        dashes_are_single(game_id(name)),
{
    lemma_id_pieces(name);
    lemma_join_dashes(id_pieces(name));
}

/// An id is its own id: as the name of a game it gives itself.
pub proof fn an_id_is_its_own_id(name: Seq<char>)
    ensures
        game_id(game_id(name)) == game_id(name),
{
    let id = game_id(name);
    let pieces = id_pieces(name);
    an_id_is_safe_in_a_path(name);
    lemma_id_pieces(name);
    assert(id_chars(id) =~= id) by {
        assert forall|i: int| 0 <= i < id.len() implies id_char(#[trigger] id[i]) == id[i] by {
            assert(is_safe(id[i]));
        }
    }
    reveal_strlit("-");
    assert("-"@ =~= seq!['-']);
    if pieces.len() == 0 {
        assert(id =~= Seq::<char>::empty());
        let only = split::split(id, '-');
        assert(only =~= seq![Seq::<char>::empty()]);
        assert(only.drop_last() =~= Seq::<Seq<char>>::empty());
        assert(not_empty(only.drop_last()) =~= Seq::<Seq<char>>::empty());
        assert(not_empty(only) =~= pieces);
    } else {
        assert forall|i: int| 0 <= i < pieces.len() implies !(#[trigger] pieces[i]).contains(
            '-',
        ) && pieces[i].len() > 0 by {
            assert(is_piece(pieces[i]));
        }
        split::joined_pieces_come_apart(pieces, '-');
        lemma_not_empty(pieces);
    }
}

/// The case of ASCII letters makes no difference to an id.
pub proof fn case_makes_no_difference(one: Seq<char>, other: Seq<char>)
    requires
        chars::ascii_lower_text(one) == chars::ascii_lower_text(other),
    ensures
        game_id(one) == game_id(other),
{
    let (a, b) = (chars::ascii_lower_text(one), chars::ascii_lower_text(other));
    assert(one.len() == a.len() && other.len() == b.len());
    assert forall|i: int| 0 <= i < one.len() implies id_char(one[i]) == id_char(other[i]) by {
        assert(a[i] == chars::ascii_lower(one[i]));
        assert(b[i] == chars::ascii_lower(other[i]));
        if 'A' <= one[i] <= 'Z' {
            assert('a' <= chars::ascii_lower(one[i]) <= 'z');
        }
        if 'A' <= other[i] <= 'Z' {
            assert('a' <= chars::ascii_lower(other[i]) <= 'z');
        }
    }
    assert(id_chars(one) =~= id_chars(other));
}

proof fn lemma_one_piece(s: Seq<char>)
    requires
        !s.contains('-'),
    ensures
        split::split(s, '-') == seq![s],
        s.len() > 0 ==> not_empty(seq![s]) == seq![s],
        s.len() == 0 ==> not_empty(seq![s]) == Seq::<Seq<char>>::empty(),
{
    reveal_strlit("-");
    split::one_piece_is_itself(s, seq!['-']);
    split::joined_pieces_come_apart(seq![s], '-');
    assert(seq![s].drop_last() =~= Seq::<Seq<char>>::empty());
    assert(not_empty(seq![s].drop_last()) =~= Seq::<Seq<char>>::empty());
}

/// A name of small letters, digits and underscores is its own id, and what stands between two such
/// names becomes one dash, be it a dash or anything that is no letter, digit or underscore.
pub proof fn other_characters_become_dashes(before: Seq<char>, between: char, after: Seq<char>)
    requires
        before.len() > 0,
        after.len() > 0,
        forall|i: int|
            0 <= i < before.len() ==> (chars::is_alnum(#[trigger] before[i]) || before[i] == '_')
                && before[i] != '-' && !('A' <= before[i] <= 'Z'),
        forall|i: int|
            0 <= i < after.len() ==> (chars::is_alnum(#[trigger] after[i]) || after[i] == '_')
                && after[i] != '-' && !('A' <= after[i] <= 'Z'),
        !chars::is_alnum(between),
        between != '_',
    ensures
        game_id(before) == before,
        game_id(before.push(between) + after) == before.push('-') + after,
        game_id(seq![between]).len() == 0,
        game_id(seq![between] + before) == before,
{
    reveal_strlit("-");
    assert("-"@ =~= seq!['-']);
    assert(!before.contains('-') && !after.contains('-'));
    assert(id_chars(before) =~= before);
    lemma_one_piece(before);
    split::one_piece_is_itself(before, "-"@);
    assert(id_char(between) == '-');
    let none = Seq::<char>::empty();
    let whole = before.push(between) + after;
    let pieces = seq![before, after];
    assert(id_chars(whole) =~= before.push('-') + after);
    split::pieces_are_joined_one_by_one(seq![before], after, seq!['-']);
    assert(seq![before].push(after) =~= pieces);
    assert(before + seq!['-'] + after =~= before.push('-') + after);
    split::one_piece_is_itself(before, seq!['-']);
    split::joined_pieces_come_apart(pieces, '-');
    assert(pieces.drop_last() =~= seq![before]);
    assert(not_empty(pieces) =~= pieces);
    // Only a dash.
    let two = seq![none, none];
    assert(id_chars(seq![between]) =~= seq!['-']);
    split::pieces_are_joined_one_by_one(seq![none], none, seq!['-']);
    assert(seq![none].push(none) =~= two);
    split::one_piece_is_itself(none, seq!['-']);
    assert(none + seq!['-'] + none =~= seq!['-']);
    split::joined_pieces_come_apart(two, '-');
    assert(two.drop_last() =~= seq![none]);
    lemma_one_piece(none);
    assert(not_empty(two) =~= Seq::<Seq<char>>::empty());
    split::one_piece_is_itself(none, "-"@);
    // A dash at the start.
    let late = seq![none, before];
    assert(id_chars(seq![between] + before) =~= seq!['-'] + before);
    split::pieces_are_joined_one_by_one(seq![none], before, seq!['-']);
    assert(seq![none].push(before) =~= late);
    assert(none + seq!['-'] + before =~= seq!['-'] + before);
    split::joined_pieces_come_apart(late, '-');
    assert(late.drop_last() =~= seq![none]);
    assert(not_empty(late) =~= seq![before]);
}

/// Where the id of a name is taken, `-2` is put behind it, then `-3` and so on: the first of these
/// that is free is the one.
pub proof fn numbers_are_put_behind_a_taken_id(
    games: Seq<(Seq<char>, Game)>,
    name: Seq<char>,
    n: nat,
    id: Seq<char>,
)
    requires
        n >= 2,
        model::has_game(games, game_id(name)),
        forall|k: nat|
            2 <= k < n ==> model::has_game(games, game_id(name) + "-"@ + #[trigger] number::decimal(k)),
        id == game_id(name) + "-"@ + number::decimal(n),
        !model::has_game(games, id),
    ensures
        is_unique_id(games, name, id),
{
    let base = game_id(name);
    assert(id == candidate(base, n));
    assert forall|j: nat| 1 <= j < n implies model::has_game(games, #[trigger] candidate(base, j)) by {
        if j >= 2 {
            assert(candidate(base, j) == base + "-"@ + number::decimal(j));
        }
    }
}

} // verus!
