//! The order of texts, and of things that go by two texts.

use crate::text::chars::chars_of;
use vstd::prelude::*;

verus! {

/// `a` comes before `b`: at the first difference it has the smaller character, or it ends
/// where `b` goes on.
pub open spec fn text_before(a: Seq<char>, b: Seq<char>) -> bool
    decreases a.len(),
{
    if b.len() == 0 {
        false
    } else if a.len() == 0 {
        true
    } else if a[0] != b[0] {
        a[0] < b[0]
    } else {
        text_before(a.skip(1), b.skip(1))
    }
}

/// Of two different texts exactly one comes first.
pub proof fn text_order_is_total(a: Seq<char>, b: Seq<char>)
    ensures
        a == b ==> !text_before(a, b),
        a != b ==> text_before(a, b) != text_before(b, a),
    decreases a.len(),
{
    if a.len() > 0 && b.len() > 0 && a[0] == b[0] {
        text_order_is_total(a.skip(1), b.skip(1));
        if a.skip(1) == b.skip(1) {
            assert(a =~= seq![a[0]] + a.skip(1));
            assert(b =~= seq![b[0]] + b.skip(1));
        }
    } else if a.len() == 0 && b.len() == 0 {
        assert(a =~= b);
    }
}

/// What comes before a text comes before everything behind it.
pub proof fn text_order_is_transitive(a: Seq<char>, b: Seq<char>, c: Seq<char>)
    requires
        text_before(a, b),
        text_before(b, c),
    ensures
        text_before(a, c),
    decreases a.len(),
{
    if a.len() > 0 && b.len() > 0 && c.len() > 0 && a[0] == b[0] && b[0] == c[0] {
        text_order_is_transitive(a.skip(1), b.skip(1), c.skip(1));
    }
}

pub fn comes_before(a: &str, b: &str) -> (yes: bool)
    ensures
        yes == text_before(a@, b@),
{
    let left = chars_of(a);
    let right = chars_of(b);
    let mut i: usize = 0;
    assert(a@.skip(0) =~= a@);
    assert(b@.skip(0) =~= b@);
    while i < left.len() && i < right.len() && left[i] == right[i]
        invariant
            i <= left.len(),
            i <= right.len(),
            left@ == a@,
            right@ == b@,
            text_before(a@, b@) == text_before(a@.skip(i as int), b@.skip(i as int)),
        decreases left.len() - i,
    {
        assert(a@.skip(i as int).skip(1) =~= a@.skip(i + 1));
        assert(b@.skip(i as int).skip(1) =~= b@.skip(i + 1));
        i += 1;
    }
    if i >= right.len() {
        false
    } else if i >= left.len() {
        true
    } else {
        left[i] < right[i]
    }
}

// ---------------------------------------------------------------------------------------------
// Sorting by two texts

/// The first texts decide, and where they are the same the second ones.
pub open spec fn pair_before(a: (Seq<char>, Seq<char>), b: (Seq<char>, Seq<char>)) -> bool {
    text_before(a.0, b.0) || (a.0 == b.0 && text_before(a.1, b.1))
}

/// A position put into a sorted list of positions, behind those with the same texts.
pub open spec fn insert_sorted(
    keys: Seq<(Seq<char>, Seq<char>)>,
    list: Seq<int>,
    at: int,
) -> Seq<int>
    decreases list.len(),
{
    if list.len() > 0 && pair_before(keys[at], keys[list.last()]) {
        insert_sorted(keys, list.drop_last(), at).push(list.last())
    } else {
        list.push(at)
    }
}

/// The positions of a list in the order of their texts.
pub open spec fn sorted_positions(keys: Seq<(Seq<char>, Seq<char>)>, n: int) -> Seq<int>
    decreases n,
{
    if n <= 0 {
        Seq::empty()
    } else {
        insert_sorted(keys, sorted_positions(keys, n - 1), n - 1)
    }
}

pub open spec fn is_sorted(keys: Seq<(Seq<char>, Seq<char>)>, list: Seq<int>) -> bool {
    forall|i: int, j: int|
        0 <= i < j < list.len() ==> !pair_before(keys[#[trigger] list[j]], keys[#[trigger] list[i]])
}

proof fn lemma_pair_order(
    a: (Seq<char>, Seq<char>),
    b: (Seq<char>, Seq<char>),
    c: (Seq<char>, Seq<char>),
)
    ensures
        !pair_before(a, a),
        pair_before(a, b) ==> !pair_before(b, a),
        pair_before(a, b) && pair_before(b, c) ==> pair_before(a, c),
        pair_before(a, b) && !pair_before(c, b) ==> !pair_before(c, a),
{
    text_order_is_total(a.0, a.0);
    text_order_is_total(a.1, a.1);
    text_order_is_total(a.0, b.0);
    text_order_is_total(a.1, b.1);
    text_order_is_total(b.0, c.0);
    text_order_is_total(b.1, c.1);
    text_order_is_total(a.0, c.0);
    text_order_is_total(a.1, c.1);
    if text_before(a.0, b.0) && text_before(b.0, c.0) {
        text_order_is_transitive(a.0, b.0, c.0);
    }
    if text_before(a.1, b.1) && text_before(b.1, c.1) {
        text_order_is_transitive(a.1, b.1, c.1);
    }
    if text_before(c.0, a.0) && text_before(a.0, b.0) {
        text_order_is_transitive(c.0, a.0, b.0);
    }
    if text_before(c.1, a.1) && text_before(a.1, b.1) {
        text_order_is_transitive(c.1, a.1, b.1);
    }
}

proof fn lemma_insert(keys: Seq<(Seq<char>, Seq<char>)>, list: Seq<int>, at: int)
    requires
        is_sorted(keys, list),
    ensures
        is_sorted(keys, insert_sorted(keys, list, at)),
        insert_sorted(keys, list, at).to_multiset() == list.to_multiset().insert(at),
        insert_sorted(keys, list, at).len() == list.len() + 1,
    decreases list.len(),
{
    broadcast use vstd::seq_lib::group_to_multiset_ensures;

    let out = insert_sorted(keys, list, at);
    if list.len() > 0 && pair_before(keys[at], keys[list.last()]) {
        let front = list.drop_last();
        assert(is_sorted(keys, front)) by {
            assert forall|i: int, j: int| 0 <= i < j < front.len() implies !pair_before(
                keys[#[trigger] front[j]],
                keys[#[trigger] front[i]],
            ) by {
                assert(front[i] == list[i] && front[j] == list[j]);
            }
        }
        lemma_insert(keys, front, at);
        let inner = insert_sorted(keys, front, at);
        assert(list =~= front.push(list.last()));
        assert(out.to_multiset() =~= list.to_multiset().insert(at));
        assert forall|i: int, j: int| 0 <= i < j < out.len() implies !pair_before(
            keys[#[trigger] out[j]],
            keys[#[trigger] out[i]],
        ) by {
            if j == out.len() - 1 {
                assert(inner.to_multiset().contains(inner[i]));
                assert(out[i] == inner[i]);
                if inner[i] == at {
                    lemma_pair_order(keys[at], keys[list.last()], keys[at]);
                } else {
                    assert(front.to_multiset().contains(inner[i]));
                    assert(front.contains(inner[i]));
                    let k = front.index_of(inner[i]);
                    assert(list[k] == inner[i]);
                    assert(!pair_before(keys[list[list.len() - 1]], keys[list[k]]));
                }
            } else {
                assert(out[i] == inner[i] && out[j] == inner[j]);
            }
        }
    } else {
        assert forall|i: int, j: int| 0 <= i < j < out.len() implies !pair_before(
            keys[#[trigger] out[j]],
            keys[#[trigger] out[i]],
        ) by {
            if j == out.len() - 1 {
                if i < list.len() - 1 {
                    assert(out[i] == list[i]);
                    assert(!pair_before(keys[list[list.len() - 1]], keys[list[i]]));
                    if pair_before(keys[at], keys[list[i]]) {
                        lemma_pair_order(keys[at], keys[list[i]], keys[list.last()]);
                        lemma_not_before(keys[at], keys[list[i]], keys[list.last()]);
                    }
                }
            } else {
                assert(out[i] == list[i] && out[j] == list[j]);
            }
        }
    }
}

proof fn lemma_not_before(
    a: (Seq<char>, Seq<char>),
    b: (Seq<char>, Seq<char>),
    c: (Seq<char>, Seq<char>),
)
    requires
        pair_before(a, b),
        !pair_before(c, b),
    ensures
        pair_before(a, c),
{
    text_order_is_total(a.0, b.0);
    text_order_is_total(a.1, b.1);
    text_order_is_total(b.0, c.0);
    text_order_is_total(b.1, c.1);
    if b.0 != c.0 {
        if text_before(a.0, b.0) {
            text_order_is_transitive(a.0, b.0, c.0);
        }
    } else if b.1 != c.1 {
        if a.0 == b.0 {
            text_order_is_transitive(a.1, b.1, c.1);
        }
    }
}

/// The sorted positions are exactly the positions of the list, in order; so where no two have
/// the same texts there is only one such order.
pub proof fn sorting_keeps_everything(keys: Seq<(Seq<char>, Seq<char>)>, n: int)
    requires
        0 <= n <= keys.len(),
    ensures
        is_sorted(keys, sorted_positions(keys, n)),
        sorted_positions(keys, n).len() == n,
        sorted_positions(keys, n).to_multiset() == Seq::new(n as nat, |i: int| i).to_multiset(),
        forall|i: int|
            0 <= i < n ==> 0 <= #[trigger] sorted_positions(keys, n)[i] < n,
    decreases n,
{
    broadcast use vstd::seq_lib::group_to_multiset_ensures;

    if n > 0 {
        sorting_keeps_everything(keys, n - 1);
        let before = sorted_positions(keys, n - 1);
        lemma_insert(keys, before, n - 1);
        let count = Seq::new(n as nat, |i: int| i);
        assert(count =~= Seq::new((n - 1) as nat, |i: int| i).push(n - 1));
        let list = sorted_positions(keys, n);
        assert forall|i: int| 0 <= i < n implies 0 <= #[trigger] list[i] < n by {
            assert(list.to_multiset().contains(list[i]));
            assert(count.to_multiset().contains(list[i]));
            assert(count.contains(list[i]));
        }
    } else {
        assert(Seq::new(0nat, |i: int| i) =~= Seq::<int>::empty());
    }
}

/// What a list is sorted by.
pub struct SortKey {
    pub first: String,
    pub second: String,
}

pub open spec fn keys_view(keys: Seq<SortKey>) -> Seq<(Seq<char>, Seq<char>)> {
    keys.map_values(|key: SortKey| (key.first@, key.second@))
}

pub open spec fn positions_view(list: Seq<usize>) -> Seq<int> {
    list.map_values(|i: usize| i as int)
}

fn key_comes_before(a: &SortKey, b: &SortKey) -> (yes: bool)
    ensures
        yes == pair_before((a.first@, a.second@), (b.first@, b.second@)),
{
    if comes_before(a.first.as_str(), b.first.as_str()) {
        return true;
    }
    crate::text::chars::same_text(a.first.as_str(), b.first.as_str()) && comes_before(
        a.second.as_str(),
        b.second.as_str(),
    )
}

proof fn lemma_insert_at(keys: Seq<(Seq<char>, Seq<char>)>, list: Seq<int>, at: int, j: int)
    requires
        0 <= j <= list.len(),
        forall|k: int| j <= k < list.len() ==> pair_before(keys[at], keys[#[trigger] list[k]]),
        j > 0 ==> !pair_before(keys[at], keys[list[j - 1]]),
    ensures
        insert_sorted(keys, list, at) == list.insert(j, at),
    decreases list.len(),
{
    if j < list.len() {
        assert(list.last() == list[list.len() - 1]);
        let front = list.drop_last();
        assert forall|k: int| j <= k < front.len() implies pair_before(
            keys[at],
            keys[#[trigger] front[k]],
        ) by {
            assert(front[k] == list[k]);
        }
        if j > 0 {
            assert(front[j - 1] == list[j - 1]);
        }
        lemma_insert_at(keys, front, at, j);
        assert(front.insert(j, at).push(list.last()) =~= list.insert(j, at));
    } else {
        assert(list.insert(j, at) =~= list.push(at));
        if list.len() > 0 {
            assert(list[j - 1] == list.last());
        }
    }
}

/// The positions of a list in the order of their texts.
pub fn sort_positions(keys: &Vec<SortKey>) -> (out: Vec<usize>)
    ensures
        positions_view(out@) == sorted_positions(keys_view(keys@), keys@.len() as int),
        out@.len() == keys@.len(),
        forall|i: int| 0 <= i < out@.len() ==> #[trigger] out@[i] < keys@.len(),
{
    let ghost all = keys_view(keys@);
    let mut out: Vec<usize> = Vec::new();
    let mut i: usize = 0;
    assert(positions_view(out@) =~= sorted_positions(all, 0));
    while i < keys.len()
        invariant
            i <= keys@.len(),
            all == keys_view(keys@),
            out@.len() == i,
            forall|k: int| 0 <= k < out@.len() ==> #[trigger] out@[k] < i,
            positions_view(out@) == sorted_positions(all, i as int),
        decreases keys@.len() - i,
    {
        let mut j: usize = out.len();
        let ghost list = positions_view(out@);
        while j > 0 && key_comes_before(&keys[i], &keys[out[j - 1]])
            invariant
                j <= out@.len() == list.len(),
                i < keys@.len(),
                all == keys_view(keys@),
                list == positions_view(out@),
                forall|k: int| 0 <= k < out@.len() ==> #[trigger] out@[k] < i,
                forall|k: int|
                    j <= k < list.len() ==> pair_before(all[i as int], all[#[trigger] list[k]]),
            decreases j,
        {
            assert(list[j - 1] == out@[j - 1]);
            assert(all[list[j - 1]] == (
                keys@[list[j - 1]].first@,
                keys@[list[j - 1]].second@,
            ));
            j -= 1;
        }
        proof {
            if j > 0 {
                assert(list[j - 1] == out@[j - 1]);
                assert(all[list[j - 1]] == (
                    keys@[list[j - 1]].first@,
                    keys@[list[j - 1]].second@,
                ));
            }
            lemma_insert_at(all, list, i as int, j as int);
        }
        out.insert(j, i);
        assert(positions_view(out@) =~= list.insert(j as int, i as int));
        i += 1;
    }
    out
}

/// Two texts are ordered by their first difference: what they have in common does not matter, the
/// smaller character decides, and a text comes before its continuations.
pub proof fn the_first_difference_decides(
    common: Seq<char>,
    a: Seq<char>,
    b: Seq<char>,
    x: char,
    y: char,
)
    requires
        x < y,
    ensures
        text_before(common + seq![x] + a, common + seq![y] + b),
        !text_before(common + seq![y] + b, common + seq![x] + a),
        b.len() > 0 ==> text_before(common, common + b),
        !text_before(common + b, common),
    decreases common.len(),
{
    let (left, right, longer) = (common + seq![x] + a, common + seq![y] + b, common + b);
    if common.len() == 0 {
        assert(left[0] == x && right[0] == y);
    } else {
        let rest = common.skip(1);
        the_first_difference_decides(rest, a, b, x, y);
        assert(left[0] == right[0]);
        assert(left.skip(1) =~= rest + seq![x] + a);
        assert(right.skip(1) =~= rest + seq![y] + b);
        assert(longer[0] == common[0]);
        assert(longer.skip(1) =~= rest + b);
    }
}

/// The first texts decide, and the second ones only where the first are the same.
pub proof fn the_first_text_decides(
    a: (Seq<char>, Seq<char>),
    b: (Seq<char>, Seq<char>),
)
    ensures
        text_before(a.0, b.0) ==> pair_before(a, b) && !pair_before(b, a),
        a.0 == b.0 ==> (pair_before(a, b) <==> text_before(a.1, b.1)),
{
    text_order_is_total(a.0, b.0);
}

proof fn lemma_insert_behind(keys: Seq<(Seq<char>, Seq<char>)>, list: Seq<int>, at: int)
    requires
        forall|i: int| 0 <= i < list.len() ==> #[trigger] list[i] < at,
        forall|i: int, j: int|
            0 <= i < j < list.len() && keys[#[trigger] list[i]] == keys[#[trigger] list[j]]
                ==> list[i] < list[j],
    ensures
        ({
            let out = insert_sorted(keys, list, at);
            &&& forall|i: int|
                0 <= i < out.len() ==> #[trigger] out[i] == at || list.contains(out[i])
            &&& forall|i: int, j: int|
                0 <= i < j < out.len() && keys[#[trigger] out[i]] == keys[#[trigger] out[j]]
                    ==> out[i] < out[j]
        }),
    decreases list.len(),
{
    let out = insert_sorted(keys, list, at);
    if list.len() > 0 && pair_before(keys[at], keys[list.last()]) {
        let front = list.drop_last();
        assert(forall|i: int| 0 <= i < front.len() ==> front[i] == list[i]);
        lemma_insert_behind(keys, front, at);
        let inner = insert_sorted(keys, front, at);
        text_order_is_total(keys[at].0, keys[at].0);
        text_order_is_total(keys[at].1, keys[at].1);
        assert forall|i: int| 0 <= i < out.len() implies #[trigger] out[i] == at || list.contains(
            out[i],
        ) by {
            if i < inner.len() {
                assert(out[i] == inner[i]);
                if inner[i] != at {
                    let k = front.index_of(inner[i]);
                    assert(list[k] == inner[i]);
                }
            } else {
                assert(list[list.len() - 1] == out[i]);
            }
        }
        assert forall|i: int, j: int|
            0 <= i < j < out.len() && keys[#[trigger] out[i]] == keys[#[trigger] out[j]] implies
            out[i] < out[j] by {
            assert(out[i] == inner[i]);
            if j < inner.len() {
                assert(out[j] == inner[j]);
            } else {
                assert(out[j] == list.last());
                if inner[i] != at {
                    let k = front.index_of(inner[i]);
                    assert(list[k] == inner[i]);
                    assert(list[list.len() - 1] == list.last());
                }
            }
        }
    } else {
        assert forall|i: int| 0 <= i < out.len() implies #[trigger] out[i] == at || list.contains(
            out[i],
        ) by {
            if i < list.len() {
                assert(out[i] == list[i]);
            }
        }
    }
}

/// A list is sorted: nothing stands before what comes first by its texts, and things with the same
/// texts stay in the order they had.
pub proof fn sorting_puts_things_in_order(
    keys: Seq<(Seq<char>, Seq<char>)>,
    n: int,
    i: int,
    j: int,
)
    requires
        0 <= n <= keys.len(),
        0 <= i < j < n,
    ensures
        !pair_before(keys[sorted_positions(keys, n)[j]], keys[sorted_positions(keys, n)[i]]),
        keys[sorted_positions(keys, n)[i]] == keys[sorted_positions(keys, n)[j]]
            ==> sorted_positions(keys, n)[i] < sorted_positions(keys, n)[j],
{
    sorting_keeps_everything(keys, n);
    lemma_stable(keys, n);
    let list = sorted_positions(keys, n);
    assert(list[i] == list[i] && list[j] == list[j]);
}

proof fn lemma_stable(keys: Seq<(Seq<char>, Seq<char>)>, n: int)
    requires
        0 <= n <= keys.len(),
    ensures
        forall|i: int, j: int|
            0 <= i < j < sorted_positions(keys, n).len() && keys[#[trigger] sorted_positions(
                keys,
                n,
            )[i]] == keys[#[trigger] sorted_positions(keys, n)[j]] ==> sorted_positions(keys, n)[i]
                < sorted_positions(keys, n)[j],
    decreases n,
{
    if n > 0 {
        lemma_stable(keys, n - 1);
        sorting_keeps_everything(keys, n - 1);
        lemma_insert_behind(keys, sorted_positions(keys, n - 1), n - 1);
    }
}

} // verus!
