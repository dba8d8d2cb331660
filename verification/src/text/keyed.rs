//! Values under texts.

use crate::text::chars;
use crate::text::chars::{list_has, same_text};
use vstd::prelude::*;

verus! {

/// A value for each of some texts.
pub struct Keyed<V> {
    pub entries: Vec<(String, V)>,
}

pub open spec fn is_key<V>(entries: Seq<(String, V)>, key: Seq<char>) -> bool {
    exists|i: int| 0 <= i < entries.len() && (#[trigger] entries[i]).0@ == key
}

pub open spec fn value_under<V>(entries: Seq<(String, V)>, key: Seq<char>) -> V {
    entries[choose|i: int| 0 <= i < entries.len() && (#[trigger] entries[i]).0@ == key].1
}

pub open spec fn keys_are_distinct<V>(entries: Seq<(String, V)>) -> bool {
    forall|i: int, j: int|
        0 <= i < j < entries.len() ==> (#[trigger] entries[i]).0@ != (#[trigger] entries[j]).0@
}

impl<V> View for Keyed<V> {
    type V = Map<Seq<char>, V>;

    open spec fn view(&self) -> Map<Seq<char>, V> {
        Map::new(
            |key: Seq<char>| is_key(self.entries@, key),
            |key: Seq<char>| value_under(self.entries@, key),
        )
    }
}

proof fn lemma_entry<V>(entries: Seq<(String, V)>, i: int)
    requires
        keys_are_distinct(entries),
        0 <= i < entries.len(),
    ensures
        is_key(entries, entries[i].0@),
        value_under(entries, entries[i].0@) == entries[i].1,
{
    let key = entries[i].0@;
    assert(entries[i].0@ == key);
    let k = choose|k: int| 0 <= k < entries.len() && (#[trigger] entries[k]).0@ == key;
    if k < i {
        assert(entries[k].0@ != entries[i].0@);
    }
    if i < k {
        assert(entries[i].0@ != entries[k].0@);
    }
}

impl<V> Keyed<V> {
    /// Every text occurs once.
    pub open spec fn wf(&self) -> bool {
        keys_are_distinct(self.entries@)
    }

    pub fn new() -> (out: Keyed<V>)
        ensures
            out.wf(),
            out@ == Map::<Seq<char>, V>::empty(),
    {
        let out = Keyed { entries: Vec::new() };
        assert(out@ =~= Map::<Seq<char>, V>::empty());
        out
    }

    fn find(&self, key: &str) -> (at: Option<usize>)
        requires
            self.wf(),
        ensures
            match at {
                Some(i) => i < self.entries@.len() && self.entries@[i as int].0@ == key@
                    && self@.dom().contains(key@) && self@[key@] == self.entries@[i as int].1,
                None => !self@.dom().contains(key@),
            },
    {
        let mut i: usize = 0;
        while i < self.entries.len()
            invariant
                i <= self.entries@.len(),
                self.wf(),
                forall|k: int| 0 <= k < i ==> (#[trigger] self.entries@[k]).0@ != key@,
            decreases self.entries@.len() - i,
        {
            if same_text(self.entries[i].0.as_str(), key) {
                proof {
                    lemma_entry(self.entries@, i as int);
                }
                return Some(i);
            }
            i += 1;
        }
        None
    }

    pub fn get(&self, key: &str) -> (value: Option<&V>)
        requires
            self.wf(),
        ensures
            match value {
                Some(value) => self@.dom().contains(key@) && *value == self@[key@],
                None => !self@.dom().contains(key@),
            },
    {
        match self.find(key) {
            Some(i) => Some(&self.entries[i].1),
            None => None,
        }
    }

    pub fn remove(&mut self, key: &str)
        requires
            old(self).wf(),
        ensures
            final(self).wf(),
            final(self)@ == old(self)@.remove(key@),
    {
        let ghost before = *self;
        match self.find(key) {
            Some(at) => {
                let _ = self.entries.remove(at);
                proof {
                    lemma_removed(before.entries@, at as int);
                    assert(self@ =~= before@.remove(key@));
                }
            },
            None => {
                assert(self@ =~= before@.remove(key@));
            },
        }
    }

    pub fn insert(&mut self, key: &str, value: V)
        requires
            old(self).wf(),
        ensures
            final(self).wf(),
            final(self)@ == old(self)@.insert(key@, value),
    {
        let ghost start = *self;
        self.remove(key);
        let ghost before = *self;
        self.entries.push((key.to_owned(), value));
        proof {
            let entry = self.entries@.last();
            assert(!before@.dom().contains(key@));
            assert(self.entries@ =~= before.entries@.push(entry));
            lemma_pushed(before.entries@, entry);
            assert forall|k: Seq<char>| #[trigger] self@.dom().contains(k) implies self@[k]
                == start@.insert(key@, value)[k] by {
                assert(is_key(self.entries@, k));
                if k != key@ {
                    assert(before@.dom().contains(k));
                    assert(before@[k] == start@[k]);
                }
            }
            assert forall|k: Seq<char>| self@.dom().contains(k) == start@.insert(
                key@,
                value,
            ).dom().contains(k) by {
                assert(is_key(self.entries@, k) == (is_key(before.entries@, k) || k == key@));
                assert(before@.dom().contains(k) == (start@.dom().contains(k) && k != key@));
            }
            assert(self@ =~= start@.insert(key@, value));
        }
    }

    /// Keeps what is under the given texts.
    pub fn keep(&mut self, keys: &Vec<String>)
        requires
            old(self).wf(),
        ensures
            final(self).wf(),
            final(self)@ == old(self)@.restrict(chars::texts(keys@).to_set()),
    {
        let ghost start = *self;
        let mut i: usize = 0;
        while i < self.entries.len()
            invariant
                i <= self.entries@.len(),
                self.wf(),
                forall|k: int|
                    0 <= k < i ==> chars::texts(keys@).contains((#[trigger] self.entries@[k]).0@),
                forall|key: Seq<char>| #[trigger]
                    self@.dom().contains(key) ==> start@.dom().contains(key) && self@[key]
                        == start@[key],
                forall|key: Seq<char>| #[trigger]
                    start@.dom().contains(key) && chars::texts(keys@).contains(key)
                        ==> self@.dom().contains(key),
            decreases self.entries@.len() - i,
        {
            if list_has(keys, self.entries[i].0.as_str()) {
                i += 1;
            } else {
                let ghost before = *self;
                let ghost gone = self.entries@[i as int].0@;
                let _ = self.entries.remove(i);
                proof {
                    lemma_removed(before.entries@, i as int);
                    assert(self@ =~= before@.remove(gone));
                    assert forall|k: int| 0 <= k < i implies chars::texts(keys@).contains(
                        (#[trigger] self.entries@[k]).0@,
                    ) by {
                        assert(self.entries@[k] == before.entries@[k]);
                    }
                }
            }
        }
        proof {
            let wanted = chars::texts(keys@).to_set();
            assert forall|key: Seq<char>| #[trigger] self@.dom().contains(key) implies wanted.contains(
                key,
            ) by {
                let k = choose|k: int|
                    0 <= k < self.entries@.len() && (#[trigger] self.entries@[k]).0@ == key;
                assert(chars::texts(keys@).contains(self.entries@[k].0@));
            }
            assert(self@ =~= start@.restrict(wanted));
        }
    }
}

proof fn lemma_removed<V>(entries: Seq<(String, V)>, at: int)
    requires
        keys_are_distinct(entries),
        0 <= at < entries.len(),
    ensures
        keys_are_distinct(entries.remove(at)),
        forall|key: Seq<char>| #[trigger]
            is_key(entries.remove(at), key) == (is_key(entries, key) && key != entries[at].0@),
        forall|key: Seq<char>|
            is_key(entries.remove(at), key) ==> #[trigger] value_under(entries.remove(at), key)
                == value_under(entries, key),
{
    let rest = entries.remove(at);
    assert forall|i: int| 0 <= i < rest.len() implies #[trigger] rest[i] == entries[if i < at {
        i
    } else {
        i + 1
    }] by {}
    assert forall|key: Seq<char>| #[trigger] is_key(rest, key) == (is_key(entries, key) && key
        != entries[at].0@) by {
        if is_key(rest, key) {
            let i = choose|i: int| 0 <= i < rest.len() && (#[trigger] rest[i]).0@ == key;
            let j = if i < at {
                i
            } else {
                i + 1
            };
            assert(rest[i] == entries[j]);
            assert(entries[j].0@ == key);
        }
        if is_key(entries, key) && key != entries[at].0@ {
            let j = choose|j: int| 0 <= j < entries.len() && (#[trigger] entries[j]).0@ == key;
            let i = if j < at {
                j
            } else {
                j - 1
            };
            assert(rest[i] == entries[j]);
        }
    }
    assert forall|key: Seq<char>| is_key(rest, key) implies #[trigger] value_under(rest, key)
        == value_under(entries, key) by {
        let i = choose|i: int| 0 <= i < rest.len() && (#[trigger] rest[i]).0@ == key;
        let j = if i < at {
            i
        } else {
            i + 1
        };
        assert(rest[i] == entries[j]);
        lemma_entry(entries, j);
        lemma_entry(rest, i);
    }
}

proof fn lemma_pushed<V>(entries: Seq<(String, V)>, entry: (String, V))
    requires
        keys_are_distinct(entries),
        !is_key(entries, entry.0@),
    ensures
        keys_are_distinct(entries.push(entry)),
        forall|key: Seq<char>| #[trigger]
            is_key(entries.push(entry), key) == (is_key(entries, key) || key == entry.0@),
        forall|key: Seq<char>|
            is_key(entries.push(entry), key) ==> #[trigger] value_under(entries.push(entry), key)
                == if key == entry.0@ {
                entry.1
            } else {
                value_under(entries, key)
            },
{
    let more = entries.push(entry);
    assert forall|i: int, j: int| 0 <= i < j < more.len() implies (#[trigger] more[i]).0@ != (
    #[trigger] more[j]).0@ by {
        assert(more[i] == entries[i]);
        if j < entries.len() {
            assert(more[j] == entries[j]);
        } else {
            assert(is_key(entries, entries[i].0@));
        }
    }
    assert forall|key: Seq<char>| #[trigger] is_key(more, key) == (is_key(entries, key) || key
        == entry.0@) by {
        if is_key(more, key) {
            let i = choose|i: int| 0 <= i < more.len() && (#[trigger] more[i]).0@ == key;
            if i < entries.len() {
                assert(entries[i].0@ == key);
            }
        }
        if is_key(entries, key) {
            let i = choose|i: int| 0 <= i < entries.len() && (#[trigger] entries[i]).0@ == key;
            assert(more[i].0@ == key);
        }
        if key == entry.0@ {
            assert(more[entries.len() as int].0@ == key);
        }
    }
    assert forall|key: Seq<char>| is_key(more, key) implies #[trigger] value_under(more, key)
        == if key == entry.0@ {
        entry.1
    } else {
        value_under(entries, key)
    } by {
        if key == entry.0@ {
            lemma_entry(more, entries.len() as int);
        } else {
            assert(is_key(entries, key));
            let i = choose|i: int| 0 <= i < entries.len() && (#[trigger] entries[i]).0@ == key;
            assert(more[i] == entries[i]);
            lemma_entry(more, i);
            lemma_entry(entries, i);
        }
    }
}

} // verus!
