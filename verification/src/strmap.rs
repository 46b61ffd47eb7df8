//! A map from strings to values.

use vstd::prelude::*;

use crate::copying::Duplicate;
use crate::text;

verus! {

/// A map from strings to values, held as a list in which no key occurs twice.
pub struct StrMap<V> {
    entries: Vec<(String, V)>,
}

/// Whether no key occurs twice in `entries`.
pub closed spec fn distinct_keys<V>(entries: Seq<(String, V)>) -> bool {
    forall|i: int, j: int|
        0 <= i < j < entries.len() ==> (#[trigger] entries[i]).0@ != (#[trigger] entries[j]).0@
}

/// The value at the first key `key` in `entries`.
pub closed spec fn lookup<V>(entries: Seq<(String, V)>, key: Seq<char>) -> Option<V>
    decreases entries.len(),
{
    if entries.len() == 0 {
        None
    } else if entries[0].0@ == key {
        Some(entries[0].1)
    } else {
        lookup(entries.skip(1), key)
    }
}

/// The map that `entries` represents.
pub closed spec fn as_map<V>(entries: Seq<(String, V)>) -> Map<Seq<char>, V> {
    Map::new(
        |key: Seq<char>| lookup(entries, key) is Some,
        |key: Seq<char>| lookup(entries, key)->0,
    )
}

proof fn lookup_at<V>(entries: Seq<(String, V)>, key: Seq<char>, i: int)
    requires
        distinct_keys(entries),
        0 <= i < entries.len(),
        entries[i].0@ == key,
    ensures
        lookup(entries, key) == Some(entries[i].1),
    decreases entries.len(),
{
    if i > 0 {
        assert(entries[0].0@ != entries[i].0@);
        let rest = entries.skip(1);
        assert forall|a: int, b: int| 0 <= a < b < rest.len() implies (#[trigger] rest[a]).0@ != (
        #[trigger] rest[b]).0@ by {
            assert(entries[a + 1].0@ != entries[b + 1].0@);
        }
        lookup_at(rest, key, i - 1);
    }
}

proof fn lookup_none<V>(entries: Seq<(String, V)>, key: Seq<char>)
    requires
        forall|i: int| 0 <= i < entries.len() ==> (#[trigger] entries[i]).0@ != key,
    ensures
        lookup(entries, key) is None,
    decreases entries.len(),
{
    if entries.len() > 0 {
        let rest = entries.skip(1);
        assert forall|i: int| 0 <= i < rest.len() implies (#[trigger] rest[i]).0@ != key by {
            assert(entries[i + 1].0@ != key);
        }
        lookup_none(rest, key);
    }
}

proof fn lookup_some<V>(entries: Seq<(String, V)>, key: Seq<char>) -> (i: int)
    requires
        lookup(entries, key) is Some,
    ensures
        0 <= i < entries.len(),
        entries[i].0@ == key,
        lookup(entries, key) == Some(entries[i].1),
    decreases entries.len(),
{
    if entries[0].0@ == key {
        0
    } else {
        let i = lookup_some(entries.skip(1), key);
        assert(entries.skip(1)[i] == entries[i + 1]);
        i + 1
    }
}

impl<V> View for StrMap<V> {
    type V = Map<Seq<char>, V>;

    closed spec fn view(&self) -> Map<Seq<char>, V> {
        as_map(self.entries@)
    }
}

impl<V: DeepView> DeepView for StrMap<V> {
    type V = Map<Seq<char>, V::V>;

    open spec fn deep_view(&self) -> Map<Seq<char>, V::V> {
        self@.map_values(|value: V| value.deep_view())
    }
}

impl<V> StrMap<V> {
    #[verifier::type_invariant]
    spec fn well_formed(self) -> bool {
        distinct_keys(self.entries@)
    }

    fn position(&self, key: &str) -> (r: Option<usize>)
        ensures
            match r {
                Some(i) => i < self.entries@.len() && self.entries@[i as int].0@ == key@,
                None => forall|i: int|
                    0 <= i < self.entries@.len() ==> (#[trigger] self.entries@[i]).0@ != key@,
            },
    {
        let mut i: usize = 0;
        while i < self.entries.len()
            invariant
                i <= self.entries@.len(),
                forall|j: int| 0 <= j < i ==> (#[trigger] self.entries@[j]).0@ != key@,
            decreases self.entries@.len() - i,
        {
            if text::same(self.entries[i].0.as_str(), key) {
                return Some(i);
            }
            i += 1;
        }
        None
    }
}

impl<V: DeepView> StrMap<V> {
    pub fn new() -> (r: Self)
        ensures
            r@ == Map::<Seq<char>, V>::empty(),
            r.deep_view() == Map::<Seq<char>, V::V>::empty(),
    {
        let r = StrMap { entries: Vec::new() };
        assert(r@ =~= Map::<Seq<char>, V>::empty());
        assert(r.deep_view() =~= Map::<Seq<char>, V::V>::empty());
        r
    }

    pub fn contains_key(&self, key: &str) -> (r: bool)
        ensures
            r == self@.contains_key(key@),
            r == self.deep_view().contains_key(key@),
    {
        self.get(key).is_some()
    }

    pub fn get(&self, key: &str) -> (r: Option<&V>)
        ensures
            match r {
                Some(value) => {
                    &&& self@.contains_key(key@)
                    &&& self@[key@] == *value
                    &&& self.deep_view().contains_key(key@)
                    &&& self.deep_view()[key@] == value.deep_view()
                },
                None => !self@.contains_key(key@) && !self.deep_view().contains_key(key@),
            },
    {
        proof {
            use_type_invariant(self);
        }
        match self.position(key) {
            Some(i) => {
                proof {
                    lookup_at(self.entries@, key@, i as int);
                }
                Some(&self.entries[i].1)
            },
            None => {
                proof {
                    lookup_none(self.entries@, key@);
                }
                None
            },
        }
    }

    /// Removes the entry of `key` and returns its value.
    pub fn remove(&mut self, key: &str) -> (r: Option<V>)
        ensures
            final(self)@ == old(self)@.remove(key@),
            final(self).deep_view() == old(self).deep_view().remove(key@),
            match r {
                Some(value) => {
                    &&& old(self)@.contains_key(key@)
                    &&& old(self)@[key@] == value
                    &&& old(self).deep_view().contains_key(key@)
                    &&& old(self).deep_view()[key@] == value.deep_view()
                },
                None => !old(self)@.contains_key(key@) && !old(self).deep_view().contains_key(key@),
            },
    {
        proof {
            use_type_invariant(&*self);
        }
        let ghost before = self.entries@;
        match self.position(key) {
            Some(i) => {
                let mut entries: Vec<(String, V)> = Vec::new();
                std::mem::swap(&mut entries, &mut self.entries);
                let (_, value) = entries.swap_remove(i);
                proof {
                    lookup_at(before, key@, i as int);
                    assert(distinct_keys(entries@)) by {
                        assert forall|a: int, b: int| 0 <= a < b < entries@.len() implies (
                        #[trigger] entries@[a]).0@ != (#[trigger] entries@[b]).0@ by {
                            let last = before.len() - 1;
                            let x = if a == i { last } else { a };
                            let y = if b == i { last } else { b };
                            if x < y {
                                assert(before[x].0@ != before[y].0@);
                            } else {
                                assert(before[y].0@ != before[x].0@);
                            }
                        }
                    }
                    assert forall|k: Seq<char>| #[trigger] lookup(entries@, k) == if k == key@ {
                        None
                    } else {
                        lookup(before, k)
                    } by {
                        lemma_swap_removed(before, entries@, i as int, k);
                    }
                }
                self.entries = entries;
                assert(self@ =~= old(self)@.remove(key@));
                assert(self.deep_view() =~= old(self).deep_view().remove(key@));
                Some(value)
            },
            None => {
                proof {
                    lookup_none(self.entries@, key@);
                }
                assert(self@ =~= old(self)@.remove(key@));
                assert(self.deep_view() =~= old(self).deep_view().remove(key@));
                None
            },
        }
    }

    /// Maps `key` to `value`, in place of what it was mapped to before.
    pub fn insert(&mut self, key: String, value: V)
        ensures
            final(self)@ == old(self)@.insert(key@, value),
            final(self).deep_view() == old(self).deep_view().insert(key@, value.deep_view()),
    {
        let _ = self.remove(key.as_str());
        proof {
            use_type_invariant(&*self);
            lemma_pushed(self.entries@, (key, value));
        }
        let mut entries: Vec<(String, V)> = Vec::new();
        std::mem::swap(&mut entries, &mut self.entries);
        entries.push((key, value));
        self.entries = entries;
        assert(self@ =~= old(self)@.insert(key@, value));
        assert(self.deep_view() =~= old(self).deep_view().insert(key@, value.deep_view()));
    }

    /// The keys, each once.
    pub fn keys(&self) -> (r: Vec<String>)
        ensures
            forall|i: int|
                0 <= i < r@.len() ==> self.deep_view().contains_key((#[trigger] r@[i])@),
            forall|i: int, j: int|
                0 <= i < j < r@.len() ==> (#[trigger] r@[i])@ != (#[trigger] r@[j])@,
            forall|key: Seq<char>| #[trigger]
                self.deep_view().contains_key(key) ==> exists|i: int|
                    0 <= i < r@.len() && (#[trigger] r@[i])@ == key,
    {
        proof {
            use_type_invariant(self);
        }
        let mut out: Vec<String> = Vec::new();
        let mut i: usize = 0;
        while i < self.entries.len()
            invariant
                i <= self.entries@.len(),
                out@.len() == i,
                forall|j: int| 0 <= j < i ==> (#[trigger] out@[j])@ == self.entries@[j].0@,
            decreases self.entries@.len() - i,
        {
            out.push(self.entries[i].0.clone());
            i += 1;
        }
        proof {
            assert forall|j: int| 0 <= j < out@.len() implies self.deep_view().contains_key(
                (#[trigger] out@[j])@,
            ) by {
                lookup_at(self.entries@, out@[j]@, j);
            }
            assert forall|a: int, b: int| 0 <= a < b < out@.len() implies (#[trigger] out@[a])@ != (
            #[trigger] out@[b])@ by {
                assert(self.entries@[a].0@ != self.entries@[b].0@);
            }
            assert forall|key: Seq<char>| #[trigger]
                self.deep_view().contains_key(key) implies exists|j: int|
                0 <= j < out@.len() && (#[trigger] out@[j])@ == key by {
                let j = lookup_some(self.entries@, key);
                assert(out@[j]@ == key);
            }
        }
        out
    }

    /// Whether the map has no entry.
    pub fn is_empty(&self) -> (r: bool)
        ensures
            r == (self.deep_view() == Map::<Seq<char>, V::V>::empty()),
    {
        if self.entries.len() == 0 {
            assert(self.deep_view() =~= Map::<Seq<char>, V::V>::empty());
            true
        } else {
            proof {
                use_type_invariant(self);
                lookup_at(self.entries@, self.entries@[0].0@, 0);
                assert(self.deep_view().contains_key(self.entries@[0].0@));
            }
            false
        }
    }
}

proof fn lemma_pushed<V>(before: Seq<(String, V)>, entry: (String, V))
    requires
        distinct_keys(before),
        !as_map(before).contains_key(entry.0@),
    ensures
        distinct_keys(before.push(entry)),
        as_map(before.push(entry)) == as_map(before).insert(entry.0@, entry.1),
{
    let after = before.push(entry);
    let name = entry.0@;
    assert forall|j: int| 0 <= j < before.len() implies (#[trigger] before[j]).0@ != name by {
        if before[j].0@ == name {
            lookup_at(before, name, j);
        }
    }
    assert forall|a: int, b: int| 0 <= a < b < after.len() implies (#[trigger] after[a]).0@ != (
    #[trigger] after[b]).0@ by {
        assert(before[a].0@ != name);
        if b < before.len() {
            assert(before[a].0@ != before[b].0@);
        }
    }
    assert forall|k: Seq<char>| #[trigger] lookup(after, k) == if k == name {
        Some(entry.1)
    } else {
        lookup(before, k)
    } by {
        if k == name {
            assert(after[before.len() as int] == entry);
            lookup_at(after, k, before.len() as int);
        } else if lookup(before, k) is Some {
            let j = lookup_some(before, k);
            assert(after[j] == before[j]);
            lookup_at(after, k, j);
        } else {
            assert forall|j: int| 0 <= j < after.len() implies (#[trigger] after[j]).0@ != k by {
                if j < before.len() && before[j].0@ == k {
                    lookup_at(before, k, j);
                }
            }
            lookup_none(after, k);
        }
    }
    assert(as_map(after) =~= as_map(before).insert(name, entry.1));
}

proof fn lemma_swap_removed<V>(
    before: Seq<(String, V)>,
    after: Seq<(String, V)>,
    i: int,
    k: Seq<char>,
)
    requires
        distinct_keys(before),
        distinct_keys(after),
        0 <= i < before.len(),
        after == before.update(i, before.last()).drop_last(),
    ensures
        lookup(after, k) == if k == before[i].0@ {
            None
        } else {
            lookup(before, k)
        },
{
    let last = before.len() - 1;
    if k == before[i].0@ {
        assert forall|j: int| 0 <= j < after.len() implies (#[trigger] after[j]).0@ != k by {
            let x = if j == i { last } else { j };
            if x < i {
                assert(before[x].0@ != before[i].0@);
            } else {
                assert(before[i].0@ != before[x].0@);
            }
        }
        lookup_none(after, k);
    } else if lookup(before, k) is Some {
        let j = lookup_some(before, k);
        if j == last {
            assert(after[i] == before[last]);
            lookup_at(after, k, i);
        } else {
            assert(after[j] == before[j]);
            lookup_at(after, k, j);
        }
    } else {
        assert forall|j: int| 0 <= j < after.len() implies (#[trigger] after[j]).0@ != k by {
            let x = if j == i { last } else { j };
            if before[x].0@ == k {
                lookup_at(before, k, x);
            }
        }
        lookup_none(after, k);
    }
}

impl<V: Duplicate> Duplicate for StrMap<V> {
    fn duplicate(&self) -> (r: Self) {
        let keys = self.keys();
        let mut out: StrMap<V> = StrMap::new();
        let mut i: usize = 0;
        while i < keys.len()
            invariant
                i <= keys@.len(),
                forall|j: int|
                    0 <= j < keys@.len() ==> self.deep_view().contains_key((#[trigger] keys@[j])@),
                forall|j: int|
                    0 <= j < i ==> out.deep_view().contains_key((#[trigger] keys@[j])@),
                forall|key: Seq<char>| #[trigger]
                    out.deep_view().contains_key(key) ==> self.deep_view().contains_key(key)
                        && self.deep_view()[key] == out.deep_view()[key],
            decreases keys@.len() - i,
        {
            if let Some(value) = self.get(keys[i].as_str()) {
                out.insert(keys[i].clone(), value.duplicate());
            }
            i += 1;
        }
        assert(out.deep_view() =~= self.deep_view());
        out
    }
}

} // verus!
