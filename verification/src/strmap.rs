//! A map from strings, small enough to be searched from end to end.

use crate::text;
use vstd::prelude::*;

verus! {

/// A map from strings to values.
#[verifier::reject_recursive_types(V)]
pub struct StrMap<V> {
    entries: Vec<(String, V)>,
}

/// No two entries have the same key.
pub open spec fn distinct<V>(entries: Seq<(String, V)>) -> bool {
    forall|i: int, j: int|
        0 <= i < j < entries.len() ==> (#[trigger] entries[i]).0@ != (#[trigger] entries[j]).0@
}

/// The map that the entries spell out.
pub open spec fn map_of<V>(entries: Seq<(String, V)>) -> Map<Seq<char>, V>
    decreases entries.len(),
{
    if entries.len() == 0 {
        Map::empty()
    } else {
        map_of(entries.drop_last()).insert(entries.last().0@, entries.last().1)
    }
}

proof fn lemma_map_of<V>(entries: Seq<(String, V)>)
    requires
        distinct(entries),
    ensures
        forall|i: int|
            0 <= i < entries.len() ==> map_of(entries).contains_pair(
                (#[trigger] entries[i]).0@,
                entries[i].1,
            ),
        forall|k: Seq<char>|
            map_of(entries).contains_key(k) ==> exists|i: int|
                0 <= i < entries.len() && (#[trigger] entries[i]).0@ == k,
        map_of(entries).dom().finite(),
    decreases entries.len(),
{
    if entries.len() > 0 {
        let before = entries.drop_last();
        assert(distinct(before)) by {
            assert forall|i: int, j: int| 0 <= i < j < before.len() implies (#[trigger] before[i]).0@
                != (#[trigger] before[j]).0@ by {
                assert(before[i] == entries[i] && before[j] == entries[j]);
            }
        }
        lemma_map_of(before);
        assert forall|i: int| 0 <= i < entries.len() implies map_of(entries).contains_pair(
            (#[trigger] entries[i]).0@,
            entries[i].1,
        ) by {
            if i < before.len() {
                assert(before[i] == entries[i]);
            }
        }
        assert forall|k: Seq<char>| map_of(entries).contains_key(k) implies exists|i: int|
            0 <= i < entries.len() && (#[trigger] entries[i]).0@ == k by {
            if k != entries.last().0@ {
                let i = choose|i: int| 0 <= i < before.len() && (#[trigger] before[i]).0@ == k;
                assert(entries[i].0@ == k);
            } else {
                assert(entries[entries.len() - 1].0@ == k);
            }
        }
    }
}

impl<V> View for StrMap<V> {
    type V = Map<Seq<char>, V>;

    closed spec fn view(&self) -> Map<Seq<char>, V> {
        map_of(self.entries@)
    }
}

impl<V> StrMap<V> {
    #[verifier::type_invariant]
    spec fn keys_distinct(self) -> bool {
        distinct(self.entries@)
    }

    /// The map without entries.
    pub fn new() -> (r: Self)
        ensures
            r@ == Map::<Seq<char>, V>::empty(),
    {
        StrMap { entries: Vec::new() }
    }

    fn position(entries: &Vec<(String, V)>, key: &str) -> (r: Option<usize>)
        requires
            distinct(entries@),
        ensures
            match r {
                Some(i) => i < entries@.len() && entries@[i as int].0@ == key@ && map_of(
                    entries@,
                ).contains_pair(key@, entries@[i as int].1),
                None => !map_of(entries@).contains_key(key@) && forall|i: int|
                    0 <= i < entries@.len() ==> (#[trigger] entries@[i]).0@ != key@,
            },
    {
        proof {
            lemma_map_of(entries@);
        }
        let mut i: usize = 0;
        while i < entries.len()
            invariant
                i <= entries@.len(),
                distinct(entries@),
                forall|j: int| 0 <= j < i ==> (#[trigger] entries@[j]).0@ != key@,
                forall|j: int|
                    0 <= j < entries@.len() ==> map_of(entries@).contains_pair(
                        (#[trigger] entries@[j]).0@,
                        entries@[j].1,
                    ),
            decreases entries@.len() - i,
        {
            if text::same(entries[i].0.as_str(), key) {
                return Some(i);
            }
            i = i + 1;
        }
        None
    }

    /// The value under `key`.
    pub fn get(&self, key: &str) -> (r: Option<&V>)
        ensures
            match r {
                Some(v) => self@.contains_pair(key@, *v),
                None => !self@.contains_key(key@),
            },
    {
        proof {
            use_type_invariant(self);
        }
        match Self::position(&self.entries, key) {
            Some(i) => Some(&self.entries[i].1),
            None => None,
        }
    }

    /// Whether there is a value under `key`.
    pub fn contains(&self, key: &str) -> (r: bool)
        ensures
            r == self@.contains_key(key@),
    {
        self.get(key).is_some()
    }

    /// Whether the map has no entries.
    pub fn is_empty(&self) -> (r: bool)
        ensures
            r == (self@ == Map::<Seq<char>, V>::empty()),
    {
        proof {
            use_type_invariant(self);
            lemma_map_of(self.entries@);
        }
        if self.entries.len() > 0 {
            assert(self@.contains_key(self.entries@[0].0@));
            assert(!Map::<Seq<char>, V>::empty().contains_key(self.entries@[0].0@));
        }
        self.entries.len() == 0
    }

    /// Takes the value under `key` out of the map.
    pub fn take(&mut self, key: &str) -> (r: Option<V>)
        ensures
            final(self)@ == old(self)@.remove(key@),
            match r {
                Some(v) => old(self)@.contains_pair(key@, v),
                None => !old(self)@.contains_key(key@),
            },
    {
        proof {
            use_type_invariant(&*self);
            lemma_map_of(self.entries@);
        }
        match Self::position(&self.entries, key) {
            Some(i) => {
                let ghost before = self.entries@;
                let mut entries: Vec<(String, V)> = Vec::new();
                std::mem::swap(&mut entries, &mut self.entries);
                let pair = entries.remove(i);
                proof {
                    let after = entries@;
                    assert forall|a: int, b: int| 0 <= a < b < after.len() implies (
                    #[trigger] after[a]).0@ != (#[trigger] after[b]).0@ by {
                        let x = if a < i { a } else { a + 1 };
                        let y = if b < i { b } else { b + 1 };
                        assert(after[a] == before[x] && after[b] == before[y]);
                    }
                    lemma_map_of(after);
                    assert forall|k: Seq<char>| map_of(after).contains_key(k) implies map_of(
                        before,
                    ).remove(key@).contains_pair(k, map_of(after)[k]) by {
                        let a = choose|a: int| 0 <= a < after.len() && (#[trigger] after[a]).0@
                            == k;
                        let x = if a < i { a } else { a + 1 };
                        assert(after[a] == before[x]);
                        assert(map_of(after).contains_pair(after[a].0@, after[a].1));
                        assert(map_of(before).contains_pair(before[x].0@, before[x].1));
                        assert(before[x].0@ != before[i as int].0@);
                    }
                    assert forall|k: Seq<char>| map_of(before).remove(key@).contains_key(
                        k,
                    ) implies map_of(after).contains_key(k) by {
                        let x = choose|x: int| 0 <= x < before.len() && (#[trigger] before[x]).0@
                            == k;
                        let a = if x < i { x } else { x - 1 };
                        assert(after[a] == before[x]);
                        assert(map_of(after).contains_pair(after[a].0@, after[a].1));
                    }
                    assert(map_of(after) =~= map_of(before).remove(key@));
                }
                self.entries = entries;
                Some(pair.1)
            },
            None => {
                assert(self@.remove(key@) =~= self@);
                None
            },
        }
    }

    /// Puts `value` under `key`, in place of what was there.
    pub fn insert(&mut self, key: String, value: V)
        ensures
            final(self)@ == old(self)@.insert(key@, value),
    {
        let ghost start = self@;
        let _ = self.take(key.as_str());
        proof {
            use_type_invariant(&*self);
            lemma_map_of(self.entries@);
            assert(!self@.contains_key(key@));
        }
        let ghost before = self.entries@;
        let mut entries: Vec<(String, V)> = Vec::new();
        std::mem::swap(&mut entries, &mut self.entries);
        entries.push((key, value));
        proof {
            let after = entries@;
            assert forall|a: int, b: int| 0 <= a < b < after.len() implies (#[trigger] after[a]).0@
                != (#[trigger] after[b]).0@ by {
                assert(after[a] == before[a]);
                assert(map_of(before).contains_pair(before[a].0@, before[a].1));
                if b < before.len() {
                    assert(after[b] == before[b]);
                }
            }
            assert(after.drop_last() =~= before);
            assert(map_of(after) =~= start.insert(key@, value));
        }
        self.entries = entries;
    }

    /// The keys of the map, each once.
    pub fn keys(&self) -> (r: Vec<String>)
        ensures
            forall|k: Seq<char>|
                self@.contains_key(k) <==> #[trigger] text::views(r@).contains(k),
            text::views(r@).no_duplicates(),
    {
        proof {
            use_type_invariant(self);
            lemma_map_of(self.entries@);
        }
        let mut out: Vec<String> = Vec::new();
        let mut i: usize = 0;
        while i < self.entries.len()
            invariant
                i <= self.entries@.len(),
                out@.len() == i,
                forall|j: int| 0 <= j < i ==> (#[trigger] out@[j])@ == self.entries@[j].0@,
            decreases self.entries@.len() - i,
        {
            out.push(self.entries[i].0.clone());
            i = i + 1;
        }
        proof {
            let vs = text::views(out@);
            assert forall|k: Seq<char>| self@.contains_key(k) implies vs.contains(k) by {
                let j = choose|j: int|
                    0 <= j < self.entries@.len() && (#[trigger] self.entries@[j]).0@ == k;
                assert(out@[j]@ == k);
                assert(vs[j] == k);
            }
            assert forall|k: Seq<char>| vs.contains(k) implies self@.contains_key(k) by {
                let j = choose|j: int| 0 <= j < vs.len() && vs[j] == k;
                assert(out@[j]@ == k);
                assert(self@.contains_pair(self.entries@[j].0@, self.entries@[j].1));
            }
            assert(vs.no_duplicates()) by {
                assert forall|a: int, b: int| 0 <= a < b < vs.len() implies vs[a] != vs[b] by {
                    assert(out@[a]@ == self.entries@[a].0@);
                    assert(out@[b]@ == self.entries@[b].0@);
                }
            }
        }
        out
    }

    /// Drops every entry whose key is not among `kept`.
    pub fn retain_keys(&mut self, kept: &Vec<String>)
        ensures
            final(self)@ == old(self)@.restrict(text::views(kept@).to_set()),
    {
        let keys = self.keys();
        let ghost start = self@;
        let ghost wanted = text::views(kept@).to_set();
        let ghost kv = text::views(keys@);
        let mut i: usize = 0;
        proof {
            assert(kv.skip(0) =~= kv);
            assert(self@ =~= start.restrict(
                Set::new(|k: Seq<char>| wanted.contains(k) || kv.skip(0).contains(k)),
            ));
        }
        while i < keys.len()
            invariant
                i <= keys@.len(),
                kv == text::views(keys@),
                kv.no_duplicates(),
                wanted == text::views(kept@).to_set(),
                forall|k: Seq<char>| start.contains_key(k) <==> #[trigger] kv.contains(k),
                self@ == start.restrict(
                    Set::new(|k: Seq<char>| wanted.contains(k) || kv.skip(i as int).contains(k)),
                ),
            decreases keys@.len() - i,
        {
            let key = keys[i].as_str();
            let ghost rest = kv.skip(i as int);
            let ghost next = kv.skip(i + 1);
            let found = member(kept, key);
            proof {
                assert(rest =~= seq![key@] + next);
                assert forall|k: Seq<char>| rest.contains(k) == (k == key@ || next.contains(k)) by {
                    if rest.contains(k) {
                        let j = choose|j: int| 0 <= j < rest.len() && rest[j] == k;
                        if j > 0 {
                            assert(next[j - 1] == k);
                        }
                    }
                    if next.contains(k) {
                        let j = choose|j: int| 0 <= j < next.len() && next[j] == k;
                        assert(rest[j + 1] == k);
                    }
                    assert(rest[0] == key@);
                }
            }
            if !found {
                let _ = self.take(key);
            }
            proof {
                // No key comes a second time.
                assert(self@ =~= start.restrict(
                    Set::new(|k: Seq<char>| wanted.contains(k) || next.contains(k)),
                )) by {
                    if !found && next.contains(key@) {
                        let j = choose|j: int| 0 <= j < next.len() && next[j] == key@;
                        assert(kv[i as int] == kv[i + 1 + j]);
                    }
                }
            }
            i = i + 1;
        }
        proof {
            assert(kv.skip(i as int).len() == 0);
            assert(self@ =~= start.restrict(wanted));
        }
    }
}

/// Whether `key` is one of `list`.
pub fn member(list: &Vec<String>, key: &str) -> (r: bool)
    ensures
        r == text::views(list@).to_set().contains(key@),
        r == text::views(list@).contains(key@),
{
    let ghost vs = text::views(list@);
    let mut i: usize = 0;
    while i < list.len()
        invariant
            i <= list@.len(),
            vs == text::views(list@),
            forall|j: int| 0 <= j < i ==> vs[j] != key@,
        decreases list@.len() - i,
    {
        if text::same(list[i].as_str(), key) {
            assert(vs[i as int] == key@);
            return true;
        }
        i = i + 1;
    }
    false
}

} // verus!
