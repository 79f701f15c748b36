//! A map from strings to values, kept in insertion order.

use vstd::prelude::*;
use vstd::string::*;

use crate::value::Duplicate;

verus! {

/// A map keyed by strings. Iteration follows insertion order.
#[derive(Debug)]
pub struct StrMap<V> {
    entries: Vec<(String, V)>,
}

/// The mathematical map that a list of pairs with distinct keys stands for.
pub open spec fn map_of<T>(pairs: Seq<(Seq<char>, T)>) -> Map<Seq<char>, T>
    decreases pairs.len(),
{
    if pairs.len() == 0 {
        Map::empty()
    } else {
        map_of(pairs.drop_last()).insert(pairs.last().0, pairs.last().1)
    }
}

/// Whether no key occurs twice.
pub open spec fn distinct_keys<T>(pairs: Seq<(Seq<char>, T)>) -> bool {
    forall|i: int, j: int|
        0 <= i < j < pairs.len() ==> (#[trigger] pairs[i]).0 != (#[trigger] pairs[j]).0
}

/// What `map_of` holds, key by key.
pub proof fn lemma_map_of<T>(pairs: Seq<(Seq<char>, T)>)
    requires
        distinct_keys(pairs),
    ensures
        forall|i: int|
            #![trigger pairs[i]]
            0 <= i < pairs.len() ==> map_of(pairs).dom().contains(pairs[i].0) && map_of(
                pairs,
            )[pairs[i].0] == pairs[i].1,
        forall|k: Seq<char>| #[trigger]
            map_of(pairs).dom().contains(k) ==> exists|i: int|
                0 <= i < pairs.len() && (#[trigger] pairs[i]).0 == k,
    decreases pairs.len(),
{
    if pairs.len() > 0 {
        let rest = pairs.drop_last();
        assert forall|i: int, j: int| 0 <= i < j < rest.len() implies (#[trigger] rest[i]).0 != (
        #[trigger] rest[j]).0 by {
            assert(rest[i] == pairs[i] && rest[j] == pairs[j]);
        }
        lemma_map_of(rest);
        let last = pairs.len() - 1;
        assert forall|i: int| #![trigger pairs[i]] 0 <= i < pairs.len() implies map_of(
            pairs,
        ).dom().contains(pairs[i].0) && map_of(pairs)[pairs[i].0] == pairs[i].1 by {
            if i < last {
                assert(rest[i] == pairs[i]);
                assert(pairs[i].0 != pairs[last].0);
            }
        }
        assert forall|k: Seq<char>| #[trigger] map_of(pairs).dom().contains(k) implies exists|
            i: int,
        | 0 <= i < pairs.len() && (#[trigger] pairs[i]).0 == k by {
            if k == pairs[last].0 {
            } else {
                assert(map_of(rest).dom().contains(k));
                let i = choose|i: int| 0 <= i < rest.len() && (#[trigger] rest[i]).0 == k;
                assert(pairs[i].0 == k);
            }
        }
    }
}

/// Every key of `map_of` comes from a pair.
pub proof fn lemma_key_has_pair<T>(pairs: Seq<(Seq<char>, T)>)
    ensures
        forall|k: Seq<char>| #[trigger]
            map_of(pairs).dom().contains(k) ==> exists|i: int|
                0 <= i < pairs.len() && (#[trigger] pairs[i]).0 == k,
    decreases pairs.len(),
{
    if pairs.len() > 0 {
        let rest = pairs.drop_last();
        lemma_key_has_pair(rest);
        assert forall|k: Seq<char>| #[trigger] map_of(pairs).dom().contains(k) implies exists|
            i: int,
        | 0 <= i < pairs.len() && (#[trigger] pairs[i]).0 == k by {
            if k == pairs.last().0 {
                assert(pairs[pairs.len() - 1].0 == k);
            } else {
                assert(map_of(rest).dom().contains(k));
                let i = choose|i: int| 0 <= i < rest.len() && (#[trigger] rest[i]).0 == k;
                assert(pairs[i].0 == k);
            }
        }
    }
}

impl<V> StrMap<V> {
    #[verifier::type_invariant]
    spec fn keys_are_distinct(self) -> bool {
        forall|i: int, j: int|
            0 <= i < j < self.entries@.len() ==> (#[trigger] self.entries@[i]).0@ != (
            #[trigger] self.entries@[j]).0@
    }
}

impl<V: DeepView> StrMap<V> {
    /// The pairs in insertion order, by their views.
    pub closed spec fn pairs(self) -> Seq<(Seq<char>, V::V)> {
        self.entries@.map_values(|e: (String, V)| (e.0@, e.1.deep_view()))
    }

}

impl<V: DeepView> View for StrMap<V> {
    type V = Map<Seq<char>, V::V>;

    open spec fn view(&self) -> Map<Seq<char>, V::V> {
        map_of(self.pairs())
    }
}

impl<V: DeepView> DeepView for StrMap<V> {
    type V = Map<Seq<char>, V::V>;

    open spec fn deep_view(&self) -> Map<Seq<char>, V::V> {
        self@
    }
}

impl<V: DeepView> StrMap<V> {
    /// The empty map.
    pub fn new() -> (m: Self)
        ensures
            m@ == Map::<Seq<char>, V::V>::empty(),
            m.pairs() == Seq::<(Seq<char>, V::V)>::empty(),
    {
        let m = StrMap { entries: Vec::new() };
        assert(m.pairs() =~= Seq::empty());
        m
    }

    /// Which keys the map holds, in terms of its pairs.
    pub proof fn lemma_keys(&self)
        ensures
            forall|k: Seq<char>| #[trigger]
                self@.dom().contains(k) ==> exists|i: int|
                    0 <= i < self.pairs().len() && (#[trigger] self.pairs()[i]).0 == k,
    {
        let pairs = self.pairs();
        lemma_key_has_pair(pairs);
    }

    /// Number of keys.
    pub fn len(&self) -> (n: usize)
        ensures
            n == self.pairs().len(),
    {
        self.entries.len()
    }

    /// The key of the `i`-th pair.
    pub fn key_at(&self, i: usize) -> (k: &String)
        requires
            i < self.pairs().len(),
        ensures
            k@ == self.pairs()[i as int].0,
            self@.dom().contains(k@),
    {
        proof {
            use_type_invariant(self);
            lemma_map_of(self.pairs());
            let p = self.pairs()[i as int];
        }
        &self.entries[i].0
    }

    /// The value of the `i`-th pair.
    pub fn value_at(&self, i: usize) -> (v: &V)
        requires
            i < self.pairs().len(),
        ensures
            v.deep_view() == self.pairs()[i as int].1,
            v.deep_view() == self@[self.pairs()[i as int].0],
    {
        proof {
            use_type_invariant(self);
            lemma_map_of(self.pairs());
            let p = self.pairs()[i as int];
        }
        &self.entries[i].1
    }

    /// Position of `key` among the pairs.
    fn position(&self, key: &str) -> (at: Option<usize>)
        ensures
            match at {
                Some(i) => i < self.pairs().len() && self.pairs()[i as int].0 == key@
                    && self@.dom().contains(key@) && self@[key@] == self.pairs()[i as int].1,
                None => !self@.dom().contains(key@) && forall|i: int|
                    0 <= i < self.pairs().len() ==> (#[trigger] self.pairs()[i]).0 != key@,
            },
    {
        proof {
            use_type_invariant(self);
            lemma_map_of(self.pairs());
        }
        let mut i: usize = 0;
        while i < self.entries.len()
            invariant
                i <= self.entries.len(),
                self.entries.len() == self.pairs().len(),
                forall|k: Seq<char>| #[trigger]
                    map_of(self.pairs()).dom().contains(k) ==> exists|i: int|
                        0 <= i < self.pairs().len() && (#[trigger] self.pairs()[i]).0 == k,
                forall|j: int|
                    #![trigger self.pairs()[j]]
                    0 <= j < self.pairs().len() ==> map_of(self.pairs()).dom().contains(
                        self.pairs()[j].0,
                    ) && map_of(self.pairs())[self.pairs()[j].0] == self.pairs()[j].1,
                forall|j: int| 0 <= j < i ==> (#[trigger] self.pairs()[j]).0 != key@,
            decreases self.entries.len() - i,
        {
            assert(self.pairs()[i as int].0 == self.entries@[i as int].0@);
            if crate::text::str_eq(&self.entries[i].0, key) {
                return Some(i);
            }
            i += 1;
        }
        None
    }

    /// Whether `key` is present.
    pub fn contains_key(&self, key: &str) -> (yes: bool)
        ensures
            yes == self@.dom().contains(key@),
    {
        self.position(key).is_some()
    }

    /// The value stored under `key`.
    pub fn get(&self, key: &str) -> (v: Option<&V>)
        ensures
            match v {
                Some(v) => self@.dom().contains(key@) && v.deep_view() == self@[key@],
                None => !self@.dom().contains(key@),
            },
    {
        match self.position(key) {
            Some(i) => Some(&self.entries[i].1),
            None => None,
        }
    }

    /// Stores `value` under `key`, in place of an earlier value.
    pub fn insert(&mut self, key: String, value: V)
        ensures
            final(self)@ == old(self)@.insert(key@, value.deep_view()),
    {
        let ghost before = self.pairs();
        let ghost pair = (key@, value.deep_view());
        proof {
            use_type_invariant(&*self);
            lemma_map_of(before);
        }
        let at = self.position(&key);
        let mut entries: Vec<(String, V)> = Vec::new();
        std::mem::swap(&mut entries, &mut self.entries);
        match at {
            Some(i) => {
                entries.set(i, (key, value));
                let ghost after = before.update(i as int, pair);
                proof {
                    assert(entries@.map_values(|e: (String, V)| (e.0@, e.1.deep_view())) =~= after);
                    lemma_map_of_update(before, i as int, pair.1);
                    assert forall|a: int, b: int| 0 <= a < b < entries@.len() implies (
                    #[trigger] entries@[a]).0@ != (#[trigger] entries@[b]).0@ by {
                        assert(after[a].0 == entries@[a].0@ && after[b].0 == entries@[b].0@);
                    }
                }
            },
            None => {
                entries.push((key, value));
                let ghost after = before.push(pair);
                proof {
                    assert(entries@.map_values(|e: (String, V)| (e.0@, e.1.deep_view())) =~= after);
                    assert(after.drop_last() =~= before);
                    assert forall|i: int, j: int| 0 <= i < j < after.len() implies (
                    #[trigger] after[i]).0 != (#[trigger] after[j]).0 by {
                        assert(after[i] == before[i]);
                        if j < before.len() {
                            assert(after[j] == before[j]);
                        }
                    }
                    assert forall|a: int, b: int| 0 <= a < b < entries@.len() implies (
                    #[trigger] entries@[a]).0@ != (#[trigger] entries@[b]).0@ by {
                        assert(after[a].0 == entries@[a].0@ && after[b].0 == entries@[b].0@);
                    }
                }
            },
        }
        self.entries = entries;
    }

    /// Stores `value` under `key` unless the key is already present.
    pub fn insert_if_absent(&mut self, key: String, value: V)
        ensures
            final(self)@ == if old(self)@.dom().contains(key@) {
                old(self)@
            } else {
                old(self)@.insert(key@, value.deep_view())
            },
    {
        if !self.contains_key(&key) {
            self.insert(key, value);
        }
    }

    /// Removes `key`; hands out the value that it had.
    pub fn remove(&mut self, key: &str) -> (gone: Option<V>)
        ensures
            final(self)@ == old(self)@.remove(key@),
            match gone {
                Some(v) => old(self)@.dom().contains(key@) && v.deep_view() == old(self)@[key@],
                None => !old(self)@.dom().contains(key@),
            },
    {
        let ghost before = self.pairs();
        proof {
            use_type_invariant(&*self);
            lemma_map_of(before);
        }
        match self.position(key) {
            None => {
                assert(self@.remove(key@) =~= self@);
                None
            },
            Some(i) => {
                let mut entries: Vec<(String, V)> = Vec::new();
                std::mem::swap(&mut entries, &mut self.entries);
                let (_, v) = entries.remove(i);
                proof {
                    assert(entries@.map_values(|e: (String, V)| (e.0@, e.1.deep_view()))
                        =~= before.remove(i as int));
                    lemma_map_of_remove(before, i as int);
                }
                self.entries = entries;
                Some(v)
            },
        }
    }

    /// Stores every pair of `other`, in place of earlier values.
    pub fn extend(&mut self, other: StrMap<V>)
        ensures
            final(self)@ == old(self)@.union_prefer_right(other@),
    {
        proof {
            use_type_invariant(&other);
        }
        let ghost pairs = other.pairs();
        let mut rest = other.entries;
        let mut seen: Vec<(String, V)> = Vec::new();
        // Hand the pairs over from the back, so that each is popped once.
        while rest.len() > 0
            invariant
                seen@.len() + rest@.len() == pairs.len(),
                forall|i: int|
                    0 <= i < rest@.len() ==> (#[trigger] rest@[i]).0@ == pairs[i].0
                        && rest@[i].1.deep_view() == pairs[i].1,
                forall|i: int|
                    0 <= i < seen@.len() ==> (#[trigger] seen@[i]).0@ == pairs[pairs.len() - 1
                        - i].0 && seen@[i].1.deep_view() == pairs[pairs.len() - 1 - i].1,
            decreases rest@.len(),
        {
            if let Some(e) = rest.pop() {
                seen.push(e);
            }
        }
        let ghost start = self@;
        let ghost mut done: int = 0;
        proof {
            assert(start.union_prefer_right(map_of(pairs.take(0))) =~= start);
        }
        while seen.len() > 0
            invariant
                0 <= done <= pairs.len(),
                seen@.len() == pairs.len() - done,
                self@ == start.union_prefer_right(map_of(pairs.take(done))),
                forall|i: int|
                    0 <= i < seen@.len() ==> (#[trigger] seen@[i]).0@ == pairs[pairs.len() - 1
                        - i].0 && seen@[i].1.deep_view() == pairs[pairs.len() - 1 - i].1,
            decreases seen@.len(),
        {
            if let Some(e) = seen.pop() {
                let (k, v) = e;
                proof {
                    let next = pairs.take(done + 1);
                    assert(next.drop_last() =~= pairs.take(done));
                    assert(next.last() == pairs[done]);
                    assert(start.union_prefer_right(map_of(next)) =~= self@.insert(
                        pairs[done].0,
                        pairs[done].1,
                    ));
                    done = done + 1;
                }
                self.insert(k, v);
            }
        }
        assert(pairs.take(pairs.len() as int) =~= pairs);
    }
}

impl<V: DeepView> StrMap<V> {
    /// Takes one pair out of the map; `None` when it is empty.
    pub fn pop(&mut self) -> (pair: Option<(String, V)>)
        ensures
            match pair {
                Some((k, v)) => old(self)@.dom().contains(k@) && v.deep_view() == old(self)@[k@]
                    && final(self)@ == old(self)@.remove(k@) && final(self).pairs().len() + 1
                    == old(self).pairs().len(),
                None => old(self)@ == Map::<Seq<char>, V::V>::empty() && final(self)@
                    == old(self)@ && old(self).pairs().len() == 0,
            },
    {
        let ghost before = self.pairs();
        proof {
            use_type_invariant(&*self);
            lemma_map_of(before);
        }
        let n: usize = self.entries.len();
        if n == 0 {
            return None;
        }
        let mut entries: Vec<(String, V)> = Vec::new();
        std::mem::swap(&mut entries, &mut self.entries);
        let (k, v) = entries.remove(n - 1);
        proof {
            assert(entries@.map_values(|e: (String, V)| (e.0@, e.1.deep_view())) =~= before.remove(
                n - 1,
            ));
            assert(before[n - 1].0 == k@);
            lemma_map_of_remove(before, n - 1);
        }
        self.entries = entries;
        Some((k, v))
    }
}

impl<V: Duplicate> StrMap<V> {
    /// Copies of the values, in insertion order.
    pub fn values(&self) -> (vals: Vec<V>)
        ensures
            distinct_keys(self.pairs()),
            vals@.len() == self.pairs().len(),
            forall|i: int|
                0 <= i < vals@.len() ==> (#[trigger] vals@[i]).deep_view() == self.pairs()[i].1,
    {
        proof {
            use_type_invariant(self);
        }
        let mut vals: Vec<V> = Vec::new();
        let mut i: usize = 0;
        while i < self.len()
            invariant
                i <= self.pairs().len(),
                vals@.len() == i,
                forall|k: int|
                    0 <= k < i ==> (#[trigger] vals@[k]).deep_view() == self.pairs()[k].1,
            decreases self.pairs().len() - i,
        {
            vals.push(self.value_at(i).duplicate());
            i += 1;
        }
        vals
    }
}

impl<V: Duplicate> Duplicate for StrMap<V> {
    fn duplicate(&self) -> (copy: Self) {
        let mut copy: StrMap<V> = StrMap::new();
        let mut i: usize = 0;
        proof {
            assert(self.pairs().take(0) =~= Seq::empty());
        }
        while i < self.len()
            invariant
                i <= self.pairs().len(),
                copy@ == map_of(self.pairs().take(i as int)),
            decreases self.pairs().len() - i,
        {
            proof {
                let next = self.pairs().take(i as int + 1);
                assert(next.drop_last() =~= self.pairs().take(i as int));
                assert(next.last() == self.pairs()[i as int]);
            }
            copy.insert(self.key_at(i).clone(), self.value_at(i).duplicate());
            i += 1;
        }
        assert(self.pairs().take(self.pairs().len() as int) =~= self.pairs());
        copy
    }
}

/// Replacing the value of one pair replaces it in the map.
pub proof fn lemma_map_of_update<T>(pairs: Seq<(Seq<char>, T)>, i: int, v: T)
    requires
        distinct_keys(pairs),
        0 <= i < pairs.len(),
    ensures
        distinct_keys(pairs.update(i, (pairs[i].0, v))),
        map_of(pairs.update(i, (pairs[i].0, v))) == map_of(pairs).insert(pairs[i].0, v),
{
    let after = pairs.update(i, (pairs[i].0, v));
    assert forall|a: int, b: int| 0 <= a < b < after.len() implies (#[trigger] after[a]).0 != (
    #[trigger] after[b]).0 by {
        assert(after[a].0 == pairs[a].0 && after[b].0 == pairs[b].0);
    }
    lemma_map_of(pairs);
    lemma_map_of(after);
    assert forall|k: Seq<char>|
        map_of(after).dom().contains(k) == map_of(pairs).insert(pairs[i].0, v).dom().contains(k) by {
        if map_of(after).dom().contains(k) {
            let j = choose|j: int| 0 <= j < after.len() && (#[trigger] after[j]).0 == k;
            assert(pairs[j].0 == k);
        }
        if map_of(pairs).insert(pairs[i].0, v).dom().contains(k) {
            if k == pairs[i].0 {
                assert(after[i].0 == k);
            } else {
                let j = choose|j: int| 0 <= j < pairs.len() && (#[trigger] pairs[j]).0 == k;
                assert(after[j].0 == k);
            }
        }
    }
    assert forall|k: Seq<char>| map_of(after).dom().contains(k) implies map_of(after)[k] == map_of(
        pairs,
    ).insert(pairs[i].0, v)[k] by {
        let j = choose|j: int| 0 <= j < after.len() && (#[trigger] after[j]).0 == k;
        assert(pairs[j].0 == k);
        if j != i {
            assert(after[j] == pairs[j]);
            assert(pairs[j].0 != pairs[i].0);
        }
    }
    assert(map_of(after) =~= map_of(pairs).insert(pairs[i].0, v));
}

/// Removing one pair removes its key from the map.
pub proof fn lemma_map_of_remove<T>(pairs: Seq<(Seq<char>, T)>, i: int)
    requires
        distinct_keys(pairs),
        0 <= i < pairs.len(),
    ensures
        distinct_keys(pairs.remove(i)),
        map_of(pairs.remove(i)) == map_of(pairs).remove(pairs[i].0),
{
    let after = pairs.remove(i);
    assert forall|a: int, b: int| 0 <= a < b < after.len() implies (#[trigger] after[a]).0 != (
    #[trigger] after[b]).0 by {
        let a1 = if a < i { a } else { a + 1 };
        let b1 = if b < i { b } else { b + 1 };
        assert(after[a] == pairs[a1] && after[b] == pairs[b1]);
    }
    lemma_map_of(pairs);
    lemma_map_of(after);
    assert forall|k: Seq<char>|
        map_of(after).dom().contains(k) == map_of(pairs).remove(pairs[i].0).dom().contains(k) by {
        if map_of(after).dom().contains(k) {
            let j = choose|j: int| 0 <= j < after.len() && (#[trigger] after[j]).0 == k;
            let j1 = if j < i { j } else { j + 1 };
            assert(after[j] == pairs[j1]);
            assert(pairs[j1].0 != pairs[i].0);
        }
        if map_of(pairs).remove(pairs[i].0).dom().contains(k) {
            let j = choose|j: int| 0 <= j < pairs.len() && (#[trigger] pairs[j]).0 == k;
            let j1 = if j < i { j } else { j - 1 };
            assert(after[j1] == pairs[j]);
        }
    }
    assert forall|k: Seq<char>| map_of(after).dom().contains(k) implies map_of(after)[k] == map_of(
        pairs,
    ).remove(pairs[i].0)[k] by {
        let j = choose|j: int| 0 <= j < after.len() && (#[trigger] after[j]).0 == k;
        let j1 = if j < i { j } else { j + 1 };
        assert(after[j] == pairs[j1]);
    }
    assert(map_of(after) =~= map_of(pairs).remove(pairs[i].0));
}

/// A map holds what was stored under a key last, and nothing once the key was removed; every other
/// key keeps what it holds.
pub proof fn law_map_holds_what_was_stored<V: DeepView>(
    a: &mut StrMap<V>,
    key: String,
    value: V,
    b: &mut StrMap<V>,
    gone: &str,
    taken: Option<V>,
    other: Seq<char>,
)
    requires
        call_ensures(StrMap::<V>::insert, (a, key, value), ()),
        call_ensures(StrMap::<V>::remove, (b, gone), taken),
    ensures
        final(a)@.dom().contains(key@),
        final(a)@[key@] == value.deep_view(),
        other != key@ ==> (final(a)@.dom().contains(other) <==> old(a)@.dom().contains(other)),
        other != key@ ==> final(a)@[other] == old(a)@[other],
        !final(b)@.dom().contains(gone@),
        taken is Some <==> old(b)@.dom().contains(gone@),
        taken matches Some(v) ==> v.deep_view() == old(b)@[gone@],
        other != gone@ ==> (final(b)@.dom().contains(other) <==> old(b)@.dom().contains(other)),
        other != gone@ ==> final(b)@[other] == old(b)@[other],
{
}

/// A value is only stored under a free key where that was asked for; a map that takes over another
/// one holds what that holds, and keeps its own values under the other keys.
pub proof fn law_maps_are_merged<V: DeepView>(
    a: &mut StrMap<V>,
    key: String,
    value: V,
    b: &mut StrMap<V>,
    more: StrMap<V>,
    k: Seq<char>,
)
    requires
        call_ensures(StrMap::<V>::insert_if_absent, (a, key, value), ()),
        call_ensures(StrMap::<V>::extend, (b, more), ()),
    ensures
        final(a)@.dom().contains(key@),
        old(a)@.dom().contains(k) ==> final(a)@.dom().contains(k) && final(a)@[k] == old(a)@[k],
        !old(a)@.dom().contains(key@) ==> final(a)@[key@] == value.deep_view(),
        k != key@ && !old(a)@.dom().contains(k) ==> !final(a)@.dom().contains(k),
        final(b)@.dom().contains(k) <==> old(b)@.dom().contains(k) || more@.dom().contains(k),
        more@.dom().contains(k) ==> final(b)@[k] == more@[k],
        old(b)@.dom().contains(k) && !more@.dom().contains(k) ==> final(b)@[k] == old(b)@[k],
{
}

/// What is looked up is what the map holds.
pub proof fn law_lookup_finds_what_is_held<V: DeepView>(
    m: &StrMap<V>,
    key: &str,
    v: Option<&V>,
    yes: bool,
    e: StrMap<V>,
)
    requires
        call_ensures(StrMap::<V>::get, (m, key), v),
        call_ensures(StrMap::<V>::contains_key, (m, key), yes),
        call_ensures(StrMap::<V>::new, (), e),
    ensures
        yes <==> m@.dom().contains(key@),
        v is Some <==> m@.dom().contains(key@),
        v matches Some(v) ==> v.deep_view() == m@[key@],
        forall|k: Seq<char>| !(#[trigger] e@.dom().contains(k)),
{
}

} // verus!
