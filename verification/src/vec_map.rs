//! A small map held as a vector of pairs whose keys are distinct.

use vstd::prelude::*;

verus! {

/// Keys that can be compared for equality.
pub trait SameKey: Sized + View {
    /// Whether two keys are the same.
    fn same(&self, other: &Self) -> (r: bool)
        ensures
            r == (self@ == other@),
    ;
}

/// A map with distinct keys, in insertion order.
pub struct VecMap<K, V> {
    pub items: Vec<(K, V)>,
}

/// No key occurs twice.
pub open spec fn keys_distinct<K: View, V: View>(s: Seq<(K, V)>) -> bool {
    forall|i: int, j: int| 0 <= i < j < s.len() ==> #[trigger] s[i].0@ != #[trigger] s[j].0@
}

/// The map that a sequence of pairs stands for.
pub open spec fn map_of<K: View, V: View>(s: Seq<(K, V)>) -> Map<K::V, V::V>
    decreases s.len(),
{
    if s.len() == 0 {
        Map::empty()
    } else {
        map_of(s.drop_last()).insert(s.last().0@, s.last().1@)
    }
}

/// The map of distinct keys holds each pair of the sequence, and nothing else.
proof fn lemma_map_of<K: View, V: View>(s: Seq<(K, V)>)
    requires
        keys_distinct(s),
    ensures
        forall|k: K::V| #[trigger]
            map_of(s).contains_key(k) <==> exists|i: int| 0 <= i < s.len() && #[trigger] s[i].0@ == k,
        forall|i: int| 0 <= i < s.len() ==> map_of(s)[#[trigger] s[i].0@] == s[i].1@,
        map_of(s).dom().finite(),
        map_of(s).len() == s.len(),
    decreases s.len(),
{
    if s.len() > 0 {
        let t = s.drop_last();
        lemma_map_of(t);
        assert forall|k: K::V| #[trigger] map_of(s).contains_key(k) implies exists|i: int|
            0 <= i < s.len() && #[trigger] s[i].0@ == k by {
            if k == s.last().0@ {
                assert(s[s.len() - 1].0@ == k);
            } else {
                assert(map_of(t).contains_key(k));
                let i = choose|i: int| 0 <= i < t.len() && #[trigger] t[i].0@ == k;
                assert(s[i].0@ == k);
            }
        }
        assert forall|k: K::V|
            (exists|i: int| 0 <= i < s.len() && #[trigger] s[i].0@ == k) implies #[trigger] map_of(
            s,
        ).contains_key(k) by {
            let i = choose|i: int| 0 <= i < s.len() && #[trigger] s[i].0@ == k;
            if i < s.len() - 1 {
                assert(t[i].0@ == k);
            }
        }
        assert forall|i: int| 0 <= i < s.len() implies map_of(s)[#[trigger] s[i].0@] == s[i].1@ by {
            if i < s.len() - 1 {
                assert(t[i].0@ == s[i].0@);
                assert(s[i].0@ != s[s.len() - 1].0@);
            }
        }
        assert(!map_of(t).contains_key(s.last().0@)) by {
            if map_of(t).contains_key(s.last().0@) {
                let i = choose|i: int| 0 <= i < t.len() && #[trigger] t[i].0@ == s.last().0@;
                assert(s[i].0@ == s[s.len() - 1].0@);
            }
        }
    }
}

impl<K: SameKey, V: View> View for VecMap<K, V> {
    type V = Map<K::V, V::V>;

    open spec fn view(&self) -> Map<K::V, V::V> {
        map_of(self.items@)
    }
}

impl<K: SameKey, V: View> VecMap<K, V> {
    /// No key occurs twice.
    pub open spec fn wf(self) -> bool {
        keys_distinct(self.items@)
    }

    pub fn new() -> (r: VecMap<K, V>)
        ensures
            r.wf(),
            r@ == Map::<K::V, V::V>::empty(),
    {
        VecMap { items: Vec::new() }
    }

    pub fn len(&self) -> (r: usize)
        requires
            self.wf(),
        ensures
            r == self@.len(),
            r == self.items@.len(),
    {
        proof {
            lemma_map_of(self.items@);
        }
        self.items.len()
    }

    /// The position of a key.
    pub fn find(&self, k: &K) -> (r: Option<usize>)
        requires
            self.wf(),
        ensures
            match r {
                Some(i) => {
                    &&& i < self.items@.len()
                    &&& self.items@[i as int].0@ == k@
                    &&& self@.contains_key(k@)
                    &&& self@[k@] == self.items@[i as int].1@
                },
                None => !self@.contains_key(k@),
            },
    {
        proof {
            lemma_map_of(self.items@);
        }
        let mut i: usize = 0;
        while i < self.items.len()
            invariant
                i <= self.items@.len(),
                forall|j: int| 0 <= j < i ==> #[trigger] self.items@[j].0@ != k@,
                forall|x: K::V| #[trigger]
                    self@.contains_key(x) <==> exists|j: int|
                        0 <= j < self.items@.len() && #[trigger] self.items@[j].0@ == x,
                forall|j: int|
                    0 <= j < self.items@.len() ==> self@[#[trigger] self.items@[j].0@]
                        == self.items@[j].1@,
            decreases self.items@.len() - i,
        {
            if self.items[i].0.same(k) {
                assert(self.items@[i as int].0@ == k@);
                return Some(i);
            }
            i += 1;
        }
        None
    }

    /// Whether a key occurs.
    pub fn contains_key(&self, k: &K) -> (r: bool)
        requires
            self.wf(),
        ensures
            r == self@.contains_key(k@),
    {
        self.find(k).is_some()
    }

    /// The value of a key.
    pub fn get(&self, k: &K) -> (r: Option<&V>)
        requires
            self.wf(),
        ensures
            match r {
                Some(v) => self@.contains_key(k@) && v@ == self@[k@],
                None => !self@.contains_key(k@),
            },
    {
        match self.find(k) {
            Some(i) => Some(&self.items[i].1),
            None => None,
        }
    }

    /// Sets the value of a key.
    pub fn insert(&mut self, k: K, v: V)
        requires
            old(self).wf(),
        ensures
            final(self).wf(),
            final(self)@ == old(self)@.insert(k@, v@),
    {
        let ghost before = self.items@;
        let ghost kv = k@;
        let ghost vv = v@;
        proof {
            lemma_map_of(before);
        }
        match self.find(&k) {
            Some(i) => {
                self.items.set(i, (k, v));
                proof {
                    let after = self.items@;
                    assert(after == before.update(i as int, (k, v)));
                    assert forall|a: int, b: int| 0 <= a < b < after.len() implies #[trigger] after[a].0@
                        != #[trigger] after[b].0@ by {
                        assert(before[a].0@ != before[b].0@);
                    }
                    lemma_map_of(after);
                    assert forall|x: K::V| #[trigger] map_of(after).contains_key(x) <==> map_of(
                        before,
                    ).insert(kv, vv).contains_key(x) by {
                        if map_of(after).contains_key(x) {
                            let j = choose|j: int|
                                0 <= j < after.len() && #[trigger] after[j].0@ == x;
                            assert(before[j].0@ == x);
                        }
                        if map_of(before).contains_key(x) {
                            let j = choose|j: int|
                                0 <= j < before.len() && #[trigger] before[j].0@ == x;
                            assert(after[j].0@ == x);
                        }
                        assert(after[i as int].0@ == kv);
                    }
                    assert forall|x: K::V| #[trigger]
                        map_of(after).contains_key(x) implies map_of(after)[x] == map_of(before).insert(
                        kv,
                        vv,
                    )[x] by {
                        let j = choose|j: int| 0 <= j < after.len() && #[trigger] after[j].0@ == x;
                        assert(before[j].0@ == x);
                        if j != i {
                            if j < i {
                                assert(before[j].0@ != before[i as int].0@);
                            } else {
                                assert(before[i as int].0@ != before[j].0@);
                            }
                        }
                    }
                    assert(map_of(after) =~= map_of(before).insert(kv, vv));
                }
            },
            None => {
                self.items.push((k, v));
                proof {
                    let after = self.items@;
                    assert(after.drop_last() =~= before);
                    assert forall|a: int, b: int| 0 <= a < b < after.len() implies #[trigger] after[a].0@
                        != #[trigger] after[b].0@ by {
                        assert(before[a].0@ == after[a].0@);
                        if b < before.len() {
                            assert(before[a].0@ != before[b].0@);
                        }
                    }
                }
            },
        }
    }

    /// Removes the pair at a position.
    pub fn remove_at(&mut self, i: usize)
        requires
            old(self).wf(),
            i < old(self).items@.len(),
        ensures
            final(self).wf(),
            final(self).items@ == old(self).items@.remove(i as int),
            final(self)@ == old(self)@.remove(old(self).items@[i as int].0@),
    {
        let ghost before = self.items@;
        let ghost kv = before[i as int].0@;
        self.items.remove(i);
        proof {
            lemma_map_of(before);
            let after = self.items@;
            assert(after == before.remove(i as int));
            assert forall|a: int, b: int| 0 <= a < b < after.len() implies #[trigger] after[a].0@
                != #[trigger] after[b].0@ by {
                let a2 = if a < i { a } else { a + 1 };
                let b2 = if b < i { b } else { b + 1 };
                assert(before[a2].0@ != before[b2].0@);
            }
            lemma_map_of(after);
            assert forall|x: K::V| #[trigger] map_of(after).contains_key(x) <==> map_of(
                before,
            ).remove(kv).contains_key(x) by {
                if map_of(after).contains_key(x) {
                    let j = choose|j: int| 0 <= j < after.len() && #[trigger] after[j].0@ == x;
                    let j2 = if j < i { j } else { j + 1 };
                    assert(before[j2].0@ == x);
                    if j2 < i {
                        assert(before[j2].0@ != before[i as int].0@);
                    } else {
                        assert(before[i as int].0@ != before[j2].0@);
                    }
                }
                if map_of(before).contains_key(x) && x != kv {
                    let j = choose|j: int| 0 <= j < before.len() && #[trigger] before[j].0@ == x;
                    let j2 = if j < i { j } else { j - 1 };
                    assert(after[j2].0@ == x);
                }
            }
            assert forall|x: K::V| #[trigger]
                map_of(after).contains_key(x) implies map_of(after)[x] == map_of(before).remove(
                kv,
            )[x] by {
                let j = choose|j: int| 0 <= j < after.len() && #[trigger] after[j].0@ == x;
                let j2 = if j < i { j } else { j + 1 };
                assert(before[j2].0@ == x);
            }
            assert(map_of(after) =~= map_of(before).remove(kv));
        }
    }

    /// Removes a key; says whether it was there.
    pub fn remove(&mut self, k: &K) -> (r: bool)
        requires
            old(self).wf(),
        ensures
            final(self).wf(),
            r == old(self)@.contains_key(k@),
            final(self)@ == old(self)@.remove(k@),
    {
        match self.find(k) {
            None => {
                assert(self@ =~= self@.remove(k@));
                false
            },
            Some(i) => {
                self.remove_at(i);
                true
            },
        }
    }
}

/// What each entry of a map with distinct keys says about the map.
pub proof fn lemma_vec_map<K: SameKey, V: View>(m: VecMap<K, V>)
    requires
        m.wf(),
    ensures
        forall|k: K::V| #[trigger]
            m@.contains_key(k) <==> exists|i: int|
                0 <= i < m.items@.len() && #[trigger] m.items@[i].0@ == k,
        forall|i: int| 0 <= i < m.items@.len() ==> m@[#[trigger] m.items@[i].0@] == m.items@[i].1@,
        m@.dom().finite(),
        m@.len() == m.items@.len(),
{
    lemma_map_of(m.items@);
}

impl SameKey for String {
    fn same(&self, other: &String) -> (r: bool) {
        *self == *other
    }
}

/// The part of a map of deadlines that lies after `now`.
pub open spec fn after<K>(m: Map<K, u128>, now: u128) -> Map<K, u128> {
    m.restrict(Set::new(|k: K| m.contains_key(k) && m[k] > now))
}

impl<K: SameKey> VecMap<K, u128> {
    /// Drops every deadline that `now` has reached.
    pub fn retain_after(&mut self, now: u128)
        requires
            old(self).wf(),
        ensures
            final(self).wf(),
            final(self)@ == after(old(self)@, now),
    {
        let ghost start = self@;
        let mut i: usize = 0;
        assert(self.items@.take(0) =~= Seq::empty());
        while i < self.items.len()
            invariant
                self.wf(),
                i <= self.items@.len(),
                after(self@, now) == after(start, now),
                forall|j: int| 0 <= j < i ==> (#[trigger] self.items@[j]).1 > now,
            decreases self.items@.len() - i,
        {
            if self.items[i].1 > now {
                i += 1;
            } else {
                let ghost before = *self;
                self.remove_at(i);
                proof {
                    lemma_map_of(before.items@);
                    let k = before.items@[i as int].0@;
                    assert(before@[k] <= now);
                    assert(after(self@, now) =~= after(before@, now));
                }
            }
        }
        proof {
            lemma_map_of(self.items@);
            assert forall|k: K::V| #[trigger] self@.contains_key(k) implies self@[k] > now by {
                let j = choose|j: int| 0 <= j < self.items@.len() && #[trigger] self.items@[j].0@ == k;
                assert(self.items@[j].1 > now);
            }
            assert(after(self@, now) =~= self@);
        }
    }
}

/// A deadline is kept while it lies after `now`, and dropped once `now` has
/// reached it.
pub proof fn law_deadlines_after_now<K>(m: Map<K, u128>, now: u128, k: K)
    ensures
        after(m, now).contains_key(k) <==> m.contains_key(k) && now < m[k],
        after(m, now).contains_key(k) ==> after(m, now)[k] == m[k],
{
}

} // verus!
