//! A map from node paths to values, the shape in which the layout views hold
//! what they publish.
use vstd::prelude::*;
use vstd::set_lib::lemma_subset_equality;

use crate::value::ViewValue;

verus! {

/// The map that a sequence of `(path, value)` pairs builds when they are
/// inserted one after the other: a later pair for a path replaces an earlier one.
pub open spec fn pairs_map<V>(pairs: Seq<(String, V)>) -> Map<Seq<char>, V>
    decreases pairs.len(),
{
    if pairs.len() == 0 {
        Map::empty()
    } else {
        pairs_map(pairs.drop_last()).insert(pairs.last().0@, pairs.last().1)
    }
}

/// No two pairs name the same path.
pub open spec fn distinct_paths<V>(pairs: Seq<(String, V)>) -> bool {
    forall|i: int, j: int|
        0 <= i < pairs.len() && 0 <= j < pairs.len() && i != j ==> pairs[i].0@ != pairs[j].0@
}

/// Two maps hold the same paths, and equal values under each path.
pub open spec fn maps_equivalent<V: ViewValue>(a: Map<Seq<char>, V>, b: Map<Seq<char>, V>) -> bool {
    &&& a.dom() =~= b.dom()
    &&& forall|k: Seq<char>| #[trigger] a.dom().contains(k) ==> a[k].same_as(b[k])
}

/// A path is in the built map exactly when some pair names it.
pub proof fn lemma_pairs_map_dom<V>(pairs: Seq<(String, V)>, k: Seq<char>)
    ensures
        pairs_map(pairs).dom().contains(k) <==> exists|i: int| 0 <= i < pairs.len() && pairs[i].0@ == k,
    decreases pairs.len(),
{
    if pairs.len() > 0 {
        let init = pairs.drop_last();
        lemma_pairs_map_dom(init, k);
        if pairs_map(pairs).dom().contains(k) && pairs.last().0@ != k {
            let i = choose|i: int| 0 <= i < init.len() && init[i].0@ == k;
            assert(pairs[i] == init[i]);
        }
        if exists|i: int| 0 <= i < pairs.len() && pairs[i].0@ == k {
            let i = choose|i: int| 0 <= i < pairs.len() && pairs[i].0@ == k;
            if i < pairs.len() - 1 {
                assert(init[i] == pairs[i]);
            }
        }
    }
}

/// The built map is finite.
pub proof fn lemma_pairs_map_finite<V>(pairs: Seq<(String, V)>)
    ensures
        pairs_map(pairs).dom().finite(),
    decreases pairs.len(),
{
    if pairs.len() > 0 {
        lemma_pairs_map_finite(pairs.drop_last());
    }
}

/// With distinct paths, each pair's value is what the map holds under its path.
pub proof fn lemma_pairs_map_value<V>(pairs: Seq<(String, V)>, i: int)
    requires
        distinct_paths(pairs),
        0 <= i < pairs.len(),
    ensures
        pairs_map(pairs).dom().contains(pairs[i].0@),
        pairs_map(pairs)[pairs[i].0@] == pairs[i].1,
    decreases pairs.len(),
{
    let init = pairs.drop_last();
    if i < pairs.len() - 1 {
        assert(init[i] == pairs[i]);
        assert(distinct_paths(init));
        lemma_pairs_map_value(init, i);
        assert(pairs[i].0@ != pairs[pairs.len() - 1].0@);
    }
}

/// With distinct paths, the map holds as many paths as there are pairs.
pub proof fn lemma_pairs_map_len<V>(pairs: Seq<(String, V)>)
    requires
        distinct_paths(pairs),
    ensures
        pairs_map(pairs).dom().len() == pairs.len(),
    decreases pairs.len(),
{
    if pairs.len() > 0 {
        let init = pairs.drop_last();
        assert(distinct_paths(init));
        lemma_pairs_map_len(init);
        lemma_pairs_map_finite(init);
        lemma_pairs_map_dom(init, pairs.last().0@);
        if pairs_map(init).dom().contains(pairs.last().0@) {
            let j = choose|j: int| 0 <= j < init.len() && init[j].0@ == pairs.last().0@;
            assert(pairs[j] == init[j]);
            assert(false);
        }
    }
}

/// Replacing the value of one pair, under the same path, replaces the value
/// that the map holds under that path.
proof fn lemma_pairs_map_update<V>(pairs: Seq<(String, V)>, i: int, entry: (String, V))
    requires
        distinct_paths(pairs),
        0 <= i < pairs.len(),
        entry.0@ == pairs[i].0@,
    ensures
        distinct_paths(pairs.update(i, entry)),
        pairs_map(pairs.update(i, entry)) =~= pairs_map(pairs).insert(entry.0@, entry.1),
{
    let updated = pairs.update(i, entry);
    assert(distinct_paths(updated)) by {
        assert forall|a: int, b: int|
            0 <= a < updated.len() && 0 <= b < updated.len() && a != b implies updated[a].0@
            != updated[b].0@ by {
            assert(updated[a].0@ == pairs[a].0@);
            assert(updated[b].0@ == pairs[b].0@);
        }
    }
    let m1 = pairs_map(updated);
    let m2 = pairs_map(pairs).insert(entry.0@, entry.1);
    assert forall|k: Seq<char>| m1.dom().contains(k) <==> m2.dom().contains(k) by {
        lemma_pairs_map_dom(updated, k);
        lemma_pairs_map_dom(pairs, k);
        if k == entry.0@ {
            assert(updated[i].0@ == k);
        }
        if m2.dom().contains(k) && k != entry.0@ {
            let j = choose|j: int| 0 <= j < pairs.len() && pairs[j].0@ == k;
            assert(updated[j].0@ == k);
        }
        if m1.dom().contains(k) {
            let j = choose|j: int| 0 <= j < updated.len() && updated[j].0@ == k;
            assert(pairs[j].0@ == k);
        }
    }
    assert forall|k: Seq<char>| m1.dom().contains(k) implies m1[k] == m2[k] by {
        lemma_pairs_map_dom(updated, k);
        let j = choose|j: int| 0 <= j < updated.len() && updated[j].0@ == k;
        lemma_pairs_map_value(updated, j);
        if j != i {
            lemma_pairs_map_value(pairs, j);
        }
    }
}

/// A map from node paths to values; no path occurs twice.
pub struct PathMap<V> {
    entries: Vec<(String, V)>,
}

impl<V> View for PathMap<V> {
    type V = Map<Seq<char>, V>;

    closed spec fn view(&self) -> Map<Seq<char>, V> {
        pairs_map(self.entries@)
    }
}

impl<V> PathMap<V> {
    #[verifier::type_invariant]
    closed spec fn paths_distinct(self) -> bool {
        distinct_paths(self.entries@)
    }

    /// The map is finite.
    pub proof fn lemma_finite(self)
        ensures
            self@.dom().finite(),
    {
        lemma_pairs_map_finite(self.entries@);
    }

    /// An empty map.
    pub fn new() -> (r: Self)
        ensures
            r@ == Map::<Seq<char>, V>::empty(),
    {
        PathMap { entries: Vec::new() }
    }

    /// The number of paths in the map.
    pub fn len(&self) -> (r: usize)
        ensures
            r == self@.dom().len(),
            self@.dom().finite(),
    {
        proof {
            use_type_invariant(self);
            lemma_pairs_map_len(self.entries@);
            lemma_pairs_map_finite(self.entries@);
        }
        self.entries.len()
    }

    /// The value held under `path`, if any.
    pub fn get(&self, path: &String) -> (r: Option<&V>)
        ensures
            match r {
                Some(v) => self@.dom().contains(path@) && *v == self@[path@],
                None => !self@.dom().contains(path@),
            },
    {
        proof {
            use_type_invariant(self);
        }
        let n = self.entries.len();
        let mut i: usize = 0;
        while i < n
            invariant
                n == self.entries.len(),
                i <= n,
                distinct_paths(self.entries@),
                forall|j: int| 0 <= j < i ==> self.entries@[j].0@ != path@,
            decreases n - i,
        {
            if self.entries[i].0 == *path {
                proof {
                    lemma_pairs_map_value(self.entries@, i as int);
                }
                return Some(&self.entries[i].1);
            }
            i = i + 1;
        }
        proof {
            lemma_pairs_map_dom(self.entries@, path@);
        }
        None
    }

    /// Puts `value` under `path`, replacing what was held there.
    pub fn insert(&mut self, path: String, value: V)
        ensures
            final(self)@ == old(self)@.insert(path@, value),
    {
        proof {
            use_type_invariant(&*self);
        }
        let mut entries = Vec::new();
        std::mem::swap(&mut entries, &mut self.entries);
        let ghost before = entries@;
        let n = entries.len();
        let mut i: usize = 0;
        while i < n
            invariant
                n == entries.len(),
                entries@ == before,
                pairs_map(before) == old(self)@,
                i <= n,
                distinct_paths(before),
                forall|j: int| 0 <= j < i ==> before[j].0@ != path@,
            decreases n - i,
        {
            if entries[i].0 == path {
                proof {
                    lemma_pairs_map_update(before, i as int, (path, value));
                }
                entries.set(i, (path, value));
                self.entries = entries;
                return;
            }
            i = i + 1;
        }
        entries.push((path, value));
        proof {
            assert(entries@.drop_last() =~= before);
            assert forall|a: int, b: int|
                0 <= a < entries@.len() && 0 <= b < entries@.len() && a != b implies
                entries@[a].0@ != entries@[b].0@ by {
                if a < n && b < n {
                    assert(entries@[a] == before[a]);
                    assert(entries@[b] == before[b]);
                }
            }
        }
        self.entries = entries;
    }

    /// The map that `pairs` builds when inserted in order; a later pair for a
    /// path replaces an earlier one.
    pub fn from_pairs(pairs: Vec<(String, V)>) -> (r: Self)
        ensures
            r@ == pairs_map(pairs@),
    {
        let mut map = PathMap::new();
        let mut rest = pairs;
        let ghost all = rest@;
        let ghost mut done: int = 0;
        while rest.len() > 0
            invariant
                0 <= done <= all.len(),
                rest@ == all.skip(done),
                map@ == pairs_map(all.take(done)),
            decreases rest.len(),
        {
            let (path, value) = rest.remove(0);
            proof {
                assert(all.take(done + 1).drop_last() =~= all.take(done));
                assert(all[done] == (path, value));
                assert(rest@ =~= all.skip(done + 1));
            }
            map.insert(path, value);
            proof {
                done = done + 1;
            }
        }
        proof {
            assert(all.take(done) =~= all);
        }
        map
    }
}

impl<V: Clone> Clone for PathMap<V> {
    /// A map with the same paths, each holding a clone of the value.
    fn clone(&self) -> (r: Self)
        ensures
            r@.dom() == self@.dom(),
            forall|k: Seq<char>| #[trigger] r@.dom().contains(k) ==> cloned::<V>(self@[k], r@[k]),
    {
        proof {
            use_type_invariant(self);
        }
        let mut entries: Vec<(String, V)> = Vec::new();
        let n = self.entries.len();
        let mut i: usize = 0;
        while i < n
            invariant
                n == self.entries.len(),
                i <= n,
                entries@.len() == i,
                forall|j: int| 0 <= j < i ==> (#[trigger] entries@[j]).0@ == self.entries@[j].0@,
                forall|j: int| 0 <= j < i ==> cloned::<V>(self.entries@[j].1, #[trigger] entries@[j].1),
            decreases n - i,
        {
            let entry = &self.entries[i];
            entries.push((entry.0.clone(), entry.1.clone()));
            i = i + 1;
        }
        proof {
            let src = self.entries@;
            assert(distinct_paths(entries@)) by {
                assert forall|a: int, b: int|
                    0 <= a < entries@.len() && 0 <= b < entries@.len() && a != b implies entries@[a].0@
                    != entries@[b].0@ by {
                    assert(entries@[a].0@ == src[a].0@);
                    assert(entries@[b].0@ == src[b].0@);
                }
            }
            assert forall|k: Seq<char>| pairs_map(entries@).dom().contains(k) <==> pairs_map(
                src,
            ).dom().contains(k) by {
                lemma_pairs_map_dom(entries@, k);
                lemma_pairs_map_dom(src, k);
                if pairs_map(entries@).dom().contains(k) {
                    let j = choose|j: int| 0 <= j < entries@.len() && entries@[j].0@ == k;
                    assert(src[j].0@ == k);
                }
                if pairs_map(src).dom().contains(k) {
                    let j = choose|j: int| 0 <= j < src.len() && src[j].0@ == k;
                    assert(entries@[j].0@ == k);
                }
            }
            assert(pairs_map(entries@).dom() =~= pairs_map(src).dom());
            assert forall|k: Seq<char>| #[trigger] pairs_map(entries@).dom().contains(k) implies cloned::<
                V,
            >(pairs_map(src)[k], pairs_map(entries@)[k]) by {
                lemma_pairs_map_dom(entries@, k);
                let j = choose|j: int| 0 <= j < entries@.len() && entries@[j].0@ == k;
                lemma_pairs_map_value(entries@, j);
                assert(src[j].0@ == k);
                lemma_pairs_map_value(src, j);
            }
        }
        PathMap { entries }
    }
}

impl<V: ViewValue> PathMap<V> {
    /// `other` holds the entry's path, with a value equal to the entry's.
    spec fn entry_matched(entry: (String, V), other: Self) -> bool {
        &&& other@.dom().contains(entry.0@)
        &&& entry.1.same_as(other@[entry.0@])
    }

    /// Whether the two maps hold the same paths and, under each path, values
    /// that count as equal.
    pub fn equivalent(&self, other: &Self) -> (r: bool)
        ensures
            r == maps_equivalent(self@, other@),
    {
        proof {
            use_type_invariant(self);
            use_type_invariant(other);
            lemma_pairs_map_len(self.entries@);
            lemma_pairs_map_len(other.entries@);
            lemma_pairs_map_finite(self.entries@);
            lemma_pairs_map_finite(other.entries@);
        }
        if self.entries.len() != other.entries.len() {
            return false;
        }
        let n = self.entries.len();
        let mut i: usize = 0;
        while i < n
            invariant
                n == self.entries.len(),
                i <= n,
                distinct_paths(self.entries@),
                forall|j: int| 0 <= j < i ==> #[trigger] Self::entry_matched(self.entries@[j], *other),
            decreases n - i,
        {
            proof {
                lemma_pairs_map_value(self.entries@, i as int);
            }
            match other.get(&self.entries[i].0) {
                None => {
                    return false;
                },
                Some(v) => {
                    if !self.entries[i].1.equals(v) {
                        return false;
                    }
                    assert(Self::entry_matched(self.entries@[i as int], *other));
                },
            }
            i = i + 1;
        }
        proof {
            assert forall|k: Seq<char>| self@.dom().contains(k) implies other@.dom().contains(k)
                && self@[k].same_as(other@[k]) by {
                lemma_pairs_map_dom(self.entries@, k);
                let j = choose|j: int| 0 <= j < self.entries@.len() && self.entries@[j].0@ == k;
                lemma_pairs_map_value(self.entries@, j);
                assert(Self::entry_matched(self.entries@[j], *other));
            }
            lemma_subset_equality(self@.dom(), other@.dom());
        }
        true
    }
}

} // verus!
