//! A small association table with integer keys.
//!
//! The atlas records its textures, tilesets, sprites, fonts and frame sets
//! in tables keyed by an opaque integer handle.  The table is a plain
//! vector of pairs with unique keys, viewed as a `Map` in specifications;
//! inserting overwrites an existing binding.

use vstd::prelude::*;

verus! {

/// An association table from integer keys to values, with unique keys.
pub struct KvMap<T> {
    entries: Vec<(usize, T)>,
}

/// The map described by a sequence of key-value pairs, later pairs taking
/// precedence.
pub open spec fn pairs_map<T>(s: Seq<(usize, T)>) -> Map<usize, T>
    decreases s.len(),
{
    if s.len() == 0 {
        Map::empty()
    } else {
        pairs_map(s.drop_last()).insert(s.last().0, s.last().1)
    }
}

/// No key occurs twice in the sequence.
pub open spec fn pairs_nodup<T>(s: Seq<(usize, T)>) -> bool {
    forall|i: int, j: int| 0 <= i < j < s.len() ==> (#[trigger] s[i]).0 != (#[trigger] s[j]).0
}

/// A key bound in the map of a duplicate-free pair sequence is bound at
/// exactly the pair that carries it.
proof fn lemma_pairs_map_props<T>(s: Seq<(usize, T)>)
    requires
        pairs_nodup(s),
    ensures
        forall|k: usize|
            pairs_map(s).contains_key(k) <==> exists|i: int|
                0 <= i < s.len() && (#[trigger] s[i]).0 == k,
        forall|i: int|
            0 <= i < s.len() ==> pairs_map(s)[(#[trigger] s[i]).0] == s[i].1,
    decreases s.len(),
{
    if s.len() > 0 {
        let pre = s.drop_last();
        assert(pairs_nodup(pre)) by {
            assert(forall|i: int, j: int|
                0 <= i < j < pre.len() ==> (#[trigger] pre[i]).0 != (#[trigger] pre[j]).0)
                by {
                assert(forall|i: int| 0 <= i < pre.len() ==> pre[i] == s[i]);
            }
        }
        lemma_pairs_map_props(pre);
        assert forall|k: usize| pairs_map(s).contains_key(k) implies exists|i: int|
            0 <= i < s.len() && (#[trigger] s[i]).0 == k by {
            assert(pairs_map(s) == pairs_map(pre).insert(s.last().0, s.last().1));
            if k == s.last().0 {
                assert((s[s.len() - 1]).0 == k);
            } else {
                assert(pairs_map(pre).contains_key(k));
                let i = choose|i: int| 0 <= i < pre.len() && (#[trigger] pre[i]).0 == k;
                assert((s[i]).0 == k);
            }
        }
        assert forall|k: usize|
            (exists|i: int| 0 <= i < s.len() && (#[trigger] s[i]).0 == k) implies pairs_map(
            s,
        ).contains_key(k) by {
            let i = choose|i: int| 0 <= i < s.len() && (#[trigger] s[i]).0 == k;
            if i < s.len() - 1 {
                assert((pre[i]).0 == k);
            }
        }
        assert forall|i: int| 0 <= i < s.len() implies pairs_map(s)[(#[trigger] s[i]).0]
            == s[i].1 by {
            if i < s.len() - 1 {
                assert(pre[i] == s[i]);
                assert(pairs_map(pre)[s[i].0] == s[i].1);
                assert(s[i].0 != s.last().0);
            }
        }
    }
}

/// Replacing the value at the pair that carries a key updates the map at
/// that key alone.
proof fn lemma_pairs_map_update<T>(s: Seq<(usize, T)>, i: int, v: T)
    requires
        pairs_nodup(s),
        0 <= i < s.len(),
    ensures
        pairs_map(s.update(i, (s[i].0, v))) == pairs_map(s).insert(s[i].0, v),
        pairs_nodup(s.update(i, (s[i].0, v))),
    decreases s.len(),
{
    let k = s[i].0;
    let s2 = s.update(i, (k, v));
    assert(pairs_nodup(s2)) by {
        assert(forall|a: int| 0 <= a < s.len() ==> (#[trigger] s2[a]).0 == (s[a]).0);
    }
    if i == s.len() - 1 {
        assert(s2.drop_last() =~= s.drop_last());
        assert(pairs_map(s2) == pairs_map(s.drop_last()).insert(k, v));
        assert(pairs_map(s).insert(k, v) =~= pairs_map(s.drop_last()).insert(k, v));
    } else {
        let pre = s.drop_last();
        assert(pairs_nodup(pre)) by {
            assert(forall|a: int| 0 <= a < pre.len() ==> pre[a] == s[a]);
        }
        lemma_pairs_map_update(pre, i, v);
        assert(s2.drop_last() =~= pre.update(i, (k, v)));
        assert(s2.last() == s.last());
        assert(pairs_map(s2) == pairs_map(pre).insert(k, v).insert(s.last().0, s.last().1));
        assert(k != s.last().0) by {
            assert((s[i]).0 == k && (s[s.len() - 1]).0 == s.last().0);
        }
        assert(pairs_map(pre).insert(k, v).insert(s.last().0, s.last().1) =~= pairs_map(
            pre,
        ).insert(s.last().0, s.last().1).insert(k, v));
    }
}

impl<T> KvMap<T> {
    /// The table as a mathematical map.
    pub closed spec fn as_map(self) -> Map<usize, T> {
        pairs_map(self.entries@)
    }

    /// The table's keys are unique.
    pub closed spec fn wf(self) -> bool {
        pairs_nodup(self.entries@)
    }

    /// An empty table.
    pub fn new() -> (r: KvMap<T>)
        ensures
            r.wf(),
            r@ == Map::<usize, T>::empty(),
    {
        KvMap { entries: Vec::new() }
    }

    /// Bind `k` to `v`, overwriting any existing binding.
    pub fn insert(&mut self, k: usize, v: T)
        requires
            old(self).wf(),
        ensures
            final(self).wf(),
            final(self)@ == old(self)@.insert(k, v),
    {
        let n = self.entries.len();
        let mut i: usize = 0;
        while i < n
            invariant
                n == self.entries.len(),
                *self == *old(self),
                old(self).wf(),
                i <= n,
                forall|j: int| 0 <= j < i ==> (#[trigger] self.entries@[j]).0 != k,
            decreases n - i,
        {
            if self.entries[i].0 == k {
                proof {
                    lemma_pairs_map_update(self.entries@, i as int, v);
                }
                self.entries[i] = (k, v);
                return ;
            }
            i = i + 1;
        }
        proof {
            let s = self.entries@;
            let s2 = s.push((k, v));
            assert(s2.drop_last() =~= s);
            assert(pairs_map(s2) == pairs_map(s).insert(k, v));
            assert(forall|j: int| 0 <= j < s.len() ==> s2[j] == s[j]);
        }
        self.entries.push((k, v));
    }

    /// Look the key up; absence is reported, never invented.
    pub fn get(&self, k: usize) -> (r: Option<&T>)
        requires
            self.wf(),
        ensures
            match r {
                Some(v) => self@.contains_key(k) && *v == self@[k],
                None => !self@.contains_key(k),
            },
    {
        proof {
            lemma_pairs_map_props(self.entries@);
        }
        let n = self.entries.len();
        let mut i: usize = 0;
        while i < n
            invariant
                n == self.entries.len(),
                self.wf(),
                i <= n,
                forall|j: int| 0 <= j < i ==> (#[trigger] self.entries@[j]).0 != k,
                forall|kk: usize|
                    self@.contains_key(kk) <==> exists|j: int|
                        0 <= j < self.entries@.len() && (#[trigger] self.entries@[j]).0 == kk,
                forall|j: int|
                    0 <= j < self.entries@.len() ==> self@[(#[trigger] self.entries@[j]).0]
                        == self.entries@[j].1,
            decreases n - i,
        {
            if self.entries[i].0 == k {
                return Some(&self.entries[i].1);
            }
            i = i + 1;
        }
        None
    }

    /// Whether the key is bound.
    pub fn contains_key(&self, k: usize) -> (r: bool)
        requires
            self.wf(),
        ensures
            r == self@.contains_key(k),
    {
        self.get(k).is_some()
    }
}

impl<T> View for KvMap<T> {
    type V = Map<usize, T>;

    open spec fn view(&self) -> Map<usize, T> {
        self.as_map()
    }
}

} // verus!
