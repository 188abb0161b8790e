use vstd::prelude::*;
use std::collections::BTreeMap;
use vstd::laws_cmp::obeys_cmp;

verus! {

/// Appending to a keyed collection under the next free key.
pub trait Pushi<T> {
    /// Whether `push` can run on this collection.
    spec fn push_requires(&self) -> bool;

    fn push(&mut self, x: T)
        requires
            old(self).push_requires(),
    ;
}

/// Exchanging the items under two keys.
pub trait Swappi<I> {
    /// Whether `swap` can run on this collection with these keys.
    spec fn swap_requires(&self, i1: I, i2: I) -> bool;

    fn swap(&mut self, i1: I, i2: I)
        requires
            old(self).swap_requires(i1, i2),
    ;
}

/// Turning a value into a vector of what it holds.
pub trait Vecci<T> {
    fn to_vec(self) -> Vec<T>;
}

/// `k` is the largest key of `m`.
pub open spec fn is_max_key<T>(m: Map<usize, T>, k: usize) -> bool {
    &&& m.contains_key(k)
    &&& forall|j: usize| m.contains_key(j) ==> j <= k
}

/// The key that `push` stores under: one past the largest key, or 0 in an empty map.
pub open spec fn next_key<T>(m: Map<usize, T>) -> usize {
    if m.dom().is_empty() {
        0
    } else {
        ((choose|k: usize| is_max_key(m, k)) + 1) as usize
    }
}

/// Integer keys obey the order that the map specifications assume.
proof fn lemma_usize_keys_ordered()
    ensures
        obeys_cmp::<usize>(),
{
    broadcast use vstd::laws_cmp::group_laws_cmp;
}

/// `m` with the items under `i1` and `i2` exchanged.
pub open spec fn swapped<I, T>(m: Map<I, T>, i1: I, i2: I) -> Map<I, T> {
    m.insert(i1, m[i2]).insert(i2, m[i1])
}

impl<T> Pushi<T> for BTreeMap<usize, T> {
    open spec fn push_requires(&self) -> bool {
        forall|k: usize| self@.contains_key(k) ==> k < usize::MAX
    }

    /// Stores `x` one past the largest key, or under 0 in an empty map.
    fn push(&mut self, x: T)
        ensures
            !old(self)@.contains_key(next_key(old(self)@)),
            final(self)@ == old(self)@.insert(next_key(old(self)@), x),
    {
        broadcast use vstd::std_specs::btree::group_btree_axioms;
        proof { lemma_usize_keys_ordered(); }
        let mut best: Option<usize> = None;
        let ghost mut seen: Set<usize> = Set::empty();
        for k in iter: self.keys()
            invariant
                iter.seq().len() == self@.dom().len(),
                iter.seq().unref().to_set() == self@.dom(),
                seen == iter.seq().unref().take(iter.index()).to_set(),
                iter.index() == iter.seq().len() ==> seen == self@.dom(),
                best matches Some(b) ==> self@.contains_key(b),
                best matches Some(b) ==> forall|j: usize| seen.contains(j) ==> j <= b,
                best is None ==> seen == Set::<usize>::empty(),
        {
            let k: usize = *k;
            match best {
                Some(b) => {
                    if k > b {
                        best = Some(k);
                    }
                },
                None => {
                    best = Some(k);
                },
            }
            proof {
                let pre = iter.seq().unref().take(iter.index());
                assert(iter.seq().unref()[iter.index()] == k);
                assert(iter.seq().unref().take(iter.index() + 1) =~= pre.push(k));
                pre.lemma_push_to_set_commute(k);
                seen = seen.insert(k);
                assert(iter.seq().unref().take(iter.seq().len() as int) =~= iter.seq().unref());
            }
        }
        assert(seen =~= self@.dom());
        let key: usize = match best {
            Some(b) => {
                proof {
                    assert(is_max_key(self@, b));
                    let c = choose|k: usize| is_max_key(self@, k);
                    assert(c == b);
                }
                b + 1
            },
            None => 0,
        };
        self.insert(key, x);
    }
}

impl<I: Ord, T> Swappi<I> for BTreeMap<I, T> {
    open spec fn swap_requires(&self, i1: I, i2: I) -> bool {
        &&& obeys_cmp::<I>()
        &&& self@.contains_key(i1)
        &&& self@.contains_key(i2)
        &&& i1 != i2
    }

    /// Exchanges the items under `i1` and `i2`.
    fn swap(&mut self, i1: I, i2: I)
        ensures
            final(self)@ == swapped(old(self)@, i1, i2),
    {
        broadcast use vstd::std_specs::btree::group_btree_axioms;
        let x = self.remove(&i1).unwrap();
        let y = self.remove(&i2).unwrap();
        self.insert(i2, x);
        self.insert(i1, y);
        assert(self@ =~= swapped(old(self)@, i1, i2));
    }
}

impl<T> Vecci<T> for Option<T> {
    /// The held value as a one-item vector, or an empty vector.
    fn to_vec(self) -> (v: Vec<T>)
        ensures
            v@ == match self {
                Some(x) => seq![x],
                None => Seq::<T>::empty(),
            },
    {
        match self {
            Some(x) => {
                let mut v = Vec::new();
                v.push(x);
                v
            },
            None => Vec::new(),
        }
    }
}

/// Swapping the same two keys twice gives back the map.
pub proof fn lemma_swap_twice<I, T>(m: Map<I, T>, i1: I, i2: I)
    requires
        m.contains_key(i1),
        m.contains_key(i2),
    ensures
        swapped(swapped(m, i1, i2), i1, i2) == m,
{
    assert(swapped(swapped(m, i1, i2), i1, i2) =~= m);
}

/// A swap does not depend on the order of its two keys, and keeps the keys of the map.
pub proof fn lemma_swap_symmetric<I, T>(m: Map<I, T>, i1: I, i2: I)
    requires
        m.contains_key(i1),
        m.contains_key(i2),
    ensures
        swapped(m, i1, i2) == swapped(m, i2, i1),
        swapped(m, i1, i2).dom() == m.dom(),
{
    assert(swapped(m, i1, i2) =~= swapped(m, i2, i1));
    assert(swapped(m, i1, i2).dom() =~= m.dom());
}

/// The key that a push stores under is above every key already in the map,
/// so pushed items come out in the order they were pushed.
pub proof fn lemma_next_key_above<T>(m: Map<usize, T>)
    requires
        m.dom().finite(),
        forall|k: usize| m.contains_key(k) ==> k < usize::MAX,
    ensures
        forall|k: usize| m.contains_key(k) ==> k < next_key(m),
{
    if !m.dom().is_empty() {
        lemma_max_key_exists(m);
    }
}

/// A finite, non-empty map with integer keys has a largest key.
proof fn lemma_max_key_exists<T>(m: Map<usize, T>)
    requires
        m.dom().finite(),
        !m.dom().is_empty(),
    ensures
        exists|k: usize| is_max_key(m, k),
    decreases m.dom().len(),
{
    let k0 = m.dom().choose();
    let rest = m.remove(k0);
    if rest.dom().is_empty() {
        assert forall|j: usize| m.contains_key(j) implies j <= k0 by {
            if j != k0 {
                assert(rest.contains_key(j));
            }
        }
        assert(is_max_key(m, k0));
    } else {
        assert(rest.dom() =~= m.dom().remove(k0));
        lemma_max_key_exists(rest);
        let k1 = choose|k: usize| is_max_key(rest, k);
        if k1 < k0 {
            assert forall|j: usize| m.contains_key(j) implies j <= k0 by {
                if j != k0 {
                    assert(rest.contains_key(j));
                }
            }
            assert(is_max_key(m, k0));
        } else {
            assert forall|j: usize| m.contains_key(j) implies j <= k1 by {
                if j != k0 {
                    assert(rest.contains_key(j));
                }
            }
            assert(is_max_key(m, k1));
        }
    }
}

/// The map after pushing the items of `xs`, first to last, onto `m`.
pub open spec fn pushed_all<T>(m: Map<usize, T>, xs: Seq<T>) -> Map<usize, T>
    decreases xs.len(),
{
    if xs.len() == 0 {
        m
    } else {
        let r = pushed_all(m, xs.drop_last());
        r.insert(next_key(r), xs.last())
    }
}

/// The map that holds `xs[k]` under each key `k < xs.len()`.
pub open spec fn dense<T>(xs: Seq<T>) -> Map<usize, T> {
    Map::new(|k: usize| k < xs.len(), |k: usize| xs[k as int])
}

/// Pushing items one by one onto an empty map stores them under the keys
/// 0, 1, 2, ... in the order they were pushed.
pub proof fn lemma_push_from_empty<T>(xs: Seq<T>)
    requires
        xs.len() <= usize::MAX,
    ensures
        pushed_all(Map::<usize, T>::empty(), xs) == dense(xs),
        forall|k: usize| #[trigger] dense(xs).contains_key(k) ==> k < usize::MAX,
    decreases xs.len(),
{
    if xs.len() > 0 {
        let ys = xs.drop_last();
        lemma_push_from_empty(ys);
        let r = pushed_all(Map::<usize, T>::empty(), ys);
        if ys.len() == 0 {
            assert(r.dom() =~= Set::<usize>::empty());
            assert(next_key(r) == 0);
        } else {
            let top = (ys.len() - 1) as usize;
            assert(r.contains_key(top));
            assert(is_max_key(r, top));
            let c = choose|k: usize| is_max_key(r, k);
            assert(c == top);
            assert(next_key(r) == ys.len());
        }
        assert(pushed_all(Map::<usize, T>::empty(), xs) =~= dense(xs));
    }
}

} // verus!
