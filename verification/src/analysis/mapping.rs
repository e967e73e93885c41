use vstd::prelude::*;

use crate::analysis::domain::{AbstractDomain, LatticeOrder};
use crate::analysis::keyed::{as_map, find_key, has_key, insert_value, keys_sorted, lemma_value_at};
use crate::ir::value::DomainKey;

verus! {

/// A map domain: an abstract value for each key, ordered by key.
#[derive(Debug)]
pub struct MapDomain<K, V> {
    pub map: Vec<(K, V)>,
}

/// Combines two maps key by key: the keys of either, with the values of both
/// combined (by widening where `widen` holds, by joining otherwise) and the value
/// of the one that has it otherwise.
pub open spec fn merge_maps<K, V: AbstractDomain>(a: Map<K, V::Model>, b: Map<K, V::Model>, widen: bool) -> Map<
    K,
    V::Model,
> {
    Map::new(
        |k: K| a.contains_key(k) || b.contains_key(k),
        |k: K|
            if a.contains_key(k) && b.contains_key(k) {
                if widen {
                    V::widen_of(a[k], b[k])
                } else {
                    V::join_of(a[k], b[k])
                }
            } else if a.contains_key(k) {
                a[k]
            } else {
                b[k]
            },
    )
}

impl<K: DomainKey, V: AbstractDomain> MapDomain<K, V> {
    /// A copy of the map with the entries of `other` merged in (see [`merge_maps`]).
    fn merge(&self, other: &Self, widen: bool) -> (r: Self)
        requires
            self.inv(),
            other.inv(),
            Self::can_combine(self.model(), other.model()),
        ensures
            r.inv(),
            r.model() == merge_maps::<K, V>(self.model(), other.model(), widen),
    {
        let mut out = self.duplicate();
        let mut i: usize = 0;
        let ghost om = other.model();
        assert(merge_maps::<K, V>(self.model(), entries_model::<K, V>(other.map@.take(0)), widen)
            =~= self.model());
        while i < other.map.len()
            invariant
                self.inv(),
                other.inv(),
                out.inv(),
                om == other.model(),
                Self::can_combine(self.model(), om),
                i <= other.map@.len(),
                out.model() == merge_maps::<K, V>(
                    self.model(),
                    entries_model::<K, V>(other.map@.take(i as int)),
                    widen,
                ),
            decreases other.map@.len() - i,
        {
            let k = other.map[i].0;
            let ghost prefix = entries_model::<K, V>(other.map@.take(i as int));
            proof {
                lemma_value_at(other.map@, i as int);
                lemma_prefix_entries::<K, V>(other.map@, i as int);
            }
            let ghost before = out.model();
            match find_key(&out.map, &k) {
                Some(j) => {
                    proof {
                        lemma_value_at(out.map@, j as int);
                        assert(out.model().contains_key(k));
                        assert(!prefix.contains_key(k));
                        assert(self.model().contains_key(k));
                        assert(out.model()[k] == self.model()[k]);
                        assert(om.contains_key(k));
                        assert(om[k] == other.map@[i as int].1.model());
                        assert(V::can_combine(self.model()[k], om[k]));
                    }
                    let v = if widen {
                        out.map[j].1.widen(&other.map[i].1)
                    } else {
                        out.map[j].1.join(&other.map[i].1)
                    };
                    out.put(k, v);
                },
                None => {
                    proof {
                        assert(!out.model().contains_key(k));
                    }
                    let v = other.map[i].1.duplicate();
                    out.put(k, v);
                },
            }
            proof {
                let next = entries_model::<K, V>(other.map@.take(i + 1));
                assert(next == prefix.insert(k, other.map@[i as int].1.model()));
                assert(out.model() =~= merge_maps::<K, V>(self.model(), next, widen));
            }
            i = i + 1;
        }
        proof {
            assert(other.map@.take(other.map@.len() as int) =~= other.map@);
        }
        out
    }

    /// Stores `v` under `k`.
    fn put(&mut self, k: K, v: V)
        requires
            old(self).inv(),
            v.inv(),
        ensures
            final(self).inv(),
            final(self).model() == old(self).model().insert(k, v.model()),
    {
        let ghost s0 = self.map@;
        let ghost vm = v.model();
        insert_value(&mut self.map, k, v);
        proof {
            let s1 = self.map@;
            assert forall|i: int| 0 <= i < s1.len() implies (#[trigger] s1[i]).1.inv() by {
                lemma_value_at(s1, i);
                if s1[i].0 != k {
                    let kk = s1[i].0;
                    assert(as_map(s0).contains_key(kk));
                    let j = choose|j: int| 0 <= j < s0.len() && s0[j].0 == kk;
                    lemma_value_at(s0, j);
                }
            }
            assert(self.model() =~= old(self).model().insert(k, vm));
        }
    }
}

/// The model of a list of entries.
pub open spec fn entries_model<K: DomainKey, V: AbstractDomain>(s: Seq<(K, V)>) -> Map<K, V::Model> {
    as_map(s).map_values(|v: V| v.model())
}

proof fn lemma_prefix_entries<K: DomainKey, V: AbstractDomain>(s: Seq<(K, V)>, i: int)
    requires
        keys_sorted(s),
        0 <= i < s.len(),
    ensures
        entries_model::<K, V>(s.take(i + 1)) == entries_model::<K, V>(s.take(i)).insert(
            s[i].0,
            s[i].1.model(),
        ),
        !entries_model::<K, V>(s.take(i)).contains_key(s[i].0),
{
    let t0 = s.take(i);
    let t1 = s.take(i + 1);
    assert(keys_sorted(t0) && keys_sorted(t1));
    assert forall|k: K| has_key(t1, k) == (has_key(t0, k) || k == s[i].0) by {
        if has_key(t1, k) {
            let j = choose|j: int| 0 <= j < t1.len() && t1[j].0 == k;
            if j < i {
                assert(t0[j].0 == k);
            }
        }
        if has_key(t0, k) {
            let j = choose|j: int| 0 <= j < t0.len() && t0[j].0 == k;
            assert(t1[j].0 == k);
        }
        if k == s[i].0 {
            assert(t1[i].0 == k);
        }
    }
    assert forall|k: K| has_key(t1, k) implies #[trigger] entries_model::<K, V>(t1)[k] == entries_model::<K, V>(
        t0,
    ).insert(s[i].0, s[i].1.model())[k] by {
        let j = choose|j: int| 0 <= j < t1.len() && t1[j].0 == k;
        lemma_value_at(t1, j);
        if j < i {
            lemma_value_at(t0, j);
        }
    }
    if has_key(t0, s[i].0) {
        let j = choose|j: int| 0 <= j < t0.len() && t0[j].0 == s[i].0;
        assert(s[j].0.key_value() < s[i].0.key_value());
    }
    assert(entries_model::<K, V>(t1) =~= entries_model::<K, V>(t0).insert(s[i].0, s[i].1.model()));
}

/// The order of two maps: `Greater` where the first has a key the second lacks,
/// otherwise `Less` where the second has a key the first lacks; otherwise, when
/// `Equal`, every value is in the `Equal` order with its counterpart, and when
/// not, the order of the values under the least key whose values are not in the
/// `Equal` order.
pub open spec fn map_order_ok<K: DomainKey, V: AbstractDomain>(a: Map<K, V::Model>, b: Map<K, V::Model>, r: LatticeOrder) -> bool {
    if exists|k: K| a.contains_key(k) && !b.contains_key(k) {
        r == LatticeOrder::Greater
    } else if exists|k: K| b.contains_key(k) && !a.contains_key(k) {
        r == LatticeOrder::Less
    } else if r == LatticeOrder::Equal {
        forall|k: K| a.contains_key(k) ==> V::order_ok(a[k], b[k], LatticeOrder::Equal)
    } else {
        exists|k: K|
            a.contains_key(k) && V::order_ok(a[k], b[k], r) && forall|k2: K|
                a.contains_key(k2) && k2.key_value() < k.key_value() ==> V::order_ok(a[k2], b[k2], LatticeOrder::Equal)
    }
}

impl<K: DomainKey, V: AbstractDomain> AbstractDomain for MapDomain<K, V> {
    type Model = Map<K, V::Model>;

    open spec fn model(&self) -> Map<K, V::Model> {
        entries_model::<K, V>(self.map@)
    }

    open spec fn inv(&self) -> bool {
        &&& keys_sorted(self.map@)
        &&& forall|i: int| 0 <= i < self.map@.len() ==> (#[trigger] self.map@[i]).1.inv()
    }

    open spec fn can_combine(a: Map<K, V::Model>, b: Map<K, V::Model>) -> bool {
        forall|k: K| a.contains_key(k) && b.contains_key(k) ==> V::can_combine(a[k], b[k])
    }

    open spec fn join_of(a: Map<K, V::Model>, b: Map<K, V::Model>) -> Map<K, V::Model> {
        merge_maps::<K, V>(a, b, false)
    }

    open spec fn widen_of(a: Map<K, V::Model>, b: Map<K, V::Model>) -> Map<K, V::Model> {
        merge_maps::<K, V>(a, b, true)
    }

    open spec fn narrow_of(a: Map<K, V::Model>, b: Map<K, V::Model>) -> Map<K, V::Model> {
        Map::new(
            |k: K| a.contains_key(k) && b.contains_key(k),
            |k: K| V::narrow_of(a[k], b[k]),
        )
    }

    open spec fn order_ok(a: Map<K, V::Model>, b: Map<K, V::Model>, r: LatticeOrder) -> bool {
        map_order_ok::<K, V>(a, b, r)
    }

    open spec fn bottom_value() -> Map<K, V::Model> {
        Map::empty()
    }

    fn join(&self, other: &Self) -> (r: Self) {
        self.merge(other, false)
    }

    fn widen(&self, other: &Self) -> (r: Self) {
        self.merge(other, true)
    }

    fn narrow(&self, other: &Self) -> (r: Self) {
        let mut out: MapDomain<K, V> = MapDomain { map: Vec::new() };
        let ghost target = Self::narrow_of(self.model(), other.model());
        assert(out.model() =~= Map::<K, V::Model>::empty());
        let mut i: usize = 0;
        while i < self.map.len()
            invariant
                self.inv(),
                other.inv(),
                Self::can_combine(self.model(), other.model()),
                out.inv(),
                target == Self::narrow_of(self.model(), other.model()),
                i <= self.map@.len(),
                out.model() == target.restrict(entries_model::<K, V>(self.map@.take(i as int)).dom()),
            decreases self.map@.len() - i,
        {
            let k = self.map[i].0;
            proof {
                lemma_value_at(self.map@, i as int);
                lemma_prefix_entries::<K, V>(self.map@, i as int);
            }
            match find_key(&other.map, &k) {
                Some(j) => {
                    proof {
                        lemma_value_at(other.map@, j as int);
                        assert(self.model().contains_key(k) && other.model().contains_key(k));
                        assert(V::can_combine(self.model()[k], other.model()[k]));
                    }
                    let v = self.map[i].1.narrow(&other.map[j].1);
                    out.put(k, v);
                },
                None => {
                    proof {
                        assert(!other.model().contains_key(k));
                    }
                },
            }
            proof {
                assert(out.model() =~= target.restrict(
                    entries_model::<K, V>(self.map@.take(i + 1)).dom(),
                ));
            }
            i = i + 1;
        }
        proof {
            assert(self.map@.take(self.map@.len() as int) =~= self.map@);
            assert(out.model() =~= target);
        }
        out
    }

    fn partial_order(&self, other: &Self) -> (r: LatticeOrder) {
        let mut order = LatticeOrder::Equal;
        let mut i: usize = 0;
        while i < self.map.len()
            invariant
                self.inv(),
                other.inv(),
                i <= self.map@.len(),
                forall|j: int| 0 <= j < i ==> #[trigger] other.model().contains_key(self.map@[j].0),
                order == LatticeOrder::Equal ==> forall|j: int|
                    0 <= j < i ==> V::order_ok(
                        self.model()[#[trigger] self.map@[j].0],
                        other.model()[self.map@[j].0],
                        LatticeOrder::Equal,
                    ),
                order != LatticeOrder::Equal ==> exists|j: int|
                    0 <= j < i && V::order_ok(
                        self.model()[#[trigger] self.map@[j].0],
                        other.model()[self.map@[j].0],
                        order,
                    ) && forall|j2: int|
                        0 <= j2 < j ==> V::order_ok(
                            self.model()[#[trigger] self.map@[j2].0],
                            other.model()[self.map@[j2].0],
                            LatticeOrder::Equal,
                        ),
            decreases self.map@.len() - i,
        {
            let k = self.map[i].0;
            proof {
                lemma_value_at(self.map@, i as int);
            }
            match find_key(&other.map, &k) {
                Some(j) => {
                    proof {
                        lemma_value_at(other.map@, j as int);
                    }
                    let o = self.map[i].1.partial_order(&other.map[j].1);
                    order = order.chain(o);
                },
                None => {
                    proof {
                        assert(self.model().contains_key(k) && !other.model().contains_key(k));
                    }
                    return LatticeOrder::Greater;
                },
            }
            i = i + 1;
        }
        proof {
            assert forall|k: K| self.model().contains_key(k) implies other.model().contains_key(k) by {
                let x = choose|x: int| 0 <= x < self.map@.len() && self.map@[x].0 == k;
                assert(other.model().contains_key(self.map@[x].0));
            }
        }
        let mut x: usize = 0;
        while x < other.map.len()
            invariant
                self.inv(),
                other.inv(),
                x <= other.map@.len(),
                forall|k: K| self.model().contains_key(k) ==> other.model().contains_key(k),
                order == LatticeOrder::Equal ==> forall|j: int|
                    0 <= j < self.map@.len() ==> V::order_ok(
                        self.model()[#[trigger] self.map@[j].0],
                        other.model()[self.map@[j].0],
                        LatticeOrder::Equal,
                    ),
                order != LatticeOrder::Equal ==> exists|j: int|
                    0 <= j < self.map@.len() && V::order_ok(
                        self.model()[#[trigger] self.map@[j].0],
                        other.model()[self.map@[j].0],
                        order,
                    ) && forall|j2: int|
                        0 <= j2 < j ==> V::order_ok(
                            self.model()[#[trigger] self.map@[j2].0],
                            other.model()[self.map@[j2].0],
                            LatticeOrder::Equal,
                        ),
                forall|j: int| 0 <= j < x ==> #[trigger] self.model().contains_key(other.map@[j].0),
            decreases other.map@.len() - x,
        {
            let k = other.map[x].0;
            proof {
                lemma_value_at(other.map@, x as int);
            }
            match find_key(&self.map, &k) {
                Some(_) => {},
                None => {
                    proof {
                        assert(other.model().contains_key(k) && !self.model().contains_key(k));
                    }
                    return LatticeOrder::Less;
                },
            }
            x = x + 1;
        }
        proof {
            assert forall|k: K| other.model().contains_key(k) implies self.model().contains_key(k) by {
                let y = choose|y: int| 0 <= y < other.map@.len() && other.map@[y].0 == k;
                assert(self.model().contains_key(other.map@[y].0));
            }
            if order == LatticeOrder::Equal {
                assert forall|k: K| self.model().contains_key(k) implies V::order_ok(
                    self.model()[k],
                    other.model()[k],
                    LatticeOrder::Equal,
                ) by {
                    let y = choose|y: int| 0 <= y < self.map@.len() && self.map@[y].0 == k;
                    assert(V::order_ok(
                        self.model()[self.map@[y].0],
                        other.model()[self.map@[y].0],
                        LatticeOrder::Equal,
                    ));
                }
            } else {
                let y = choose|y: int|
                    0 <= y < self.map@.len() && V::order_ok(
                        self.model()[#[trigger] self.map@[y].0],
                        other.model()[self.map@[y].0],
                        order,
                    ) && forall|j2: int|
                        0 <= j2 < y ==> V::order_ok(
                            self.model()[#[trigger] self.map@[j2].0],
                            other.model()[self.map@[j2].0],
                            LatticeOrder::Equal,
                        );
                lemma_value_at(self.map@, y);
                let kk = self.map@[y].0;
                assert forall|k2: K| self.model().contains_key(k2) && k2.key_value() < kk.key_value() implies V::order_ok(
                    self.model()[k2],
                    other.model()[k2],
                    LatticeOrder::Equal,
                ) by {
                    let z = choose|z: int| 0 <= z < self.map@.len() && self.map@[z].0 == k2;
                    if z >= y {
                        if z > y {
                            assert(self.map@[y].0.key_value() < self.map@[z].0.key_value());
                        }
                    }
                    assert(z < y);
                    assert(V::order_ok(
                        self.model()[self.map@[z].0],
                        other.model()[self.map@[z].0],
                        LatticeOrder::Equal,
                    ));
                }
                assert(self.model().contains_key(kk) && V::order_ok(
                    self.model()[kk],
                    other.model()[kk],
                    order,
                ));
            }
            assert(!(exists|k: K| self.model().contains_key(k) && !other.model().contains_key(k)));
            assert(!(exists|k: K| other.model().contains_key(k) && !self.model().contains_key(k)));
        }
        order
    }

    fn bottom() -> (r: Self) {
        let r = MapDomain { map: Vec::new() };
        assert(r.model() =~= Map::<K, V::Model>::empty());
        r
    }

    fn duplicate(&self) -> (r: Self) {
        let mut out: Vec<(K, V)> = Vec::new();
        let mut i: usize = 0;
        while i < self.map.len()
            invariant
                self.inv(),
                i <= self.map@.len(),
                out@.len() == i,
                forall|j: int| 0 <= j < i ==> #[trigger] out@[j].0 == self.map@[j].0 && out@[j].1.inv()
                    && out@[j].1.model() == self.map@[j].1.model(),
            decreases self.map@.len() - i,
        {
            let k = self.map[i].0;
            let v = self.map[i].1.duplicate();
            let ghost prev = out@;
            out.push((k, v));
            proof {
                assert forall|j: int| 0 <= j < i + 1 implies #[trigger] out@[j].0 == self.map@[j].0
                    && out@[j].1.inv() && out@[j].1.model() == self.map@[j].1.model() by {
                    if j < i {
                        assert(out@[j] == prev[j]);
                    }
                }
            }
            i = i + 1;
        }
        let r = MapDomain { map: out };
        proof {
            crate::analysis::keyed::lemma_same_keys(self.map@, r.map@);
            assert forall|i: int| 0 <= i < r.map@.len() implies (#[trigger] r.map@[i]).1.inv() by {
                assert(r.map@[i].0 == self.map@[i].0);
            }
            assert forall|k: K| #[trigger] r.model().contains_key(k) implies r.model()[k] == self.model()[k] by {
                let x = choose|x: int| 0 <= x < r.map@.len() && r.map@[x].0 == k;
                lemma_value_at(self.map@, x);
            }
            assert(r.model() =~= self.model());
        }
        r
    }

    fn equals(&self, other: &Self) -> (r: bool) {
        if self.map.len() != other.map.len() {
            proof {
                if self.model() == other.model() {
                    assert(as_map(self.map@).dom() =~= self.model().dom());
                    assert(as_map(other.map@).dom() =~= other.model().dom());
                    crate::analysis::keyed::lemma_sorted_unique(self.map@, other.map@);
                }
            }
            return false;
        }
        let mut i: usize = 0;
        while i < self.map.len()
            invariant
                self.inv(),
                other.inv(),
                i <= self.map@.len(),
                self.map@.len() == other.map@.len(),
                forall|j: int| 0 <= j < i ==> #[trigger] self.map@[j].0 == other.map@[j].0
                    && self.map@[j].1.model() == other.map@[j].1.model(),
            decreases self.map@.len() - i,
        {
            if self.map[i].0.key() != other.map[i].0.key() {
                proof {
                    K::lemma_key_injective(self.map@[i as int].0, other.map@[i as int].0);
                    if self.model() == other.model() {
                        assert(as_map(self.map@).dom() =~= self.model().dom());
                        assert(as_map(other.map@).dom() =~= other.model().dom());
                        crate::analysis::keyed::lemma_sorted_unique(self.map@, other.map@);
                    }
                }
                return false;
            }
            proof {
                K::lemma_key_injective(self.map@[i as int].0, other.map@[i as int].0);
            }
            if !self.map[i].1.equals(&other.map[i].1) {
                proof {
                    lemma_value_at(self.map@, i as int);
                    lemma_value_at(other.map@, i as int);
                    assert(self.model()[self.map@[i as int].0] != other.model()[self.map@[i as int].0]);
                }
                return false;
            }
            i = i + 1;
        }
        proof {
            crate::analysis::keyed::lemma_same_keys(self.map@, other.map@);
            assert forall|k: K| #[trigger] self.model().contains_key(k) implies self.model()[k]
                == other.model()[k] by {
                let x = choose|x: int| 0 <= x < self.map@.len() && self.map@[x].0 == k;
                lemma_value_at(self.map@, x);
                lemma_value_at(other.map@, x);
            }
            assert(self.model() =~= other.model());
        }
        true
    }
}

} // verus!
