use vstd::prelude::*;

use crate::ir::value::DomainKey;

verus! {

/// Entries ordered by strictly increasing key number (so every key occurs once).
pub open spec fn keys_sorted<K: DomainKey, V>(s: Seq<(K, V)>) -> bool {
    forall|i: int, j: int| 0 <= i < j < s.len() ==> s[i].0.key_value() < s[j].0.key_value()
}

/// Some entry has key `k`.
pub open spec fn has_key<K: DomainKey, V>(s: Seq<(K, V)>, k: K) -> bool {
    exists|i: int| 0 <= i < s.len() && s[i].0 == k
}

/// The value stored under key `k` (meaningful when `has_key(s, k)`).
pub open spec fn value_at<K: DomainKey, V>(s: Seq<(K, V)>, k: K) -> V {
    s[choose|i: int| 0 <= i < s.len() && s[i].0 == k].1
}

/// The entries as a finite map.
pub open spec fn as_map<K: DomainKey, V>(s: Seq<(K, V)>) -> Map<K, V> {
    Map::new(|k: K| has_key(s, k), |k: K| value_at(s, k))
}

/// In a sorted list, the entry with key `k` is unique.
pub proof fn lemma_value_at<K: DomainKey, V>(s: Seq<(K, V)>, i: int)
    requires
        keys_sorted(s),
        0 <= i < s.len(),
    ensures
        has_key(s, s[i].0),
        value_at(s, s[i].0) == s[i].1,
        as_map(s).contains_key(s[i].0),
        as_map(s)[s[i].0] == s[i].1,
{
    let k = s[i].0;
    let j = choose|j: int| 0 <= j < s.len() && s[j].0 == k;
    if j != i {
        assert(s[j].0.key_value() == s[i].0.key_value());
    }
}

/// Looks up the position of key `k`.
pub fn find_key<K: DomainKey, V>(v: &Vec<(K, V)>, k: &K) -> (r: Option<usize>)
    requires
        keys_sorted(v@),
    ensures
        match r {
            Some(i) => i < v@.len() && v@[i as int].0 == *k,
            None => !has_key(v@, *k),
        },
{
    let target = k.key();
    let mut i: usize = 0;
    while i < v.len()
        invariant
            i <= v@.len(),
            target as nat == k.key_value(),
            forall|j: int| 0 <= j < i ==> v@[j].0.key_value() != k.key_value(),
        decreases v@.len() - i,
    {
        if v[i].0.key() == target {
            proof {
                K::lemma_key_injective(v@[i as int].0, *k);
            }
            return Some(i);
        }
        i = i + 1;
    }
    None
}

/// The value stored under `k`.
pub fn get_value<'a, K: DomainKey, V>(v: &'a Vec<(K, V)>, k: &K) -> (r: &'a V)
    requires
        keys_sorted(v@),
        has_key(v@, *k),
    ensures
        *r == as_map(v@)[*k],
{
    let i = find_key(v, k).unwrap();
    proof {
        lemma_value_at(v@, i as int);
    }
    &v[i].1
}

/// Stores `val` under `k`, replacing any previous value, keeping the list sorted.
pub fn insert_value<K: DomainKey, V>(v: &mut Vec<(K, V)>, k: K, val: V)
    requires
        keys_sorted(old(v)@),
    ensures
        keys_sorted(final(v)@),
        as_map(final(v)@) == as_map(old(v)@).insert(k, val),
{
    let ghost s0 = v@;
    let target = k.key();
    let mut i: usize = 0;
    while i < v.len() && v[i].0.key() < target
        invariant
            v@ == s0,
            keys_sorted(s0),
            i <= s0.len(),
            target as nat == k.key_value(),
            forall|j: int| 0 <= j < i ==> s0[j].0.key_value() < k.key_value(),
        decreases s0.len() - i,
    {
        i = i + 1;
    }
    if i < v.len() && v[i].0.key() == target {
        proof {
            K::lemma_key_injective(s0[i as int].0, k);
        }
        v.set(i, (k, val));
        proof {
            let s1 = v@;
            assert(s1 == s0.update(i as int, (k, val)));
            assert forall|a: int, b: int| 0 <= a < b < s1.len() implies s1[a].0.key_value()
                < s1[b].0.key_value() by {
                assert(s0[a].0.key_value() < s0[b].0.key_value());
            }
            assert forall|kk: K| #[trigger] as_map(s1).contains_key(kk) == as_map(s0).insert(
                k,
                val,
            ).contains_key(kk) by {
                if has_key(s1, kk) {
                    let j = choose|j: int| 0 <= j < s1.len() && s1[j].0 == kk;
                    if j != i {
                        assert(s0[j].0 == kk);
                    }
                }
                if has_key(s0, kk) {
                    let j = choose|j: int| 0 <= j < s0.len() && s0[j].0 == kk;
                    if j != i {
                        assert(s1[j].0 == kk);
                    }
                }
                if kk == k {
                    assert(s1[i as int].0 == kk);
                }
            }
            assert forall|kk: K| #[trigger] as_map(s1).contains_key(kk) implies as_map(s1)[kk]
                == as_map(s0).insert(k, val)[kk] by {
                let j = choose|j: int| 0 <= j < s1.len() && s1[j].0 == kk;
                lemma_value_at(s1, j);
                if j != i {
                    lemma_value_at(s0, j);
                }
            }
            assert(as_map(s1) =~= as_map(s0).insert(k, val));
        }
    } else {
        proof {
            assert forall|j: int| 0 <= j < s0.len() implies s0[j].0 != k by {
                if j < i {
                    assert(s0[j].0.key_value() < k.key_value());
                } else {
                    assert(s0[j].0.key_value() >= s0[i as int].0.key_value());
                    if j > i {
                        assert(s0[i as int].0.key_value() < s0[j].0.key_value());
                    }
                    assert(s0[i as int].0.key_value() > k.key_value());
                }
            }
        }
        v.insert(i, (k, val));
        proof {
            let s1 = v@;
            assert(s1 == s0.insert(i as int, (k, val)));
            assert forall|a: int, b: int| 0 <= a < b < s1.len() implies s1[a].0.key_value()
                < s1[b].0.key_value() by {
                if a < i && b < i {
                    assert(s0[a].0.key_value() < s0[b].0.key_value());
                } else if a < i && b == i {
                } else if a < i && b > i {
                    assert(s1[b] == s0[b - 1]);
                    assert(s0[a].0.key_value() < k.key_value());
                    assert(s0[b - 1].0.key_value() >= s0[i as int].0.key_value());
                    if b - 1 > i {
                        assert(s0[i as int].0.key_value() < s0[b - 1].0.key_value());
                    }
                } else if a == i {
                    assert(s1[b] == s0[b - 1]);
                    if b - 1 > i {
                        assert(s0[i as int].0.key_value() < s0[b - 1].0.key_value());
                    }
                } else {
                    assert(s1[a] == s0[a - 1]);
                    assert(s1[b] == s0[b - 1]);
                    assert(s0[a - 1].0.key_value() < s0[b - 1].0.key_value());
                }
            }
            assert forall|kk: K| #[trigger] as_map(s1).contains_key(kk) == as_map(s0).insert(
                k,
                val,
            ).contains_key(kk) by {
                if has_key(s1, kk) {
                    let j = choose|j: int| 0 <= j < s1.len() && s1[j].0 == kk;
                    if j < i {
                        assert(s0[j].0 == kk);
                    } else if j > i {
                        assert(s0[j - 1].0 == kk);
                    }
                }
                if has_key(s0, kk) {
                    let j = choose|j: int| 0 <= j < s0.len() && s0[j].0 == kk;
                    if j < i {
                        assert(s1[j].0 == kk);
                    } else {
                        assert(s1[j + 1].0 == kk);
                    }
                }
                if kk == k {
                    assert(s1[i as int].0 == kk);
                }
            }
            assert forall|kk: K| #[trigger] as_map(s1).contains_key(kk) implies as_map(s1)[kk]
                == as_map(s0).insert(k, val)[kk] by {
                let j = choose|j: int| 0 <= j < s1.len() && s1[j].0 == kk;
                lemma_value_at(s1, j);
                if j < i {
                    lemma_value_at(s0, j);
                    assert(s0[j] == s1[j]);
                } else if j > i {
                    lemma_value_at(s0, j - 1);
                    assert(s0[j - 1] == s1[j]);
                }
            }
            assert(as_map(s1) =~= as_map(s0).insert(k, val));
        }
    }
}

/// Two sorted lists with the same keys in the same places.
pub open spec fn same_keys<K: DomainKey, V, W>(a: Seq<(K, V)>, b: Seq<(K, W)>) -> bool {
    a.len() == b.len() && forall|i: int| 0 <= i < a.len() ==> #[trigger] a[i].0 == b[i].0
}

/// A list with the keys of a sorted list, in the same places, is sorted and has
/// the same domain.
pub proof fn lemma_same_keys<K: DomainKey, V, W>(a: Seq<(K, V)>, b: Seq<(K, W)>)
    requires
        keys_sorted(a),
        same_keys(a, b),
    ensures
        keys_sorted(b),
        as_map(b).dom() == as_map(a).dom(),
        forall|i: int| 0 <= i < b.len() ==> #[trigger] as_map(b)[b[i].0] == b[i].1,
{
    assert(keys_sorted(b)) by {
        assert forall|i: int, j: int| 0 <= i < j < b.len() implies b[i].0.key_value() < b[j].0.key_value() by {
            assert(a[i].0 == b[i].0 && a[j].0 == b[j].0);
        }
    }
    assert forall|k: K| as_map(b).contains_key(k) == as_map(a).contains_key(k) by {
        if has_key(b, k) {
            let i = choose|i: int| 0 <= i < b.len() && b[i].0 == k;
            assert(a[i].0 == k);
        }
        if has_key(a, k) {
            let i = choose|i: int| 0 <= i < a.len() && a[i].0 == k;
            assert(b[i].0 == k);
        }
    }
    assert(as_map(b).dom() =~= as_map(a).dom());
    assert forall|i: int| 0 <= i < b.len() implies #[trigger] as_map(b)[b[i].0] == b[i].1 by {
        lemma_value_at(b, i);
    }
}

/// Sorted lists with the same domain have the same keys in the same places.
pub proof fn lemma_sorted_unique<K: DomainKey, V, W>(a: Seq<(K, V)>, b: Seq<(K, W)>)
    requires
        keys_sorted(a),
        keys_sorted(b),
        as_map(a).dom() == as_map(b).dom(),
    ensures
        same_keys(a, b),
    decreases a.len(),
{
    if a.len() == 0 {
        if b.len() > 0 {
            lemma_value_at(b, 0);
            assert(as_map(b).contains_key(b[0].0));
        }
    } else if b.len() == 0 {
        lemma_value_at(a, 0);
        assert(as_map(a).contains_key(a[0].0));
    } else {
        lemma_value_at(a, 0);
        lemma_value_at(b, 0);
        assert(as_map(b).contains_key(a[0].0));
        assert(as_map(a).contains_key(b[0].0));
        let i = choose|i: int| 0 <= i < b.len() && b[i].0 == a[0].0;
        let j = choose|j: int| 0 <= j < a.len() && a[j].0 == b[0].0;
        if i > 0 {
            assert(b[0].0.key_value() < b[i].0.key_value());
        }
        if j > 0 {
            assert(a[0].0.key_value() < a[j].0.key_value());
        }
        assert(a[0].0 == b[0].0);
        let a1 = a.drop_first();
        let b1 = b.drop_first();
        assert forall|k: K| as_map(a1).contains_key(k) == as_map(b1).contains_key(k) by {
            if has_key(a1, k) {
                let x = choose|x: int| 0 <= x < a1.len() && a1[x].0 == k;
                assert(a[x + 1].0 == k);
                assert(a[0].0.key_value() < a[x + 1].0.key_value());
                assert(has_key(a, k));
                assert(as_map(b).contains_key(k));
                let y = choose|y: int| 0 <= y < b.len() && b[y].0 == k;
                assert(y != 0);
                assert(b1[y - 1].0 == k);
            }
            if has_key(b1, k) {
                let x = choose|x: int| 0 <= x < b1.len() && b1[x].0 == k;
                assert(b[x + 1].0 == k);
                assert(b[0].0.key_value() < b[x + 1].0.key_value());
                assert(has_key(b, k));
                assert(as_map(a).contains_key(k));
                let y = choose|y: int| 0 <= y < a.len() && a[y].0 == k;
                assert(y != 0);
                assert(a1[y - 1].0 == k);
            }
        }
        assert(as_map(a1).dom() =~= as_map(b1).dom());
        lemma_sorted_unique(a1, b1);
        assert forall|x: int| 0 <= x < a.len() implies #[trigger] a[x].0 == b[x].0 by {
            if x > 0 {
                assert(a1[x - 1].0 == b1[x - 1].0);
            }
        }
    }
}

} // verus!
