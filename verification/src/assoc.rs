//! Association sequences as mathematical maps.
//!
//! The registry and the allowlist both store their entries in vectors of
//! key/value pairs with pairwise-distinct keys. The spec functions here
//! read such a sequence as a `Map`, and the lemmas relate the sequence
//! operations the executable code performs (push, remove) to `Map`
//! insertion and removal.

use vstd::prelude::*;

verus! {

/// The map described by an association sequence. On duplicate keys the
/// later entry wins; the code below keeps keys distinct, so the case
/// never arises.
pub open spec fn pair_map_of<K, V>(s: Seq<(K, V)>) -> Map<K, V>
    decreases s.len(),
{
    if s.len() == 0 {
        Map::empty()
    } else {
        pair_map_of(s.drop_last()).insert(s.last().0, s.last().1)
    }
}

/// Whether some entry of the sequence carries the key `k`.
pub open spec fn pair_has_key<K, V>(s: Seq<(K, V)>, k: K) -> bool {
    exists|i: int| 0 <= i < s.len() && (#[trigger] s[i]).0 == k
}

/// All keys of the sequence are pairwise distinct.
pub open spec fn pair_unique_keys<K, V>(s: Seq<(K, V)>) -> bool {
    forall|i: int, j: int|
        0 <= i < j < s.len() ==> (#[trigger] s[i]).0 != (#[trigger] s[j]).0
}

/// The domain of the map is exactly the set of keys of the entries.
pub proof fn lemma_pair_map_contains<K, V>(s: Seq<(K, V)>, k: K)
    ensures
        pair_map_of(s).contains_key(k) <==> pair_has_key(s, k),
    decreases s.len(),
{
    if s.len() == 0 {
    } else {
        lemma_pair_map_contains(s.drop_last(), k);
        if s.last().0 == k {
            assert(s[s.len() - 1].0 == k);
        } else if pair_has_key(s.drop_last(), k) {
            let i = choose|i: int| 0 <= i < s.drop_last().len() && (#[trigger] s.drop_last()[i]).0 == k;
            assert(s[i].0 == k);
        } else if pair_has_key(s, k) {
            let i = choose|i: int| 0 <= i < s.len() && (#[trigger] s[i]).0 == k;
            assert(i < s.len() - 1 && s.drop_last()[i].0 == k);
        }
    }
}

/// Under distinct keys, the map sends each entry's key to its value.
pub proof fn lemma_pair_map_index<K, V>(s: Seq<(K, V)>, i: int)
    requires
        pair_unique_keys(s),
        0 <= i < s.len(),
    ensures
        pair_map_of(s).contains_key(s[i].0),
        pair_map_of(s)[s[i].0] == s[i].1,
    decreases s.len(),
{
    if i == s.len() - 1 {
    } else {
        assert(s.drop_last()[i] == s[i]);
        lemma_pair_map_index(s.drop_last(), i);
        assert(s[i].0 != s.last().0);
    }
}

/// Under distinct keys, the map is finite and has one member per entry.
pub proof fn lemma_pair_map_len<K, V>(s: Seq<(K, V)>)
    requires
        pair_unique_keys(s),
    ensures
        pair_map_of(s).dom().finite(),
        pair_map_of(s).len() == s.len(),
    decreases s.len(),
{
    if s.len() == 0 {
        assert(pair_map_of(s).dom() =~= Set::empty());
    } else {
        lemma_pair_map_len(s.drop_last());
        lemma_pair_map_contains(s.drop_last(), s.last().0);
        assert(!pair_has_key(s.drop_last(), s.last().0)) by {
            if pair_has_key(s.drop_last(), s.last().0) {
                let i = choose|i: int|
                    0 <= i < s.drop_last().len() && (#[trigger] s.drop_last()[i]).0 == s.last().0;
                assert(s[i].0 == s[s.len() - 1].0);
            }
        }
    }
}

/// Appending an entry inserts its pair into the map.
pub proof fn lemma_pair_map_push<K, V>(s: Seq<(K, V)>, p: (K, V))
    ensures
        pair_map_of(s.push(p)) == pair_map_of(s).insert(p.0, p.1),
{
    assert(s.push(p).drop_last() =~= s);
}

/// Removing the entry at `i` removes its key from the map.
pub proof fn lemma_pair_map_remove<K, V>(s: Seq<(K, V)>, i: int)
    requires
        pair_unique_keys(s),
        0 <= i < s.len(),
    ensures
        pair_map_of(s.remove(i)) =~= pair_map_of(s).remove(s[i].0),
    decreases s.len(),
{
    if i == s.len() - 1 {
        assert(s.remove(i) =~= s.drop_last());
        lemma_pair_map_contains(s.drop_last(), s.last().0);
        assert(!pair_has_key(s.drop_last(), s.last().0)) by {
            if pair_has_key(s.drop_last(), s.last().0) {
                let j = choose|j: int|
                    0 <= j < s.drop_last().len() && (#[trigger] s.drop_last()[j]).0 == s.last().0;
                assert(s[j].0 == s[s.len() - 1].0);
            }
        }
    } else {
        assert(s.remove(i).last() == s.last());
        assert(s.remove(i).drop_last() =~= s.drop_last().remove(i));
        assert(pair_unique_keys(s.drop_last())) by {
            assert(forall|x: int, y: int|
                0 <= x < y < s.drop_last().len() ==> s.drop_last()[x] == s[x] && s.drop_last()[y] == s[y]);
        }
        lemma_pair_map_remove(s.drop_last(), i);
        assert(s.drop_last()[i] == s[i]);
        assert(s[i].0 != s.last().0);
    }
}

/// Removing an entry keeps the remaining keys distinct, and keeps
/// exactly the other keys.
pub proof fn lemma_pair_unique_remove<K, V>(s: Seq<(K, V)>, i: int)
    requires
        pair_unique_keys(s),
        0 <= i < s.len(),
    ensures
        pair_unique_keys(s.remove(i)),
        forall|k: K| pair_has_key(s.remove(i), k) <==> pair_has_key(s, k) && k != s[i].0,
{
    let t = s.remove(i);
    assert(forall|x: int| 0 <= x < i ==> #[trigger] t[x] == s[x]);
    assert(forall|x: int| i <= x < t.len() ==> #[trigger] t[x] == s[x + 1]);
    assert forall|k: K| pair_has_key(t, k) implies pair_has_key(s, k) && k != s[i].0 by {
        let x = choose|x: int| 0 <= x < t.len() && (#[trigger] t[x]).0 == k;
        if x < i {
            assert(s[x].0 == k);
        } else {
            assert(s[x + 1].0 == k);
        }
    }
    assert forall|k: K| pair_has_key(s, k) && k != s[i].0 implies pair_has_key(t, k) by {
        let x = choose|x: int| 0 <= x < s.len() && (#[trigger] s[x]).0 == k;
        if x < i {
            assert(t[x].0 == k);
        } else {
            assert(x != i);
            assert(t[x - 1].0 == k);
        }
    }
}

/// Appending an entry with a fresh key keeps the keys distinct.
pub proof fn lemma_pair_unique_push<K, V>(s: Seq<(K, V)>, p: (K, V))
    requires
        pair_unique_keys(s),
        !pair_has_key(s, p.0),
    ensures
        pair_unique_keys(s.push(p)),
        forall|k: K| pair_has_key(s.push(p), k) <==> pair_has_key(s, k) || k == p.0,
{
    let t = s.push(p);
    assert forall|i: int, j: int| 0 <= i < j < t.len() implies (#[trigger] t[i]).0 != (#[trigger] t[j]).0 by {
        if j == s.len() {
            assert(t[i] == s[i]);
            if t[i].0 == p.0 {
                assert(pair_has_key(s, p.0));
            }
        } else {
            assert(t[i] == s[i] && t[j] == s[j]);
        }
    }
    assert forall|k: K| pair_has_key(t, k) <==> pair_has_key(s, k) || k == p.0 by {
        if pair_has_key(t, k) {
            let i = choose|i: int| 0 <= i < t.len() && (#[trigger] t[i]).0 == k;
            if i < s.len() {
                assert(s[i].0 == k);
            }
        }
        if pair_has_key(s, k) {
            let i = choose|i: int| 0 <= i < s.len() && (#[trigger] s[i]).0 == k;
            assert(t[i].0 == k);
        }
        if k == p.0 {
            assert(t[s.len() as int].0 == k);
        }
    }
}

} // verus!
