//! A secondary index of the sale registry.
//!
//! An index files sale keys under an account name (the seller, or the
//! issuing registry). Buckets are never empty: the last key leaving a
//! bucket removes the bucket itself, so an index never holds a dangling
//! name.

use vstd::prelude::*;

use crate::AccountId;
use crate::sale::{SaleKey, SaleKeyView};

verus! {

/// A map from an account name to the non-empty set of sale keys filed
/// under it.
pub struct KeyIndex {
    entries: Vec<(AccountId, Vec<SaleKey>)>,
}

impl KeyIndex {
    /// How many names have a bucket.
    pub closed spec fn n_entries(self) -> int {
        self.entries@.len() as int
    }

    /// The name of the bucket at position `i`.
    pub closed spec fn entry_name(self, i: int) -> Seq<char> {
        self.entries@[i].0@
    }

    /// How many keys the bucket at position `i` holds.
    pub closed spec fn bucket_len(self, i: int) -> int {
        self.entries@[i].1@.len() as int
    }

    /// The key at position `j` of the bucket at position `i`.
    pub closed spec fn elem(self, i: int, j: int) -> SaleKeyView {
        self.entries@[i].1@[j]@
    }

    /// Whether key `k` is filed under name `n`.
    pub open spec fn contains(self, n: Seq<char>, k: SaleKeyView) -> bool {
        exists|i: int, j: int|
            0 <= i < self.n_entries() && 0 <= j < self.bucket_len(i) && self.entry_name(i) == n
                && #[trigger] self.elem(i, j) == k
    }

    /// Whether name `n` has a bucket at all.
    pub open spec fn has_entry(self, n: Seq<char>) -> bool {
        exists|i: int| 0 <= i < self.n_entries() && (#[trigger] self.entry_name(i)) == n
    }

    /// Names are distinct, buckets are non-empty, and no bucket files
    /// the same key twice.
    pub open spec fn wf(self) -> bool {
        &&& forall|i1: int, i2: int|
            0 <= i1 < i2 < self.n_entries() ==> (#[trigger] self.entry_name(i1)) != (
            #[trigger] self.entry_name(i2))
        &&& forall|i: int| 0 <= i < self.n_entries() ==> (#[trigger] self.bucket_len(i)) > 0
        &&& forall|i: int, j1: int, j2: int|
            0 <= i < self.n_entries() && 0 <= j1 < j2 < self.bucket_len(i) ==> (
            #[trigger] self.elem(i, j1)) != (#[trigger] self.elem(i, j2))
    }

    /// In a well-formed index a name has a bucket exactly when some key
    /// is filed under it: empty buckets are pruned away.
    pub proof fn lemma_pruned(self)
        requires
            self.wf(),
        ensures
            forall|n: Seq<char>|
                self.has_entry(n) <==> exists|k: SaleKeyView| #[trigger] self.contains(n, k),
    {
        assert forall|n: Seq<char>|
            self.has_entry(n) <==> exists|k: SaleKeyView| #[trigger] self.contains(n, k) by {
            if self.has_entry(n) {
                let i = choose|i: int|
                    0 <= i < self.n_entries() && (#[trigger] self.entry_name(i)) == n;
                assert(self.bucket_len(i) > 0);
                assert(self.contains(n, self.elem(i, 0)));
            }
            if exists|k: SaleKeyView| #[trigger] self.contains(n, k) {
                let k = choose|k: SaleKeyView| #[trigger] self.contains(n, k);
                let (i, j) = choose|i: int, j: int|
                    0 <= i < self.n_entries() && 0 <= j < self.bucket_len(i) && self.entry_name(i)
                        == n && #[trigger] self.elem(i, j) == k;
                assert(self.entry_name(i) == n);
            }
        }
    }

    /// An index with no buckets.
    pub fn new() -> (r: KeyIndex)
        ensures
            r.wf(),
            forall|n: Seq<char>, k: SaleKeyView| !r.contains(n, k),
            forall|n: Seq<char>| !r.has_entry(n),
    {
        KeyIndex { entries: Vec::new() }
    }

    /// Position of the bucket named `name`, if any.
    fn find_entry(&self, name: &AccountId) -> (r: Option<usize>)
        ensures
            match r {
                Some(i) => i < self.n_entries() && self.entry_name(i as int) == name@,
                None => !self.has_entry(name@),
            },
    {
        let mut i: usize = 0;
        while i < self.entries.len()
            invariant
                i <= self.entries.len(),
                forall|x: int| 0 <= x < i ==> (#[trigger] self.entry_name(x)) != name@,
            decreases self.entries.len() - i,
        {
            if self.entries[i].0 == *name {
                return Some(i);
            }
            i += 1;
        }
        None
    }

    /// Position of `key` within `bucket`, if any.
    fn find_in_bucket(bucket: &Vec<SaleKey>, key: &SaleKey) -> (r: Option<usize>)
        ensures
            match r {
                Some(j) => j < bucket@.len() && bucket@[j as int]@ == key@,
                None => forall|j: int| 0 <= j < bucket@.len() ==> (#[trigger] bucket@[j]@) != key@,
            },
    {
        let mut j: usize = 0;
        while j < bucket.len()
            invariant
                j <= bucket.len(),
                forall|x: int| 0 <= x < j ==> (#[trigger] bucket@[x]@) != key@,
            decreases bucket.len() - j,
        {
            if bucket[j].key_eq(key) {
                return Some(j);
            }
            j += 1;
        }
        None
    }

    /// File `key` under `name`.
    pub fn add(&mut self, name: &AccountId, key: &SaleKey)
        requires
            old(self).wf(),
            !old(self).contains(name@, key@),
        ensures
            final(self).wf(),
            forall|n: Seq<char>, k: SaleKeyView|
                #[trigger] final(self).contains(n, k) <==> old(self).contains(n, k) || (n == name@
                    && k == key@),
            forall|n: Seq<char>|
                #[trigger] final(self).has_entry(n) <==> old(self).has_entry(n) || n == name@,
    {
        match self.find_entry(name) {
            Some(i) => {
                let nm = self.entries[i].0.clone();
                let mut bucket = clone_bucket(&self.entries[i].1);
                bucket.push(key.clone());
                self.entries[i] = (nm, bucket);
                proof {
                    let pre = *old(self);
                    let post = *self;
                    let ii = i as int;
                    let bl = pre.bucket_len(ii);
                    assert(post.n_entries() == pre.n_entries());
                    assert(post.bucket_len(ii) == bl + 1);
                    assert forall|x: int| 0 <= x < post.n_entries() implies post.entry_name(x)
                        == pre.entry_name(x) by {}
                    assert forall|x: int|
                        0 <= x < post.n_entries() && x != ii implies post.bucket_len(x)
                            == pre.bucket_len(x) by {}
                    assert forall|x: int, y: int|
                        0 <= x < post.n_entries() && 0 <= y < post.bucket_len(x) && !(x == ii && y
                            == bl) implies post.elem(x, y) == pre.elem(x, y) by {}
                    assert(post.elem(ii, bl) == key@);
                    // the new key is not already in the bucket
                    assert forall|y: int| 0 <= y < bl implies pre.elem(ii, y) != key@ by {
                        if pre.elem(ii, y) == key@ {
                            assert(pre.contains(name@, key@));
                        }
                    }
                    assert forall|n: Seq<char>, k: SaleKeyView|
                        #[trigger] post.contains(n, k) implies pre.contains(n, k) || (n == name@
                        && k == key@) by {
                        let (x, y) = choose|x: int, y: int|
                            0 <= x < post.n_entries() && 0 <= y < post.bucket_len(x)
                                && post.entry_name(x) == n && #[trigger] post.elem(x, y) == k;
                        if !(x == ii && y == bl) {
                            assert(pre.elem(x, y) == k);
                        }
                    }
                    assert forall|n: Seq<char>, k: SaleKeyView| pre.contains(n, k) implies
                        #[trigger] post.contains(n, k) by {
                        let (x, y) = choose|x: int, y: int|
                            0 <= x < pre.n_entries() && 0 <= y < pre.bucket_len(x)
                                && pre.entry_name(x) == n && #[trigger] pre.elem(x, y) == k;
                        assert(post.elem(x, y) == k);
                    }
                    assert(post.contains(name@, key@)) by {
                        assert(post.elem(ii, bl) == key@ && post.entry_name(ii) == name@);
                    }
                    assert(post.wf()) by {
                        assert forall|x: int, y1: int, y2: int|
                            0 <= x < post.n_entries() && 0 <= y1 < y2 < post.bucket_len(x) implies (
                        #[trigger] post.elem(x, y1)) != (#[trigger] post.elem(x, y2)) by {
                            if x == ii && y2 == bl {
                                assert(post.elem(x, y1) == pre.elem(x, y1));
                                assert(pre.elem(ii, y1) != key@);
                            } else {
                                assert(post.elem(x, y1) == pre.elem(x, y1));
                                assert(post.elem(x, y2) == pre.elem(x, y2));
                            }
                        }
                    }
                }
            },
            None => {
                let mut bucket: Vec<SaleKey> = Vec::new();
                bucket.push(key.clone());
                self.entries.push((name.clone(), bucket));
                proof {
                    let pre = *old(self);
                    let post = *self;
                    let ii = pre.n_entries();
                    assert forall|x: int| 0 <= x < ii implies post.entry_name(x) == pre.entry_name(
                        x) by {}
                    assert forall|x: int, y: int|
                        0 <= x < ii && 0 <= y < post.bucket_len(x) implies post.elem(x, y)
                            == pre.elem(x, y) && post.bucket_len(x) == pre.bucket_len(x) by {}
                    assert(post.entry_name(ii) == name@);
                    assert(post.bucket_len(ii) == 1);
                    assert(post.elem(ii, 0) == key@);
                    // the new name is fresh, keeping names distinct
                    assert forall|x: int| 0 <= x < ii implies pre.entry_name(x) != name@ by {
                        if pre.entry_name(x) == name@ {
                            assert(pre.has_entry(name@));
                        }
                    }
                    assert forall|n: Seq<char>, k: SaleKeyView|
                        #[trigger] post.contains(n, k) implies pre.contains(n, k) || (n == name@
                        && k == key@) by {
                        let (x, y) = choose|x: int, y: int|
                            0 <= x < post.n_entries() && 0 <= y < post.bucket_len(x)
                                && post.entry_name(x) == n && #[trigger] post.elem(x, y) == k;
                        if x < ii {
                            assert(pre.elem(x, y) == k);
                        }
                    }
                    assert forall|n: Seq<char>, k: SaleKeyView| pre.contains(n, k) implies
                        #[trigger] post.contains(n, k) by {
                        let (x, y) = choose|x: int, y: int|
                            0 <= x < pre.n_entries() && 0 <= y < pre.bucket_len(x)
                                && pre.entry_name(x) == n && #[trigger] pre.elem(x, y) == k;
                        assert(post.elem(x, y) == k);
                    }
                    assert(post.contains(name@, key@)) by {
                        assert(post.elem(ii, 0) == key@ && post.entry_name(ii) == name@);
                    }
                    assert forall|n: Seq<char>|
                        #[trigger] post.has_entry(n) <==> pre.has_entry(n) || n == name@ by {
                        if post.has_entry(n) {
                            let x = choose|x: int|
                                0 <= x < post.n_entries() && (#[trigger] post.entry_name(x)) == n;
                            if x < ii {
                                assert(pre.entry_name(x) == n);
                            }
                        }
                        if pre.has_entry(n) {
                            let x = choose|x: int|
                                0 <= x < pre.n_entries() && (#[trigger] pre.entry_name(x)) == n;
                            assert(post.entry_name(x) == n);
                        }
                        assert(post.entry_name(ii) == name@);
                    }
                    assert(post.wf()) by {
                        assert forall|x1: int, x2: int|
                            0 <= x1 < x2 < post.n_entries() implies (#[trigger] post.entry_name(
                            x1)) != (#[trigger] post.entry_name(x2)) by {
                            if x2 == ii {
                                assert(pre.entry_name(x1) != name@);
                            } else {
                                assert(post.entry_name(x1) == pre.entry_name(x1));
                                assert(post.entry_name(x2) == pre.entry_name(x2));
                            }
                        }
                        assert forall|x: int|
                            0 <= x < post.n_entries() implies (#[trigger] post.bucket_len(x))
                            > 0 by {
                            if x < ii {
                                assert(post.bucket_len(x) == pre.bucket_len(x));
                            }
                        }
                        assert forall|x: int, y1: int, y2: int|
                            0 <= x < post.n_entries() && 0 <= y1 < y2 < post.bucket_len(x) implies (
                        #[trigger] post.elem(x, y1)) != (#[trigger] post.elem(x, y2)) by {
                            assert(x < ii);
                            assert(post.elem(x, y1) == pre.elem(x, y1));
                            assert(post.elem(x, y2) == pre.elem(x, y2));
                        }
                    }
                }
            },
        }
    }
    /// Unfile `key` from under `name`; a bucket goes away with its last
    /// key, so no empty bucket is ever left behind.
    pub fn remove(&mut self, name: &AccountId, key: &SaleKey)
        requires
            old(self).wf(),
            old(self).contains(name@, key@),
        ensures
            final(self).wf(),
            forall|n: Seq<char>, k: SaleKeyView|
                #[trigger] final(self).contains(n, k) <==> old(self).contains(n, k) && !(n == name@
                    && k == key@),
    {
        let ghost pre = *old(self);
        let i = match self.find_entry(name) {
            Some(i) => i,
            None => {
                proof {
                    let (x, y) = choose|x: int, y: int|
                        0 <= x < pre.n_entries() && 0 <= y < pre.bucket_len(x) && pre.entry_name(x)
                            == name@ && #[trigger] pre.elem(x, y) == key@;
                    assert(pre.has_entry(name@));
                }
                unreached()
            },
        };
        let ghost ii = i as int;
        proof {
            // the precondition's witness lies in bucket `i`: names are distinct
            let (x, y) = choose|x: int, y: int|
                0 <= x < pre.n_entries() && 0 <= y < pre.bucket_len(x) && pre.entry_name(x)
                    == name@ && #[trigger] pre.elem(x, y) == key@;
            assert(x == ii);
        }
        let j = match Self::find_in_bucket(&self.entries[i].1, key) {
            Some(j) => j,
            None => {
                proof {
                    let (x, y) = choose|x: int, y: int|
                        0 <= x < pre.n_entries() && 0 <= y < pre.bucket_len(x) && pre.entry_name(x)
                            == name@ && #[trigger] pre.elem(x, y) == key@;
                    assert(pre.entries@[ii].1@[y]@ != key@);
                }
                unreached()
            },
        };
        let ghost jj = j as int;
        proof {
            // `key` sits at position `j` and nowhere else in the bucket
            assert forall|y: int| 0 <= y < pre.bucket_len(ii) && y != jj implies pre.elem(ii, y)
                != key@ by {
                if y < jj {
                    assert(pre.elem(ii, y) != pre.elem(ii, jj));
                } else {
                    assert(pre.elem(ii, jj) != pre.elem(ii, y));
                }
            }
            // `key` is filed under no other name
            assert forall|x: int, y: int|
                0 <= x < pre.n_entries() && 0 <= y < pre.bucket_len(x) && !(x == ii && y == jj)
                    implies !(pre.entry_name(x) == name@ && #[trigger] pre.elem(x, y) == key@) by {
                if x != ii && pre.entry_name(x) == name@ {
                    if x < ii {
                        assert(pre.entry_name(x) != pre.entry_name(ii));
                    } else {
                        assert(pre.entry_name(ii) != pre.entry_name(x));
                    }
                }
            }
        }
        if self.entries[i].1.len() == 1 {
            self.entries.remove(i);
            proof {
                let post = *self;
                assert forall|x: int| 0 <= x < ii implies post.entry_name(x) == pre.entry_name(x)
                    && post.bucket_len(x) == pre.bucket_len(x) by {}
                assert forall|x: int|
                    ii <= x < post.n_entries() implies post.entry_name(x) == pre.entry_name(x + 1)
                        && post.bucket_len(x) == pre.bucket_len(x + 1) by {}
                assert forall|x: int, y: int|
                    0 <= x < ii && 0 <= y < post.bucket_len(x) implies post.elem(x, y) == pre.elem(
                    x, y) by {}
                assert forall|x: int, y: int|
                    ii <= x < post.n_entries() && 0 <= y < post.bucket_len(x) implies post.elem(
                    x, y) == pre.elem(x + 1, y) by {}
                assert forall|n: Seq<char>, k: SaleKeyView|
                    #[trigger] post.contains(n, k) implies pre.contains(n, k) && !(n == name@ && k
                    == key@) by {
                    let (x, y) = choose|x: int, y: int|
                        0 <= x < post.n_entries() && 0 <= y < post.bucket_len(x)
                            && post.entry_name(x) == n && #[trigger] post.elem(x, y) == k;
                    if x < ii {
                        assert(pre.elem(x, y) == k);
                        assert(!(pre.entry_name(x) == name@ && pre.elem(x, y) == key@));
                    } else {
                        assert(pre.elem(x + 1, y) == k);
                        assert(!(pre.entry_name(x + 1) == name@ && pre.elem(x + 1, y) == key@));
                    }
                }
                assert forall|n: Seq<char>, k: SaleKeyView|
                    pre.contains(n, k) && !(n == name@ && k == key@) implies #[trigger] post.contains(
                    n, k) by {
                    let (x, y) = choose|x: int, y: int|
                        0 <= x < pre.n_entries() && 0 <= y < pre.bucket_len(x) && pre.entry_name(x)
                            == n && #[trigger] pre.elem(x, y) == k;
                    if x == ii {
                        assert(y == jj && jj == 0);
                        assert(n == name@ && k == key@);
                    } else if x < ii {
                        assert(post.elem(x, y) == k);
                    } else {
                        assert(post.elem(x - 1, y) == k);
                    }
                }
                assert(post.wf()) by {
                    assert forall|x1: int, x2: int|
                        0 <= x1 < x2 < post.n_entries() implies (#[trigger] post.entry_name(x1))
                        != (#[trigger] post.entry_name(x2)) by {
                        if x2 < ii {
                            assert(pre.entry_name(x1) != pre.entry_name(x2));
                        } else if x1 < ii {
                            assert(pre.entry_name(x1) != pre.entry_name(x2 + 1));
                        } else {
                            assert(pre.entry_name(x1 + 1) != pre.entry_name(x2 + 1));
                        }
                    }
                    assert forall|x: int, y1: int, y2: int|
                        0 <= x < post.n_entries() && 0 <= y1 < y2 < post.bucket_len(x) implies (
                    #[trigger] post.elem(x, y1)) != (#[trigger] post.elem(x, y2)) by {
                        if x < ii {
                            assert(post.elem(x, y1) == pre.elem(x, y1));
                            assert(post.elem(x, y2) == pre.elem(x, y2));
                        } else {
                            assert(post.elem(x, y1) == pre.elem(x + 1, y1));
                            assert(post.elem(x, y2) == pre.elem(x + 1, y2));
                        }
                    }
                }
            }
        } else {
            let nm = self.entries[i].0.clone();
            let mut bucket = clone_bucket(&self.entries[i].1);
            bucket.remove(j);
            self.entries[i] = (nm, bucket);
            proof {
                let post = *self;
                let bl = pre.bucket_len(ii);
                assert(post.n_entries() == pre.n_entries());
                assert forall|x: int| 0 <= x < post.n_entries() implies post.entry_name(x)
                    == pre.entry_name(x) by {}
                assert forall|x: int|
                    0 <= x < post.n_entries() && x != ii implies post.bucket_len(x)
                        == pre.bucket_len(x) by {}
                assert(post.bucket_len(ii) == bl - 1);
                assert forall|x: int, y: int|
                    0 <= x < post.n_entries() && x != ii && 0 <= y < post.bucket_len(x) implies
                    post.elem(x, y) == pre.elem(x, y) by {}
                assert forall|y: int| 0 <= y < jj implies post.elem(ii, y) == pre.elem(ii, y) by {}
                assert forall|y: int| jj <= y < post.bucket_len(ii) implies post.elem(ii, y)
                    == pre.elem(ii, y + 1) by {}
                assert forall|n: Seq<char>, k: SaleKeyView|
                    #[trigger] post.contains(n, k) implies pre.contains(n, k) && !(n == name@ && k
                    == key@) by {
                    let (x, y) = choose|x: int, y: int|
                        0 <= x < post.n_entries() && 0 <= y < post.bucket_len(x)
                            && post.entry_name(x) == n && #[trigger] post.elem(x, y) == k;
                    if x != ii {
                        assert(pre.elem(x, y) == k);
                        assert(!(pre.entry_name(x) == name@ && pre.elem(x, y) == key@));
                    } else if y < jj {
                        assert(pre.elem(ii, y) == k);
                        assert(pre.elem(ii, y) != key@);
                    } else {
                        assert(pre.elem(ii, y + 1) == k);
                        assert(pre.elem(ii, y + 1) != key@);
                    }
                }
                assert forall|n: Seq<char>, k: SaleKeyView|
                    pre.contains(n, k) && !(n == name@ && k == key@) implies #[trigger] post.contains(
                    n, k) by {
                    let (x, y) = choose|x: int, y: int|
                        0 <= x < pre.n_entries() && 0 <= y < pre.bucket_len(x) && pre.entry_name(x)
                            == n && #[trigger] pre.elem(x, y) == k;
                    if x != ii {
                        assert(post.elem(x, y) == k);
                    } else if y == jj {
                        assert(n == name@ && k == key@);
                    } else if y < jj {
                        assert(post.elem(ii, y) == k);
                    } else {
                        assert(post.elem(ii, y - 1) == k);
                    }
                }
                assert(post.wf()) by {
                    assert forall|x: int, y1: int, y2: int|
                        0 <= x < post.n_entries() && 0 <= y1 < y2 < post.bucket_len(x) implies (
                    #[trigger] post.elem(x, y1)) != (#[trigger] post.elem(x, y2)) by {
                        if x != ii {
                            assert(post.elem(x, y1) == pre.elem(x, y1));
                            assert(post.elem(x, y2) == pre.elem(x, y2));
                        } else {
                            let z1: int = if y1 < jj { y1 } else { y1 + 1 };
                            let z2: int = if y2 < jj { y2 } else { y2 + 1 };
                            assert(post.elem(ii, y1) == pre.elem(ii, z1));
                            assert(post.elem(ii, y2) == pre.elem(ii, z2));
                            assert(pre.elem(ii, z1) != pre.elem(ii, z2));
                        }
                    }
                }
            }
        }
    }

    /// All keys filed under `name`; empty exactly when `name` has no
    /// bucket.
    pub fn keys_for(&self, name: &AccountId) -> (r: Vec<SaleKey>)
        requires
            self.wf(),
        ensures
            forall|j: int| 0 <= j < r@.len() ==> self.contains(name@, (#[trigger] r@[j])@),
            forall|k: SaleKeyView|
                #[trigger] self.contains(name@, k) ==> exists|j: int|
                    0 <= j < r@.len() && (#[trigger] r@[j])@ == k,
    {
        match self.find_entry(name) {
            None => {
                proof {
                    assert forall|k: SaleKeyView| !self.contains(name@, k) by {
                        if self.contains(name@, k) {
                            let (x, y) = choose|x: int, y: int|
                                0 <= x < self.n_entries() && 0 <= y < self.bucket_len(x)
                                    && self.entry_name(x) == name@ && #[trigger] self.elem(x, y)
                                    == k;
                            assert(self.has_entry(name@));
                        }
                    }
                }
                Vec::new()
            },
            Some(i) => {
                let r = clone_bucket(&self.entries[i].1);
                proof {
                    let ii = i as int;
                    assert forall|j: int| 0 <= j < r@.len() implies self.contains(
                        name@,
                        (#[trigger] r@[j])@,
                    ) by {
                        assert(self.elem(ii, j) == r@[j]@);
                    }
                    assert forall|k: SaleKeyView| #[trigger] self.contains(name@, k) implies exists|
                        j: int,
                    | 0 <= j < r@.len() && (#[trigger] r@[j])@ == k by {
                        let (x, y) = choose|x: int, y: int|
                            0 <= x < self.n_entries() && 0 <= y < self.bucket_len(x)
                                && self.entry_name(x) == name@ && #[trigger] self.elem(x, y) == k;
                        assert(x == ii);
                        assert(r@[y]@ == k);
                    }
                }
                r
            },
        }
    }
}

/// An element-for-element copy of a bucket.
fn clone_bucket(bucket: &Vec<SaleKey>) -> (r: Vec<SaleKey>)
    ensures
        r@ == bucket@,
{
    let mut r: Vec<SaleKey> = Vec::new();
    let mut j: usize = 0;
    while j < bucket.len()
        invariant
            j <= bucket.len(),
            r@ =~= bucket@.subrange(0, j as int),
        decreases bucket.len() - j,
    {
        r.push(bucket[j].clone());
        assert(r@ =~= bucket@.subrange(0, j + 1 as int));
        j += 1;
    }
    assert(r@ =~= bucket@);
    r
}

} // verus!
