//! The sale registry: the authoritative map of active listings, with
//! secondary indices by seller and by issuing registry.
//!
//! Every insertion or removal updates the primary vector and both
//! indices together, so no caller ever observes one without the other.
//! Well-formedness ties the three: an index entry always names a live
//! sale, every sale is reachable through both indices, and emptied
//! index buckets are pruned.

use vstd::prelude::*;

use crate::AccountId;
use crate::assoc::{
    lemma_pair_map_contains, lemma_pair_map_index, lemma_pair_map_len, lemma_pair_map_push,
    lemma_pair_map_remove, lemma_pair_unique_push, lemma_pair_unique_remove, pair_has_key,
    pair_map_of, pair_unique_keys,
};
use crate::errors::MarketError;
use crate::index::KeyIndex;
use crate::sale::{sale_key, Sale, SaleKey, SaleKeyView, SaleView};

verus! {

pub struct SaleRegistry {
    sales: Vec<Sale>,
    by_owner_id: KeyIndex,
    by_nft_contract_id: KeyIndex,
}

impl View for SaleRegistry {
    type V = Map<SaleKeyView, SaleView>;

    closed spec fn view(&self) -> Map<SaleKeyView, SaleView> {
        pair_map_of(self.pairs())
    }
}

impl SaleRegistry {
    /// How many sales the registry holds.
    pub closed spec fn n_sales(self) -> int {
        self.sales@.len() as int
    }

    /// The sale stored at position `i`.
    pub closed spec fn sale_at(self, i: int) -> SaleView {
        self.sales@[i]@
    }

    /// The stored sales as key/value pairs, in storage order.
    pub closed spec fn pairs(self) -> Seq<(SaleKeyView, SaleView)> {
        Seq::new(
            self.sales@.len() as nat,
            |i: int| (sale_key(self.sales@[i]@), self.sales@[i]@),
        )
    }

    /// Whether the seller index files key `k` under name `n`.
    pub closed spec fn in_owner_index(self, n: Seq<char>, k: SaleKeyView) -> bool {
        self.by_owner_id.contains(n, k)
    }

    /// Whether the seller index has a bucket for name `n` at all.
    pub closed spec fn owner_indexed(self, n: Seq<char>) -> bool {
        self.by_owner_id.has_entry(n)
    }

    /// Whether the issuer index files key `k` under name `n`.
    pub closed spec fn in_contract_index(self, n: Seq<char>, k: SaleKeyView) -> bool {
        self.by_nft_contract_id.contains(n, k)
    }

    /// Whether the issuer index has a bucket for name `n` at all.
    pub closed spec fn contract_indexed(self, n: Seq<char>) -> bool {
        self.by_nft_contract_id.has_entry(n)
    }

    /// The registry's invariant: keys are unique, both indices are
    /// well-formed, every index entry names a live sale with the
    /// matching seller or issuer, and every sale is reachable through
    /// both indices.
    pub closed spec fn wf(self) -> bool {
        &&& pair_unique_keys(self.pairs())
        &&& self.by_owner_id.wf()
        &&& self.by_nft_contract_id.wf()
        &&& forall|n: Seq<char>, k: SaleKeyView|
            #[trigger] self.by_owner_id.contains(n, k) ==> self@.contains_key(k)
                && self@[k].owner_id == n
        &&& forall|i: int|
            0 <= i < self.n_sales() ==> self.by_owner_id.contains(
                (#[trigger] self.sale_at(i)).owner_id,
                sale_key(self.sale_at(i)),
            )
        &&& forall|n: Seq<char>, k: SaleKeyView|
            #[trigger] self.by_nft_contract_id.contains(n, k) ==> self@.contains_key(k) && k.0 == n
        &&& forall|i: int|
            0 <= i < self.n_sales() ==> self.by_nft_contract_id.contains(
                (#[trigger] self.sale_at(i)).nft_contract_id,
                sale_key(self.sale_at(i)),
            )
    }

    /// In a well-formed registry every stored sale sits under its own
    /// composite key.
    pub proof fn lemma_view_keys(self)
        requires
            self.wf(),
        ensures
            forall|k: SaleKeyView|
                #[trigger] self@.contains_key(k) ==> sale_key(self@[k]) == k,
    {
        assert forall|k: SaleKeyView| #[trigger] self@.contains_key(k) implies sale_key(self@[k])
            == k by {
            lemma_pair_map_contains(self.pairs(), k);
            let i = choose|i: int|
                0 <= i < self.pairs().len() && (#[trigger] self.pairs()[i]).0 == k;
            lemma_pair_map_index(self.pairs(), i);
        }
    }

    /// The two indices reflect the sales map exactly: a key is filed
    /// under a name precisely when the map holds that key with that
    /// seller (or that issuer), and a name has a bucket precisely when
    /// some such sale exists.
    pub proof fn lemma_indices_reflect_sales(self)
        requires
            self.wf(),
        ensures
            forall|n: Seq<char>, k: SaleKeyView|
                #[trigger] self.in_owner_index(n, k) <==> self@.contains_key(k)
                    && self@[k].owner_id == n,
            forall|n: Seq<char>|
                #[trigger] self.owner_indexed(n) <==> exists|k: SaleKeyView|
                    #[trigger] self@.contains_key(k) && self@[k].owner_id == n,
            forall|n: Seq<char>, k: SaleKeyView|
                #[trigger] self.in_contract_index(n, k) <==> self@.contains_key(k) && k.0 == n,
            forall|n: Seq<char>|
                #[trigger] self.contract_indexed(n) <==> exists|k: SaleKeyView|
                    #[trigger] self@.contains_key(k) && k.0 == n,
    {
        self.by_owner_id.lemma_pruned();
        self.by_nft_contract_id.lemma_pruned();
        assert forall|n: Seq<char>, k: SaleKeyView|
            #[trigger] self.in_owner_index(n, k) <==> self@.contains_key(k) && self@[k].owner_id
                == n by {
            if self@.contains_key(k) && self@[k].owner_id == n {
                lemma_pair_map_contains(self.pairs(), k);
                let i = choose|i: int|
                    0 <= i < self.pairs().len() && (#[trigger] self.pairs()[i]).0 == k;
                lemma_pair_map_index(self.pairs(), i);
                assert(self.sale_at(i) == self@[k]);
                assert(self.by_owner_id.contains(self.sale_at(i).owner_id, sale_key(self.sale_at(i))));
            }
        }
        assert forall|n: Seq<char>, k: SaleKeyView|
            #[trigger] self.in_contract_index(n, k) <==> self@.contains_key(k) && k.0 == n by {
            if self@.contains_key(k) && k.0 == n {
                lemma_pair_map_contains(self.pairs(), k);
                let i = choose|i: int|
                    0 <= i < self.pairs().len() && (#[trigger] self.pairs()[i]).0 == k;
                lemma_pair_map_index(self.pairs(), i);
                assert(self.sale_at(i) == self@[k]);
                lemma_pair_map_contains(self.pairs(), k);
                assert(sale_key(self.sale_at(i)) == k);
                assert(self.by_nft_contract_id.contains(self.sale_at(i).nft_contract_id, sale_key(self.sale_at(i))));
            }
        }
        assert forall|n: Seq<char>|
            #[trigger] self.owner_indexed(n) <==> exists|k: SaleKeyView|
                #[trigger] self@.contains_key(k) && self@[k].owner_id == n by {
            if self.owner_indexed(n) {
                let k = choose|k: SaleKeyView| #[trigger] self.by_owner_id.contains(n, k);
                assert(self@.contains_key(k) && self@[k].owner_id == n);
            }
            if exists|k: SaleKeyView| #[trigger] self@.contains_key(k) && self@[k].owner_id == n {
                let k = choose|k: SaleKeyView|
                    #[trigger] self@.contains_key(k) && self@[k].owner_id == n;
                assert(self.in_owner_index(n, k));
            }
        }
        assert forall|n: Seq<char>|
            #[trigger] self.contract_indexed(n) <==> exists|k: SaleKeyView|
                #[trigger] self@.contains_key(k) && k.0 == n by {
            if self.contract_indexed(n) {
                let k = choose|k: SaleKeyView| #[trigger] self.by_nft_contract_id.contains(n, k);
                assert(self@.contains_key(k) && k.0 == n);
            }
            if exists|k: SaleKeyView| #[trigger] self@.contains_key(k) && k.0 == n {
                let k = choose|k: SaleKeyView| #[trigger] self@.contains_key(k) && k.0 == n;
                assert(self.in_contract_index(n, k));
            }
        }
    }

    /// An empty registry.
    pub fn new() -> (r: SaleRegistry)
        ensures
            r.wf(),
            r@ == Map::<SaleKeyView, SaleView>::empty(),
    {
        let r = SaleRegistry {
            sales: Vec::new(),
            by_owner_id: KeyIndex::new(),
            by_nft_contract_id: KeyIndex::new(),
        };
        proof {
            assert(r.pairs() =~= Seq::<(SaleKeyView, SaleView)>::empty());
            assert(r@ =~= Map::<SaleKeyView, SaleView>::empty());
        }
        r
    }

    /// Position of the sale stored under `key`, if any.
    fn find_index(&self, key: &SaleKey) -> (r: Option<usize>)
        ensures
            match r {
                Some(i) => i < self.n_sales() && (self.pairs()[i as int]).0 == key@,
                None => !pair_has_key(self.pairs(), key@),
            },
    {
        let mut i: usize = 0;
        while i < self.sales.len()
            invariant
                i <= self.sales.len(),
                forall|x: int| 0 <= x < i ==> (#[trigger] self.pairs()[x]).0 != key@,
            decreases self.sales.len() - i,
        {
            let sale = &self.sales[i];
            if sale.nft_contract_id == key.nft_contract_id && sale.token_id == key.token_id {
                return Some(i);
            }
            i += 1;
        }
        proof {
            if pair_has_key(self.pairs(), key@) {
                let x = choose|x: int|
                    0 <= x < self.pairs().len() && (#[trigger] self.pairs()[x]).0 == key@;
            }
        }
        None
    }

    /// Read access to the sale listed under `key`.
    pub fn get(&self, key: &SaleKey) -> (r: Option<&Sale>)
        requires
            self.wf(),
        ensures
            match r {
                Some(sale) => self@.contains_key(key@) && sale@ == self@[key@],
                None => !self@.contains_key(key@),
            },
    {
        match self.find_index(key) {
            Some(i) => {
                proof {
                    lemma_pair_map_index(self.pairs(), i as int);
                }
                Some(&self.sales[i])
            },
            None => {
                proof {
                    lemma_pair_map_contains(self.pairs(), key@);
                }
                None
            },
        }
    }

    /// How many sales are listed.
    pub fn len(&self) -> (r: usize)
        requires
            self.wf(),
        ensures
            r == self@.len(),
    {
        proof {
            lemma_pair_map_len(self.pairs());
        }
        self.sales.len()
    }

    /// Remove and return the sale under `key`, keeping both indices in
    /// step; absent keys are reported, not tolerated.
    pub fn remove(&mut self, key: &SaleKey) -> (r: Result<Sale, MarketError>)
        requires
            old(self).wf(),
        ensures
            final(self).wf(),
            match r {
                Ok(sale) => old(self)@.contains_key(key@) && sale@ == old(self)@[key@]
                    && final(self)@ == old(self)@.remove(key@),
                Err(e) => e == MarketError::NotFound && !old(self)@.contains_key(key@)
                    && *final(self) == *old(self),
            },
    {
        let ghost pre = *old(self);
        let i = match self.find_index(key) {
            None => {
                proof {
                    lemma_pair_map_contains(self.pairs(), key@);
                }
                return Err(MarketError::NotFound);
            },
            Some(i) => i,
        };
        let ghost ii = i as int;
        proof {
            lemma_pair_map_index(pre.pairs(), ii);
            lemma_pair_map_remove(pre.pairs(), ii);
            lemma_pair_unique_remove(pre.pairs(), ii);
        }
        let sale = self.sales.remove(i);
        let skey = SaleKey {
            nft_contract_id: sale.nft_contract_id.clone(),
            token_id: sale.token_id.clone(),
        };
        proof {
            assert(skey@ == key@);
            assert(self.pairs() =~= pre.pairs().remove(ii));
            assert(pre.by_owner_id.contains(pre.sale_at(ii).owner_id, sale_key(pre.sale_at(ii))));
            assert(pre.by_nft_contract_id.contains(
                pre.sale_at(ii).nft_contract_id,
                sale_key(pre.sale_at(ii)),
            ));
        }
        self.by_owner_id.remove(&sale.owner_id, &skey);
        self.by_nft_contract_id.remove(&skey.nft_contract_id, &skey);
        proof {
            let post = *self;
            let m = pre@;
            assert(post@ =~= m.remove(key@));
            let removed = pre.sale_at(ii);
            // the seller index lost exactly the removed filing
            assert forall|n: Seq<char>, k: SaleKeyView|
                #[trigger] post.by_owner_id.contains(n, k) implies post@.contains_key(k)
                && post@[k].owner_id == n by {
                assert(pre.by_owner_id.contains(n, k));
                if k == key@ {
                    assert(m[key@].owner_id == removed.owner_id);
                }
            }
            assert forall|n: Seq<char>, k: SaleKeyView|
                #[trigger] post.by_nft_contract_id.contains(n, k) implies post@.contains_key(k)
                && k.0 == n by {
                assert(pre.by_nft_contract_id.contains(n, k));
                if k == key@ {
                    assert(k.0 == removed.nft_contract_id);
                }
            }
            assert forall|x: int| 0 <= x < post.n_sales() implies post.by_owner_id.contains(
                (#[trigger] post.sale_at(x)).owner_id,
                sale_key(post.sale_at(x)),
            ) && post.by_nft_contract_id.contains(
                post.sale_at(x).nft_contract_id,
                sale_key(post.sale_at(x)),
            ) by {
                let y: int = if x < ii {
                    x
                } else {
                    x + 1
                };
                assert(post.sale_at(x) == pre.sale_at(y));
                assert(pre.pairs()[y] == (sale_key(pre.sale_at(y)), pre.sale_at(y)));
                assert(pre.by_owner_id.contains(pre.sale_at(y).owner_id, sale_key(pre.sale_at(y))));
                // the surviving sale's key differs from the removed one
                if y < ii {
                    assert(pre.pairs()[y].0 != pre.pairs()[ii].0);
                } else if y > ii {
                    assert(pre.pairs()[ii].0 != pre.pairs()[y].0);
                }
            }
        }
        Ok(sale)
    }

    /// Add or overwrite the listing for the sale's own key, keeping
    /// both indices in step.
    pub fn insert(&mut self, sale: Sale)
        requires
            old(self).wf(),
        ensures
            final(self).wf(),
            final(self)@ == old(self)@.insert(sale_key(sale@), sale@),
    {
        let key = SaleKey {
            nft_contract_id: sale.nft_contract_id.clone(),
            token_id: sale.token_id.clone(),
        };
        let owner = sale.owner_id.clone();
        let _ = self.remove(&key);
        let ghost mid = *self;
        proof {
            assert(!mid@.contains_key(key@));
            lemma_pair_map_contains(mid.pairs(), key@);
            lemma_pair_unique_push(mid.pairs(), (key@, sale@));
            lemma_pair_map_push(mid.pairs(), (key@, sale@));
            // the indices cannot file a key the sales map lacks
            if mid.by_owner_id.contains(owner@, key@) {
                assert(mid@.contains_key(key@));
            }
            if mid.by_nft_contract_id.contains(key@.0, key@) {
                assert(mid@.contains_key(key@));
            }
        }
        self.sales.push(sale);
        proof {
            assert(self.pairs() =~= mid.pairs().push((key@, sale@)));
        }
        self.by_owner_id.add(&owner, &key);
        self.by_nft_contract_id.add(&key.nft_contract_id, &key);
        proof {
            let post = *self;
            let pre = *old(self);
            assert(post@ =~= pre@.insert(key@, sale@));
            assert forall|n: Seq<char>, k: SaleKeyView|
                #[trigger] post.by_owner_id.contains(n, k) implies post@.contains_key(k)
                && post@[k].owner_id == n by {
                if !(n == owner@ && k == key@) {
                    assert(mid.by_owner_id.contains(n, k));
                    assert(mid@.contains_key(k) && mid@[k].owner_id == n);
                    assert(k != key@);
                }
            }
            assert forall|n: Seq<char>, k: SaleKeyView|
                #[trigger] post.by_nft_contract_id.contains(n, k) implies post@.contains_key(k)
                && k.0 == n by {
                if !(n == key@.0 && k == key@) {
                    assert(mid.by_nft_contract_id.contains(n, k));
                    assert(mid@.contains_key(k) && k.0 == n);
                    assert(k != key@);
                }
            }
            assert forall|x: int| 0 <= x < post.n_sales() implies post.by_owner_id.contains(
                (#[trigger] post.sale_at(x)).owner_id,
                sale_key(post.sale_at(x)),
            ) && post.by_nft_contract_id.contains(
                post.sale_at(x).nft_contract_id,
                sale_key(post.sale_at(x)),
            ) by {
                if x < mid.n_sales() {
                    assert(post.sale_at(x) == mid.sale_at(x));
                    assert(mid.by_owner_id.contains(
                        mid.sale_at(x).owner_id,
                        sale_key(mid.sale_at(x)),
                    ));
                    assert(mid.by_nft_contract_id.contains(
                        mid.sale_at(x).nft_contract_id,
                        sale_key(mid.sale_at(x)),
                    ));
                } else {
                    assert(post.sale_at(x) == sale@);
                    assert(sale_key(sale@) == key@ && sale@.owner_id == owner@);
                }
            }
        }
    }

    /// The keys of all sales listed by `owner`; exactly those, and
    /// empty once the owner's last sale is gone.
    pub fn by_owner(&self, owner: &AccountId) -> (r: Vec<SaleKey>)
        requires
            self.wf(),
        ensures
            forall|j: int|
                0 <= j < r@.len() ==> self@.contains_key((#[trigger] r@[j])@)
                    && self@[r@[j]@].owner_id == owner@,
            forall|k: SaleKeyView|
                self@.contains_key(k) && (#[trigger] self@[k]).owner_id == owner@ ==> exists|j: int|
                    0 <= j < r@.len() && (#[trigger] r@[j])@ == k,
    {
        let r = self.by_owner_id.keys_for(owner);
        proof {
            self.lemma_indices_reflect_sales();
            assert forall|k: SaleKeyView|
                self@.contains_key(k) && (#[trigger] self@[k]).owner_id == owner@ implies exists|
                j: int,
            | 0 <= j < r@.len() && (#[trigger] r@[j])@ == k by {
                assert(self.in_owner_index(owner@, k));
            }
        }
        r
    }

    /// The keys of all sales whose asset was minted by `nft_contract_id`;
    /// exactly those.
    pub fn by_nft_contract(&self, nft_contract_id: &AccountId) -> (r: Vec<SaleKey>)
        requires
            self.wf(),
        ensures
            forall|j: int|
                0 <= j < r@.len() ==> self@.contains_key((#[trigger] r@[j])@) && (r@[j])@.0
                    == nft_contract_id@,
            forall|k: SaleKeyView|
                self@.contains_key(k) && k.0 == nft_contract_id@ ==> exists|j: int|
                    0 <= j < r@.len() && (#[trigger] r@[j])@ == k,
    {
        let r = self.by_nft_contract_id.keys_for(nft_contract_id);
        proof {
            self.lemma_indices_reflect_sales();
            assert forall|k: SaleKeyView|
                self@.contains_key(k) && k.0 == nft_contract_id@ implies exists|j: int|
                0 <= j < r@.len() && (#[trigger] r@[j])@ == k by {
                assert(self.in_contract_index(nft_contract_id@, k));
            }
        }
        r
    }
}

} // verus!
