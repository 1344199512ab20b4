//! The per-issuer allowlist of minimum listing prices, and the
//! administrative entry points that maintain it.

use vstd::prelude::*;

use crate::AccountId;
use crate::assoc::{
    lemma_pair_map_contains, lemma_pair_map_index, lemma_pair_map_push, lemma_pair_map_remove,
    lemma_pair_unique_push, lemma_pair_unique_remove, pair_has_key, pair_map_of, pair_unique_keys,
};
use crate::{Contract, ContractView};

verus! {

/// Floor prices by issuer: listing an asset of an issuer with no entry
/// fails, and a listing must quote at least the issuer's floor.
pub struct Whitelist {
    entries: Vec<(AccountId, u128)>,
}

impl View for Whitelist {
    type V = Map<Seq<char>, u128>;

    closed spec fn view(&self) -> Map<Seq<char>, u128> {
        pair_map_of(self.pairs())
    }
}

impl Whitelist {
    /// The stored floors as key/value pairs, in storage order.
    pub closed spec fn pairs(self) -> Seq<(Seq<char>, u128)> {
        Seq::new(self.entries@.len() as nat, |i: int| (self.entries@[i].0@, self.entries@[i].1))
    }

    /// Issuers appear at most once.
    pub closed spec fn wf(self) -> bool {
        pair_unique_keys(self.pairs())
    }

    /// An empty allowlist.
    pub fn new() -> (r: Whitelist)
        ensures
            r.wf(),
            r@ == Map::<Seq<char>, u128>::empty(),
    {
        let r = Whitelist { entries: Vec::new() };
        proof {
            assert(r.pairs() =~= Seq::<(Seq<char>, u128)>::empty());
            assert(r@ =~= Map::<Seq<char>, u128>::empty());
        }
        r
    }

    /// Position of the issuer's entry, if any.
    fn find_index(&self, nft_contract_id: &AccountId) -> (r: Option<usize>)
        ensures
            match r {
                Some(i) => i < self.pairs().len() && (self.pairs()[i as int]).0
                    == nft_contract_id@,
                None => !pair_has_key(self.pairs(), nft_contract_id@),
            },
    {
        let mut i: usize = 0;
        while i < self.entries.len()
            invariant
                i <= self.entries.len(),
                forall|x: int| 0 <= x < i ==> (#[trigger] self.pairs()[x]).0 != nft_contract_id@,
            decreases self.entries.len() - i,
        {
            if self.entries[i].0 == *nft_contract_id {
                return Some(i);
            }
            i += 1;
        }
        proof {
            if pair_has_key(self.pairs(), nft_contract_id@) {
                let x = choose|x: int|
                    0 <= x < self.pairs().len() && (#[trigger] self.pairs()[x]).0
                        == nft_contract_id@;
            }
        }
        None
    }

    /// Add or overwrite the issuer's floor price.
    pub fn set_floor(&mut self, nft_contract_id: &AccountId, min_price: u128)
        requires
            old(self).wf(),
        ensures
            final(self).wf(),
            final(self)@ == old(self)@.insert(nft_contract_id@, min_price),
    {
        let ghost pre = *old(self);
        match self.find_index(nft_contract_id) {
            Some(i) => {
                proof {
                    lemma_pair_map_remove(pre.pairs(), i as int);
                    lemma_pair_unique_remove(pre.pairs(), i as int);
                }
                let _ = self.entries.remove(i);
                proof {
                    assert(self.pairs() =~= pre.pairs().remove(i as int));
                }
            },
            None => {},
        }
        let ghost mid = *self;
        proof {
            lemma_pair_map_contains(mid.pairs(), nft_contract_id@);
            lemma_pair_unique_push(mid.pairs(), (nft_contract_id@, min_price));
            lemma_pair_map_push(mid.pairs(), (nft_contract_id@, min_price));
        }
        self.entries.push((nft_contract_id.clone(), min_price));
        proof {
            assert(self.pairs() =~= mid.pairs().push((nft_contract_id@, min_price)));
            assert(self@ =~= pre@.insert(nft_contract_id@, min_price));
        }
    }

    /// Remove the issuer's floor; removing an absent entry changes
    /// nothing.
    pub fn remove_floor(&mut self, nft_contract_id: &AccountId)
        requires
            old(self).wf(),
        ensures
            final(self).wf(),
            final(self)@ == old(self)@.remove(nft_contract_id@),
    {
        let ghost pre = *old(self);
        match self.find_index(nft_contract_id) {
            Some(i) => {
                proof {
                    lemma_pair_map_remove(pre.pairs(), i as int);
                    lemma_pair_unique_remove(pre.pairs(), i as int);
                }
                let _ = self.entries.remove(i);
                proof {
                    assert(self.pairs() =~= pre.pairs().remove(i as int));
                }
            },
            None => {
                proof {
                    lemma_pair_map_contains(pre.pairs(), nft_contract_id@);
                    assert(self@ =~= pre@.remove(nft_contract_id@));
                }
            },
        }
    }

    /// The issuer's floor price, if the issuer is allowlisted.
    pub fn get_floor(&self, nft_contract_id: &AccountId) -> (r: Option<u128>)
        requires
            self.wf(),
        ensures
            match r {
                Some(min) => self@.contains_key(nft_contract_id@) && min
                    == self@[nft_contract_id@],
                None => !self@.contains_key(nft_contract_id@),
            },
    {
        match self.find_index(nft_contract_id) {
            Some(i) => {
                proof {
                    lemma_pair_map_index(self.pairs(), i as int);
                }
                Some(self.entries[i].1)
            },
            None => {
                proof {
                    lemma_pair_map_contains(self.pairs(), nft_contract_id@);
                }
                None
            },
        }
    }
}

/// Allowlisting an issuer sets its floor price.
pub open spec fn spec_allowlist(c: ContractView, nft_contract_id: Seq<char>, min_price: u128) -> ContractView {
    ContractView { whitelist: c.whitelist.insert(nft_contract_id, min_price), ..c }
}

/// Disallowing an issuer removes its floor; active listings stay.
pub open spec fn spec_disallow(c: ContractView, nft_contract_id: Seq<char>) -> ContractView {
    ContractView { whitelist: c.whitelist.remove(nft_contract_id), ..c }
}

impl Contract {
    /// Allow assets of `nft_contract_id` to be listed at or above
    /// `min_price_per_token`. The attached deposit is the caller's
    /// single-use confirmation: exactly one indivisible unit.
    pub fn allowlist_card(
        &mut self,
        nft_contract_id: AccountId,
        min_price_per_token: u128,
        attached_deposit: u128,
    )
        requires
            old(self).wf(),
            attached_deposit == 1,
        ensures
            final(self).wf(),
            final(self)@ == spec_allowlist(old(self)@, nft_contract_id@, min_price_per_token),
    {
        self.whitelist.set_floor(&nft_contract_id, min_price_per_token);
    }

    /// Stop accepting new listings for assets of `nft_contract_id`;
    /// sales already listed are not affected. The attached deposit is
    /// the caller's single-use confirmation: exactly one indivisible
    /// unit.
    pub fn disallow_card(&mut self, nft_contract_id: AccountId, attached_deposit: u128)
        requires
            old(self).wf(),
            attached_deposit == 1,
        ensures
            final(self).wf(),
            final(self)@ == spec_disallow(old(self)@, nft_contract_id@),
    {
        self.whitelist.remove_floor(&nft_contract_id);
    }
}

} // verus!
