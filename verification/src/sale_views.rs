//! The read-only query surface over the sale registry: lookups by key,
//! by seller and by issuer. No mutation, no authorization. Every key
//! these return is present in the primary map.

use vstd::prelude::*;

use crate::AccountId;
use crate::sale::{Sale, SaleKey};
use crate::Contract;

verus! {

impl Contract {
    /// The sale listed under the given asset, if any.
    pub fn get_sale(&self, nft_contract_id: AccountId, token_id: String) -> (r: Option<Sale>)
        requires
            self.wf(),
        ensures
            match r {
                Some(sale) => self@.sales.contains_key((nft_contract_id@, token_id@)) && sale@
                    == self@.sales[(nft_contract_id@, token_id@)],
                None => !self@.sales.contains_key((nft_contract_id@, token_id@)),
            },
    {
        let key = SaleKey { nft_contract_id, token_id };
        match self.sales.get(&key) {
            Some(sale) => Some(sale.clone()),
            None => None,
        }
    }

    /// How many sales are listed.
    pub fn get_supply_sales(&self) -> (r: usize)
        requires
            self.wf(),
        ensures
            r == self@.sales.len(),
    {
        self.sales.len()
    }

    /// The keys of the sales listed by `owner_id` — all of them, and
    /// nothing that is not in the primary map.
    pub fn get_sales_by_owner_id(&self, owner_id: AccountId) -> (r: Vec<SaleKey>)
        requires
            self.wf(),
        ensures
            forall|j: int|
                0 <= j < r@.len() ==> self@.sales.contains_key((#[trigger] r@[j])@)
                    && self@.sales[r@[j]@].owner_id == owner_id@,
            forall|k: crate::SaleKeyView|
                self@.sales.contains_key(k) && (#[trigger] self@.sales[k]).owner_id == owner_id@
                    ==> exists|j: int| 0 <= j < r@.len() && (#[trigger] r@[j])@ == k,
    {
        self.sales.by_owner(&owner_id)
    }

    /// The keys of the listed sales whose asset was minted by
    /// `nft_contract_id` — all of them, and nothing that is not in the
    /// primary map.
    pub fn get_sales_by_nft_contract_id(&self, nft_contract_id: AccountId) -> (r: Vec<SaleKey>)
        requires
            self.wf(),
        ensures
            forall|j: int|
                0 <= j < r@.len() ==> self@.sales.contains_key((#[trigger] r@[j])@) && (r@[j])@.0
                    == nft_contract_id@,
            forall|k: crate::SaleKeyView|
                self@.sales.contains_key(k) && k.0 == nft_contract_id@ ==> exists|j: int|
                    0 <= j < r@.len() && (#[trigger] r@[j])@ == k,
    {
        self.sales.by_nft_contract(&nft_contract_id)
    }
}

} // verus!
