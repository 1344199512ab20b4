//! Listings, their composite keys, the listing lifecycle, and the
//! purchase flow up to the external transfer request.

use vstd::prelude::*;

use crate::AccountId;
use crate::errors::MarketError;
use crate::{Contract, ContractView};

verus! {

/// The mathematical key of a sale: the view of the issuing registry's
/// account paired with the view of the asset's identifier.
pub type SaleKeyView = (Seq<char>, Seq<char>);

/// One active listing.
pub struct Sale {
    /// The account that listed the asset; it alone may reprice or
    /// remove the listing.
    pub owner_id: AccountId,
    /// Credential under which the external registry lets this engine
    /// transfer the asset: the registry size plus one at listing time.
    pub approval_id: u64,
    /// The external registry that minted the asset.
    pub nft_contract_id: AccountId,
    /// The asset's identifier within that registry.
    pub token_id: String,
    /// The minimum accepted payment, in the chain's native unit.
    pub sale_conditions: u128,
}

/// The mathematical content of a `Sale`.
pub ghost struct SaleView {
    pub owner_id: Seq<char>,
    pub approval_id: u64,
    pub nft_contract_id: Seq<char>,
    pub token_id: Seq<char>,
    pub sale_conditions: u128,
}

impl View for Sale {
    type V = SaleView;

    open spec fn view(&self) -> SaleView {
        SaleView {
            owner_id: self.owner_id@,
            approval_id: self.approval_id,
            nft_contract_id: self.nft_contract_id@,
            token_id: self.token_id@,
            sale_conditions: self.sale_conditions,
        }
    }
}

impl Clone for Sale {
    fn clone(&self) -> (r: Self)
        ensures
            r == *self,
    {
        Sale {
            owner_id: self.owner_id.clone(),
            approval_id: self.approval_id,
            nft_contract_id: self.nft_contract_id.clone(),
            token_id: self.token_id.clone(),
            sale_conditions: self.sale_conditions,
        }
    }
}

/// The key a sale is registered under.
pub open spec fn sale_key(s: SaleView) -> SaleKeyView {
    (s.nft_contract_id, s.token_id)
}

/// The composite key of a sale, as the executable code passes it
/// around.
pub struct SaleKey {
    pub nft_contract_id: AccountId,
    pub token_id: String,
}

impl View for SaleKey {
    type V = SaleKeyView;

    open spec fn view(&self) -> SaleKeyView {
        (self.nft_contract_id@, self.token_id@)
    }
}

impl Clone for SaleKey {
    fn clone(&self) -> (r: Self)
        ensures
            r == *self,
    {
        SaleKey {
            nft_contract_id: self.nft_contract_id.clone(),
            token_id: self.token_id.clone(),
        }
    }
}

impl SaleKey {
    /// Whether two keys name the same asset.
    pub fn key_eq(&self, other: &SaleKey) -> (r: bool)
        ensures
            r == (self@ == other@),
    {
        self.nft_contract_id == other.nft_contract_id && self.token_id == other.token_id
    }
}

/// The one request the engine sends to the external asset registry per
/// purchase: transfer the asset to the buyer under the stored approval
/// credential, and report a payout plan for the price across at most
/// `max_len_payout` recipients.
pub struct TransferRequest {
    pub nft_contract_id: AccountId,
    pub receiver_id: AccountId,
    pub token_id: String,
    pub approval_id: u64,
    pub memo: String,
    pub price: u128,
    pub max_len_payout: u32,
}

/// The mathematical content of a `TransferRequest`.
pub ghost struct RequestView {
    pub nft_contract_id: Seq<char>,
    pub receiver_id: Seq<char>,
    pub token_id: Seq<char>,
    pub approval_id: u64,
    pub memo: Seq<char>,
    pub price: u128,
    pub max_len_payout: u32,
}

impl View for TransferRequest {
    type V = RequestView;

    open spec fn view(&self) -> RequestView {
        RequestView {
            nft_contract_id: self.nft_contract_id@,
            receiver_id: self.receiver_id@,
            token_id: self.token_id@,
            approval_id: self.approval_id,
            memo: self.memo@,
            price: self.price,
            max_len_payout: self.max_len_payout,
        }
    }
}

/// How an executable request result realises a mathematical one.
pub open spec fn req_result_matches(
    r: Result<TransferRequest, MarketError>,
    s: Result<RequestView, MarketError>,
) -> bool {
    match r {
        Ok(req) => s is Ok && req@ == s->Ok_0,
        Err(e) => s is Err && e == s->Err_0,
    }
}

/// Listing: the issuer must be allowlisted and the price at or above
/// its floor; the new sale's approval credential is the registry size
/// plus one, and the caller becomes the seller.
pub open spec fn spec_list(
    c: ContractView,
    caller: Seq<char>,
    nft_contract_id: Seq<char>,
    token_id: Seq<char>,
    price: u128,
) -> (ContractView, Result<(), MarketError>) {
    if !c.whitelist.contains_key(nft_contract_id) {
        (c, Err(MarketError::NotAllowlisted))
    } else if price < c.whitelist[nft_contract_id] {
        (c, Err(MarketError::PriceTooLow))
    } else {
        let sale = SaleView {
            owner_id: caller,
            approval_id: (c.sales.len() + 1) as u64,
            nft_contract_id,
            token_id,
            sale_conditions: price,
        };
        (ContractView { sales: c.sales.insert((nft_contract_id, token_id), sale), ..c }, Ok(()))
    }
}

/// Repricing: only the seller may change the price; everything else
/// about the sale stays.
pub open spec fn spec_update_price(
    c: ContractView,
    caller: Seq<char>,
    nft_contract_id: Seq<char>,
    token_id: Seq<char>,
    price: u128,
) -> (ContractView, Result<(), MarketError>) {
    let k = (nft_contract_id, token_id);
    if !c.sales.contains_key(k) {
        (c, Err(MarketError::NotFound))
    } else if c.sales[k].owner_id != caller {
        (c, Err(MarketError::Unauthorized))
    } else {
        let sale = SaleView { sale_conditions: price, ..c.sales[k] };
        (ContractView { sales: c.sales.insert(k, sale), ..c }, Ok(()))
    }
}

/// Unlisting removes the sale first and checks ownership second: a
/// caller who is not the seller still causes the removal but is told
/// `Unauthorized`. The engine keeps this order deliberately.
pub open spec fn spec_unlist(
    c: ContractView,
    caller: Seq<char>,
    nft_contract_id: Seq<char>,
    token_id: Seq<char>,
) -> (ContractView, Result<(), MarketError>) {
    let k = (nft_contract_id, token_id);
    if !c.sales.contains_key(k) {
        (c, Err(MarketError::NotFound))
    } else {
        let c2 = ContractView { sales: c.sales.remove(k), ..c };
        if c.sales[k].owner_id != caller {
            (c2, Err(MarketError::Unauthorized))
        } else {
            (c2, Ok(()))
        }
    }
}

/// Settlement starts by removing the sale — before the external call,
/// so the listing can never be sold twice — and yields the one request
/// handed to the external asset registry.
pub open spec fn spec_process_purchase(
    c: ContractView,
    nft_contract_id: Seq<char>,
    token_id: Seq<char>,
    price: u128,
    buyer_id: Seq<char>,
) -> (ContractView, Result<RequestView, MarketError>) {
    let k = (nft_contract_id, token_id);
    if !c.sales.contains_key(k) {
        (c, Err(MarketError::NotFound))
    } else {
        let req = RequestView {
            nft_contract_id,
            receiver_id: buyer_id,
            token_id,
            approval_id: c.sales[k].approval_id,
            memo: "payout from market"@,
            price,
            max_len_payout: 10,
        };
        (ContractView { sales: c.sales.remove(k), ..c }, Ok(req))
    }
}

/// A purchase offer: the deposit must be positive, the sale must
/// exist, the buyer must not be the seller, and the deposit must reach
/// the listed price. Settlement is then opened at the listed price —
/// not the deposit: any excess is retained by the engine, an explicit
/// policy choice.
pub open spec fn spec_buy(
    c: ContractView,
    buyer_id: Seq<char>,
    deposit: u128,
    nft_contract_id: Seq<char>,
    token_id: Seq<char>,
) -> (ContractView, Result<RequestView, MarketError>) {
    let k = (nft_contract_id, token_id);
    if deposit == 0 {
        (c, Err(MarketError::ZeroDeposit))
    } else if !c.sales.contains_key(k) {
        (c, Err(MarketError::NotFound))
    } else if c.sales[k].owner_id == buyer_id {
        (c, Err(MarketError::SelfPurchase))
    } else if deposit < c.sales[k].sale_conditions {
        (c, Err(MarketError::InsufficientOffer))
    } else {
        spec_process_purchase(c, nft_contract_id, token_id, c.sales[k].sale_conditions, buyer_id)
    }
}

impl Contract {
    /// List an asset for sale. The attached deposit is the caller's
    /// single-use confirmation: exactly one indivisible unit. The
    /// caller becomes the seller.
    pub fn list(
        &mut self,
        caller: AccountId,
        nft_contract_id: AccountId,
        token_id: String,
        price: u128,
        attached_deposit: u128,
    ) -> (r: Result<(), MarketError>)
        requires
            old(self).wf(),
            attached_deposit == 1,
            old(self)@.sales.len() + 1 <= u64::MAX,
        ensures
            final(self).wf(),
            final(self)@ == spec_list(old(self)@, caller@, nft_contract_id@, token_id@, price).0,
            r == spec_list(old(self)@, caller@, nft_contract_id@, token_id@, price).1,
    {
        let min_price = match self.whitelist.get_floor(&nft_contract_id) {
            None => {
                return Err(MarketError::NotAllowlisted);
            },
            Some(min_price) => min_price,
        };
        if price < min_price {
            return Err(MarketError::PriceTooLow);
        }
        let approval_id: u64 = (self.sales.len() as u64) + 1;
        let sale = Sale {
            owner_id: caller,
            approval_id,
            nft_contract_id,
            token_id,
            sale_conditions: price,
        };
        self.sales.insert(sale);
        Ok(())
    }

    /// Change the price of a listed sale; only the seller may. The
    /// attached deposit is the caller's single-use confirmation:
    /// exactly one indivisible unit.
    pub fn update_price(
        &mut self,
        caller: AccountId,
        nft_contract_id: AccountId,
        token_id: String,
        price: u128,
        attached_deposit: u128,
    ) -> (r: Result<(), MarketError>)
        requires
            old(self).wf(),
            attached_deposit == 1,
        ensures
            final(self).wf(),
            final(self)@ == spec_update_price(
                old(self)@,
                caller@,
                nft_contract_id@,
                token_id@,
                price,
            ).0,
            r == spec_update_price(old(self)@, caller@, nft_contract_id@, token_id@, price).1,
    {
        let key = SaleKey { nft_contract_id, token_id };
        let mut sale = match self.sales.get(&key) {
            None => {
                return Err(MarketError::NotFound);
            },
            Some(sale) => sale.clone(),
        };
        if !(sale.owner_id == caller) {
            return Err(MarketError::Unauthorized);
        }
        sale.sale_conditions = price;
        proof {
            self.sales.lemma_view_keys();
        }
        self.sales.insert(sale);
        Ok(())
    }

    /// Remove a sale from the market. The removal happens before the
    /// ownership check: a caller who is not the seller still causes
    /// the removal and is answered `Unauthorized` — a deliberate
    /// fail-open-on-storage, fail-closed-on-authorization split. The
    /// attached deposit is the caller's single-use confirmation:
    /// exactly one indivisible unit.
    pub fn unlist(
        &mut self,
        caller: AccountId,
        nft_contract_id: AccountId,
        token_id: String,
        attached_deposit: u128,
    ) -> (r: Result<(), MarketError>)
        requires
            old(self).wf(),
            attached_deposit == 1,
        ensures
            final(self).wf(),
            final(self)@ == spec_unlist(old(self)@, caller@, nft_contract_id@, token_id@).0,
            r == spec_unlist(old(self)@, caller@, nft_contract_id@, token_id@).1,
    {
        let key = SaleKey { nft_contract_id, token_id };
        match self.sales.remove(&key) {
            Err(e) => Err(e),
            Ok(sale) => {
                if sale.owner_id == caller {
                    Ok(())
                } else {
                    Err(MarketError::Unauthorized)
                }
            },
        }
    }

    /// Place an offer on a sale. On success the sale is removed and
    /// the request for the external asset registry is returned; the
    /// caller of the engine performs that request and later hands its
    /// outcome to `resolve_purchase`.
    pub fn buy(
        &mut self,
        buyer_id: AccountId,
        deposit: u128,
        nft_contract_id: AccountId,
        token_id: String,
    ) -> (r: Result<TransferRequest, MarketError>)
        requires
            old(self).wf(),
        ensures
            final(self).wf(),
            final(self)@ == spec_buy(old(self)@, buyer_id@, deposit, nft_contract_id@, token_id@).0,
            req_result_matches(
                r,
                spec_buy(old(self)@, buyer_id@, deposit, nft_contract_id@, token_id@).1,
            ),
    {
        if deposit == 0 {
            return Err(MarketError::ZeroDeposit);
        }
        let key = SaleKey { nft_contract_id, token_id };
        let (self_purchase, price) = match self.sales.get(&key) {
            None => {
                return Err(MarketError::NotFound);
            },
            Some(sale) => (sale.owner_id == buyer_id, sale.sale_conditions),
        };
        if self_purchase {
            return Err(MarketError::SelfPurchase);
        }
        if deposit < price {
            return Err(MarketError::InsufficientOffer);
        }
        self.process_purchase(key.nft_contract_id, key.token_id, price, buyer_id)
    }

    /// Open settlement: remove the sale — before the external call, so
    /// the same listing can never be sold twice — and build the single
    /// request for the external asset registry. In a deployment only
    /// the engine itself calls this, from `buy`.
    pub fn process_purchase(
        &mut self,
        nft_contract_id: AccountId,
        token_id: String,
        price: u128,
        buyer_id: AccountId,
    ) -> (r: Result<TransferRequest, MarketError>)
        requires
            old(self).wf(),
        ensures
            final(self).wf(),
            final(self)@ == spec_process_purchase(
                old(self)@,
                nft_contract_id@,
                token_id@,
                price,
                buyer_id@,
            ).0,
            req_result_matches(
                r,
                spec_process_purchase(old(self)@, nft_contract_id@, token_id@, price, buyer_id@).1,
            ),
    {
        let key = SaleKey { nft_contract_id, token_id };
        match self.sales.remove(&key) {
            Err(e) => Err(e),
            Ok(sale) => {
                let req = TransferRequest {
                    nft_contract_id: key.nft_contract_id,
                    receiver_id: buyer_id,
                    token_id: key.token_id,
                    approval_id: sale.approval_id,
                    memo: "payout from market".to_owned(),
                    price,
                    max_len_payout: 10,
                };
                Ok(req)
            },
        }
    }
}

} // verus!
