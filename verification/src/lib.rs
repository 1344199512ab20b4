//! A marketplace settlement engine for unique digital assets.
//!
//! The engine keeps a registry of active listings (each gated by a
//! per-issuer minimum-price allowlist), and settles a purchase in two
//! phases: the sale is removed from the registry before the external
//! asset registry is asked to transfer the asset and report a payout
//! plan, and the returned plan is then either distributed (minus a
//! platform fee) or converted into a full refund of the price.

use vstd::prelude::*;

mod assoc;
mod errors;
mod index;
mod laws;
mod payout;
mod registry;
mod sale;
mod sale_views;
mod whitelist;

pub use errors::MarketError;
pub use laws::{
    law_errors_leave_state, law_indices_cleared, law_lifecycle_clears_key, law_list_round_trip,
    law_no_double_sale, law_offer_threshold, law_settlement_conserves_plan,
    law_settlement_moves_price, law_settlement_total_bounds,
};
pub use payout::{
    payout_valid, plan_of, settle_transfers, spec_fee, spec_resolve, sum_amounts, sum_transfers,
    transfers_view, Payout, PlanView, Transfer, TransferView, MAX_PAYOUT_RECIPIENTS,
};
pub use registry::SaleRegistry;
pub use sale::{
    req_result_matches, sale_key, spec_buy, spec_list, spec_process_purchase, spec_unlist,
    spec_update_price, RequestView, Sale, SaleKey, SaleKeyView, SaleView, TransferRequest,
};
pub use whitelist::{spec_allowlist, spec_disallow, Whitelist};

verus! {

/// Account and asset identifiers are plain strings; the external chain
/// gives them meaning, the engine only compares them for equality and
/// uses them as registry keys.
pub type AccountId = String;

/// The marketplace engine's state: the sale registry with its indices,
/// the allowlist of floor prices, and the platform's fee policy.
pub struct Contract {
    /// The administrative owner of the engine.
    pub owner_id: AccountId,
    /// All active listings, reachable by key, by seller and by issuer.
    pub sales: SaleRegistry,
    /// Floor prices by issuer.
    pub whitelist: Whitelist,
    /// The platform fee, in percent of each payout amount.
    pub fee: u128,
    /// The account the platform fee is paid to.
    pub fee_recipient: AccountId,
}

/// The mathematical content of the engine's state.
pub ghost struct ContractView {
    pub owner_id: Seq<char>,
    pub sales: Map<SaleKeyView, SaleView>,
    pub whitelist: Map<Seq<char>, u128>,
    pub fee: u128,
    pub fee_recipient: Seq<char>,
}

impl View for Contract {
    type V = ContractView;

    open spec fn view(&self) -> ContractView {
        ContractView {
            owner_id: self.owner_id@,
            sales: self.sales@,
            whitelist: self.whitelist@,
            fee: self.fee,
            fee_recipient: self.fee_recipient@,
        }
    }
}

impl Contract {
    /// The engine's invariant: registry and allowlist well-formed, and
    /// the fee a percentage.
    pub open spec fn wf(self) -> bool {
        &&& self.sales.wf()
        &&& self.whitelist.wf()
        &&& self.fee <= 100
    }

    /// A fresh engine with no listings and an empty allowlist.
    pub fn new(owner_id: AccountId, fee: u128, fee_recipient: AccountId) -> (r: Contract)
        requires
            fee <= 100,
        ensures
            r.wf(),
            r@.owner_id == owner_id@,
            r@.sales == Map::<SaleKeyView, SaleView>::empty(),
            r@.whitelist == Map::<Seq<char>, u128>::empty(),
            r@.fee == fee,
            r@.fee_recipient == fee_recipient@,
    {
        Contract {
            owner_id,
            sales: SaleRegistry::new(),
            whitelist: Whitelist::new(),
            fee,
            fee_recipient,
        }
    }
}

} // verus!
