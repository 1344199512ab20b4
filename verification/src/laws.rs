//! The engine's cross-function guarantees, proved once and for all
//! inputs over the same spec functions the executable contracts use.

use vstd::prelude::*;

use crate::errors::MarketError;
use crate::payout::{
    lemma_fee_le, payout_valid, settle_transfers, spec_fee, spec_resolve, sum_amounts,
    sum_transfers, PlanView, TransferView,
};
use crate::registry::SaleRegistry;
use crate::sale::{spec_buy, spec_list, spec_unlist, spec_update_price, RequestView, SaleKeyView};
use crate::ContractView;

verus! {

/// At most one purchase ever wins a given key: a successful buy
/// removes the sale, so a later buy of the same key — whoever offers,
/// whatever the deposit — answers `NotFound`.
pub proof fn law_no_double_sale(
    c: ContractView,
    buyer1: Seq<char>,
    deposit1: u128,
    buyer2: Seq<char>,
    deposit2: u128,
    nft_contract_id: Seq<char>,
    token_id: Seq<char>,
)
    requires
        spec_buy(c, buyer1, deposit1, nft_contract_id, token_id).1 is Ok,
        deposit2 > 0,
    ensures
        spec_buy(
            spec_buy(c, buyer1, deposit1, nft_contract_id, token_id).0,
            buyer2,
            deposit2,
            nft_contract_id,
            token_id,
        ).1 == Err::<RequestView, MarketError>(MarketError::NotFound),
{
    let c1 = spec_buy(c, buyer1, deposit1, nft_contract_id, token_id).0;
    assert(!c1.sales.contains_key((nft_contract_id, token_id)));
}

/// A full lifecycle — list, reprice, unlist, all by the same seller —
/// goes through and leaves the sales map free of the key.
pub proof fn law_lifecycle_clears_key(
    c: ContractView,
    caller: Seq<char>,
    nft_contract_id: Seq<char>,
    token_id: Seq<char>,
    price1: u128,
    price2: u128,
)
    requires
        spec_list(c, caller, nft_contract_id, token_id, price1).1 is Ok,
    ensures
        ({
            let c1 = spec_list(c, caller, nft_contract_id, token_id, price1).0;
            let up = spec_update_price(c1, caller, nft_contract_id, token_id, price2);
            let un = spec_unlist(up.0, caller, nft_contract_id, token_id);
            &&& up.1 is Ok
            &&& un.1 is Ok
            &&& !un.0.sales.contains_key((nft_contract_id, token_id))
        }),
{
}

/// Once a key is out of the sales map, a well-formed registry's
/// indices are free of it too; and a seller or issuer left without any
/// sale has no index bucket at all — emptied buckets are pruned.
pub proof fn law_indices_cleared(reg: SaleRegistry, k: SaleKeyView)
    requires
        reg.wf(),
        !reg@.contains_key(k),
    ensures
        forall|n: Seq<char>| !reg.in_owner_index(n, k),
        forall|n: Seq<char>| !reg.in_contract_index(n, k),
        forall|n: Seq<char>|
            #[trigger] reg.owner_indexed(n) ==> exists|k2: SaleKeyView|
                #[trigger] reg@.contains_key(k2) && reg@[k2].owner_id == n,
        forall|n: Seq<char>|
            #[trigger] reg.contract_indexed(n) ==> exists|k2: SaleKeyView|
                #[trigger] reg@.contains_key(k2) && k2.0 == n,
{
    reg.lemma_indices_reflect_sales();
}

/// Round trip: a successful listing stores, under the asset's key, a
/// sale at the quoted price with the caller as seller.
pub proof fn law_list_round_trip(
    c: ContractView,
    caller: Seq<char>,
    nft_contract_id: Seq<char>,
    token_id: Seq<char>,
    price: u128,
)
    requires
        spec_list(c, caller, nft_contract_id, token_id, price).1 is Ok,
    ensures
        ({
            let c1 = spec_list(c, caller, nft_contract_id, token_id, price).0;
            let k = (nft_contract_id, token_id);
            &&& c1.sales.contains_key(k)
            &&& c1.sales[k].sale_conditions == price
            &&& c1.sales[k].owner_id == caller
        }),
{
}

/// An offer below the listed price is refused `InsufficientOffer`; one
/// at or above it opens settlement at the listed price — the listed
/// price, not the deposit, is what settlement moves, and the sale is
/// removed at once.
pub proof fn law_offer_threshold(
    c: ContractView,
    buyer_id: Seq<char>,
    deposit: u128,
    nft_contract_id: Seq<char>,
    token_id: Seq<char>,
)
    requires
        deposit > 0,
        c.sales.contains_key((nft_contract_id, token_id)),
        c.sales[(nft_contract_id, token_id)].owner_id != buyer_id,
    ensures
        ({
            let k = (nft_contract_id, token_id);
            let r = spec_buy(c, buyer_id, deposit, nft_contract_id, token_id);
            &&& (deposit < c.sales[k].sale_conditions <==> r.1 == Err::<
                RequestView,
                MarketError,
            >(MarketError::InsufficientOffer))
            &&& deposit >= c.sales[k].sale_conditions ==> r.1 is Ok && (r.1->Ok_0).price
                == c.sales[k].sale_conditions && r.0.sales == c.sales.remove(k)
        }),
{
}

/// A refused call aborts with no state change — for every entry point
/// but `unlist`: its `Unauthorized` answer deliberately leaves the
/// sale removed, so only its `NotFound` answer is covered here.
pub proof fn law_errors_leave_state(
    c: ContractView,
    caller: Seq<char>,
    deposit: u128,
    nft_contract_id: Seq<char>,
    token_id: Seq<char>,
    price: u128,
)
    ensures
        spec_list(c, caller, nft_contract_id, token_id, price).1 is Err ==> spec_list(
            c,
            caller,
            nft_contract_id,
            token_id,
            price,
        ).0 == c,
        spec_update_price(c, caller, nft_contract_id, token_id, price).1 is Err
            ==> spec_update_price(c, caller, nft_contract_id, token_id, price).0 == c,
        spec_buy(c, caller, deposit, nft_contract_id, token_id).1 is Err ==> spec_buy(
            c,
            caller,
            deposit,
            nft_contract_id,
            token_id,
        ).0 == c,
        spec_unlist(c, caller, nft_contract_id, token_id).1 == Err::<(), MarketError>(
            MarketError::NotFound,
        ) ==> spec_unlist(c, caller, nft_contract_id, token_id).0 == c,
{
}

/// The fee split conserves value: distributing a plan moves exactly
/// the plan's total, however the fee rounds on each entry.
pub proof fn law_settlement_conserves_plan(s: PlanView, fee: u128, fee_recipient: Seq<char>)
    requires
        fee <= 100,
    ensures
        sum_transfers(settle_transfers(s, fee, fee_recipient)) == sum_amounts(s),
    decreases s.len(),
{
    if s.len() == 0 {
    } else {
        reveal_with_fuel(sum_transfers, 3);
        law_settlement_conserves_plan(s.drop_last(), fee, fee_recipient);
        let amount = s.last().1;
        lemma_fee_le(amount, fee);
        let t1 = TransferView {
            receiver_id: fee_recipient,
            amount: spec_fee(amount, fee) as u128,
        };
        let t2 = TransferView {
            receiver_id: s.last().0,
            amount: (amount - spec_fee(amount, fee)) as u128,
        };
        let pre = settle_transfers(s.drop_last(), fee, fee_recipient);
        let whole = settle_transfers(s, fee, fee_recipient);
        assert(whole =~= pre + seq![t1, t2]);
        assert(whole.drop_last() =~= pre + seq![t1]);
        assert((pre + seq![t1]).drop_last() =~= pre);
        assert(whole.last() == t2);
        assert((pre + seq![t1]).last() == t1);
    }
}

/// A settlement whose accepted plan matches the price exactly — and
/// every refund — moves exactly the price. (An accepted plan one unit
/// short moves one unit less; that single input is the one exception
/// to "always exactly the price".)
pub proof fn law_settlement_moves_price(
    fee: u128,
    fee_recipient: Seq<char>,
    buyer_id: Seq<char>,
    price: u128,
    payout: Option<PlanView>,
)
    requires
        fee <= 100,
        payout matches Some(p) ==> (payout_valid(p, price) ==> sum_amounts(p) == price),
    ensures
        sum_transfers(spec_resolve(fee, fee_recipient, buyer_id, price, payout)) == price,
{
    let refund = seq![TransferView { receiver_id: buyer_id, amount: price }];
    assert(sum_transfers(refund) == price) by {
        reveal_with_fuel(sum_transfers, 2);
        assert(refund.drop_last() =~= Seq::<TransferView>::empty());
    }
    match payout {
        Some(p) => {
            if payout_valid(p, price) {
                law_settlement_conserves_plan(p, fee, fee_recipient);
            }
        },
        None => {},
    }
}

/// On every outcome the moved total lies within the rounding
/// tolerance: never above the price, never more than one unit under
/// it.
pub proof fn law_settlement_total_bounds(
    fee: u128,
    fee_recipient: Seq<char>,
    buyer_id: Seq<char>,
    price: u128,
    payout: Option<PlanView>,
)
    requires
        fee <= 100,
    ensures
        price - 1 <= sum_transfers(spec_resolve(fee, fee_recipient, buyer_id, price, payout)),
        sum_transfers(spec_resolve(fee, fee_recipient, buyer_id, price, payout)) <= price,
{
    let refund = seq![TransferView { receiver_id: buyer_id, amount: price }];
    assert(sum_transfers(refund) == price) by {
        reveal_with_fuel(sum_transfers, 2);
        assert(refund.drop_last() =~= Seq::<TransferView>::empty());
    }
    match payout {
        Some(p) => {
            if payout_valid(p, price) {
                law_settlement_conserves_plan(p, fee, fee_recipient);
            }
        },
        None => {},
    }
}

} // verus!
