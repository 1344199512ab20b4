//! Payout validation and fund distribution.
//!
//! The external asset registry answers a purchase with a payout plan.
//! A plan that is missing, unparseable, empty, too long, or whose total
//! misses the price by more than the one-unit rounding tolerance is
//! never partially paid: the engine refunds the full price to the
//! buyer. A valid plan pays each recipient exactly once, with the
//! platform fee split off each amount.

use vstd::arithmetic::div_mod::{lemma_div_is_ordered, lemma_div_pos_is_pos, lemma_fundamental_div_mod};
use vstd::arithmetic::mul::{lemma_mul_inequality, lemma_mul_nonnegative};
use vstd::prelude::*;

use crate::AccountId;
use crate::Contract;

verus! {

/// The most recipients a payout plan may name.
pub const MAX_PAYOUT_RECIPIENTS: usize = 10;

/// The payout plan the external asset registry reports for one
/// settlement: the recipients and the amounts owed to them out of the
/// price. Ephemeral: it lives only within one resolution step.
pub struct Payout {
    pub payout: Vec<(AccountId, u128)>,
}

/// A plan's mathematical content: recipient/amount pairs in reported
/// order. Only the multiset of resulting transfers is meaningful.
pub type PlanView = Seq<(Seq<char>, u128)>;

impl View for Payout {
    type V = PlanView;

    open spec fn view(&self) -> PlanView {
        Seq::new(self.payout@.len() as nat, |i: int| (self.payout@[i].0@, self.payout@[i].1))
    }
}

/// One value transfer the engine instructs its environment to make.
pub struct Transfer {
    pub receiver_id: AccountId,
    pub amount: u128,
}

/// The mathematical content of a `Transfer`.
pub ghost struct TransferView {
    pub receiver_id: Seq<char>,
    pub amount: u128,
}

impl View for Transfer {
    type V = TransferView;

    open spec fn view(&self) -> TransferView {
        TransferView { receiver_id: self.receiver_id@, amount: self.amount }
    }
}

/// The views of a sequence of transfers.
pub open spec fn transfers_view(v: Seq<Transfer>) -> Seq<TransferView> {
    Seq::new(v.len(), |i: int| v[i]@)
}

/// The total amount a plan promises its recipients.
pub open spec fn sum_amounts(s: PlanView) -> int
    decreases s.len(),
{
    if s.len() == 0 {
        0
    } else {
        sum_amounts(s.drop_last()) + s.last().1
    }
}

/// The total amount a sequence of transfers moves.
pub open spec fn sum_transfers(s: Seq<TransferView>) -> int
    decreases s.len(),
{
    if s.len() == 0 {
        0
    } else {
        sum_transfers(s.drop_last()) + s.last().amount
    }
}

/// A plan is valid when it names one to ten recipients and its total
/// matches the price exactly or falls short by at most one unit. A
/// total above the price, or short by more than one, is malformed —
/// rejected, never clamped.
pub open spec fn payout_valid(s: PlanView, price: u128) -> bool {
    &&& 1 <= s.len() <= MAX_PAYOUT_RECIPIENTS
    &&& sum_amounts(s) <= price
    &&& price - sum_amounts(s) <= 1
}

/// The platform's cut of one payout amount: `amount * fee / 100`,
/// truncated.
pub open spec fn spec_fee(amount: u128, fee: u128) -> int {
    amount * fee / 100
}

/// The transfers distributing a valid plan: for each entry, the fee to
/// the platform's recipient and the remainder to the entry's recipient.
pub open spec fn settle_transfers(s: PlanView, fee: u128, fee_recipient: Seq<char>) -> Seq<
    TransferView,
>
    decreases s.len(),
{
    if s.len() == 0 {
        Seq::empty()
    } else {
        settle_transfers(s.drop_last(), fee, fee_recipient) + seq![
            TransferView {
                receiver_id: fee_recipient,
                amount: spec_fee(s.last().1, fee) as u128,
            },
            TransferView {
                receiver_id: s.last().0,
                amount: (s.last().1 - spec_fee(s.last().1, fee)) as u128,
            },
        ]
    }
}

/// Resolution takes the safe path on a failed or malformed report —
/// one transfer refunding the full price to the buyer — and otherwise
/// distributes the plan.
pub open spec fn spec_resolve(
    fee: u128,
    fee_recipient: Seq<char>,
    buyer_id: Seq<char>,
    price: u128,
    payout: Option<PlanView>,
) -> Seq<TransferView> {
    match payout {
        Some(p) => if payout_valid(p, price) {
            settle_transfers(p, fee, fee_recipient)
        } else {
            seq![TransferView { receiver_id: buyer_id, amount: price }]
        },
        None => seq![TransferView { receiver_id: buyer_id, amount: price }],
    }
}

/// The view of the optional plan an outcome carries.
pub open spec fn plan_of(payout: Option<Payout>) -> Option<PlanView> {
    match payout {
        Some(p) => Some(p@),
        None => None,
    }
}

/// Plan totals are sums of non-negative amounts.
pub proof fn lemma_sum_nonneg(s: PlanView)
    ensures
        sum_amounts(s) >= 0,
    decreases s.len(),
{
    if s.len() != 0 {
        lemma_sum_nonneg(s.drop_last());
    }
}

/// One step of a prefix sum.
pub proof fn lemma_sum_step(s: PlanView, i: int)
    requires
        0 <= i < s.len(),
    ensures
        sum_amounts(s.subrange(0, i + 1)) == sum_amounts(s.subrange(0, i)) + s[i].1,
{
    assert(s.subrange(0, i + 1).drop_last() =~= s.subrange(0, i));
    assert(s.subrange(0, i + 1).last() == s[i]);
}

/// A prefix never promises more than the whole plan.
pub proof fn lemma_sum_prefix_le(s: PlanView, i: int)
    requires
        0 <= i <= s.len(),
    ensures
        sum_amounts(s.subrange(0, i)) <= sum_amounts(s),
    decreases s.len() - i,
{
    if i == s.len() {
        assert(s.subrange(0, i) =~= s);
    } else {
        lemma_sum_step(s, i);
        lemma_sum_prefix_le(s, i + 1);
    }
}

/// No single entry exceeds the plan's total.
pub proof fn lemma_entry_le_sum(s: PlanView, i: int)
    requires
        0 <= i < s.len(),
    ensures
        s[i].1 <= sum_amounts(s),
{
    lemma_sum_step(s, i);
    lemma_sum_prefix_le(s, i + 1);
    lemma_sum_nonneg(s.subrange(0, i));
}

/// With a percentage fee the platform's cut fits inside the amount.
pub proof fn lemma_fee_le(amount: u128, fee: u128)
    requires
        fee <= 100,
    ensures
        0 <= spec_fee(amount, fee) <= amount,
{
    lemma_mul_inequality(fee as int, 100, amount as int);
    assert(amount * fee == fee * amount) by {
        vstd::arithmetic::mul::lemma_mul_is_commutative(amount as int, fee as int);
    }
    assert(amount * 100 == 100 * amount) by {
        vstd::arithmetic::mul::lemma_mul_is_commutative(amount as int, 100);
    }
    lemma_mul_nonnegative(amount as int, fee as int);
    lemma_div_pos_is_pos(amount as int * fee as int, 100);
    lemma_div_is_ordered(amount as int * fee as int, amount as int * 100, 100);
    lemma_fundamental_div_mod(amount as int * 100, 100);
    assert((amount as int * 100) / 100 == amount as int) by {
        assert(amount as int * 100 == 100 * ((amount as int * 100) / 100) + (amount as int * 100)
            % 100);
        vstd::arithmetic::div_mod::lemma_mod_multiples_basic(amount as int, 100);
    }
}

/// The fee multiplication stays inside 128 bits whenever the amount is
/// bounded by a price no larger than a hundredth of the range.
pub proof fn lemma_fee_bounds(amount: u128, fee: u128, price: u128)
    requires
        fee <= 100,
        amount <= price,
        price <= u128::MAX / 100,
    ensures
        amount * fee <= u128::MAX,
        0 <= spec_fee(amount, fee) <= amount,
{
    lemma_fee_le(amount, fee);
    lemma_mul_inequality(fee as int, 100, amount as int);
    lemma_mul_inequality(amount as int, price as int, 100);
    lemma_mul_inequality(price as int, u128::MAX as int / 100, 100);
    lemma_fundamental_div_mod(u128::MAX as int, 100);
    assert((u128::MAX as int / 100) * 100 <= u128::MAX as int) by {
        assert(u128::MAX as int % 100 >= 0);
    }
    assert(amount * fee == fee * amount) by {
        vstd::arithmetic::mul::lemma_mul_is_commutative(amount as int, fee as int);
    }
    assert(amount * 100 == 100 * amount) by {
        vstd::arithmetic::mul::lemma_mul_is_commutative(amount as int, 100);
    }
}

impl Payout {
    /// Whether this plan may be settled against `price`: one to ten
    /// recipients, and a total within one unit under the price.
    pub fn validate(&self, price: u128) -> (ok: bool)
        ensures
            ok == payout_valid(self@, price),
    {
        let n = self.payout.len();
        if n == 0 || n > MAX_PAYOUT_RECIPIENTS {
            return false;
        }
        let mut remainder: u128 = price;
        let mut i: usize = 0;
        proof {
            assert(self@.subrange(0, 0) =~= Seq::<(Seq<char>, u128)>::empty());
        }
        while i < n
            invariant
                n == self.payout@.len(),
                1 <= n <= MAX_PAYOUT_RECIPIENTS,
                i <= n,
                sum_amounts(self@.subrange(0, i as int)) <= price,
                remainder == price - sum_amounts(self@.subrange(0, i as int)),
            decreases n - i,
        {
            let amount = self.payout[i].1;
            proof {
                lemma_sum_step(self@, i as int);
            }
            if amount > remainder {
                proof {
                    lemma_sum_prefix_le(self@, i as int + 1);
                }
                return false;
            }
            remainder = remainder - amount;
            i += 1;
        }
        proof {
            assert(self@.subrange(0, n as int) =~= self@);
        }
        remainder <= 1
    }
}

impl Contract {
    /// Resolve one settlement from the external registry's outcome:
    /// `payout` is the reported plan, or `None` where the call failed
    /// or nothing parseable came back. A missing or invalid plan
    /// refunds the full price to the buyer; a valid plan pays each
    /// recipient once, minus the platform fee. Either way the reported
    /// moved value is the price — and the asset transfer itself is
    /// never undone: the refund path returns the price, not the asset.
    pub fn resolve_purchase(&self, buyer_id: AccountId, price: u128, payout: Option<Payout>) -> (r:
        (Vec<Transfer>, u128))
        requires
            self.wf(),
            price <= u128::MAX / 100,
        ensures
            r.1 == price,
            transfers_view(r.0@) == spec_resolve(
                self@.fee,
                self@.fee_recipient,
                buyer_id@,
                price,
                plan_of(payout),
            ),
    {
        let plan = match payout {
            None => {
                let mut v: Vec<Transfer> = Vec::new();
                v.push(Transfer { receiver_id: buyer_id, amount: price });
                proof {
                    assert(transfers_view(v@) =~= seq![
                        TransferView { receiver_id: buyer_id@, amount: price },
                    ]);
                }
                return (v, price);
            },
            Some(p) => p,
        };
        if !plan.validate(price) {
            let mut v: Vec<Transfer> = Vec::new();
            v.push(Transfer { receiver_id: buyer_id, amount: price });
            proof {
                assert(transfers_view(v@) =~= seq![
                    TransferView { receiver_id: buyer_id@, amount: price },
                ]);
            }
            return (v, price);
        }
        let mut out: Vec<Transfer> = Vec::new();
        let n = plan.payout.len();
        let mut i: usize = 0;
        proof {
            assert(plan@.subrange(0, 0) =~= Seq::<(Seq<char>, u128)>::empty());
            assert(transfers_view(out@) =~= settle_transfers(
                plan@.subrange(0, 0),
                self.fee,
                self.fee_recipient@,
            ));
        }
        while i < n
            invariant
                self.wf(),
                price <= u128::MAX / 100,
                payout_valid(plan@, price),
                n == plan.payout@.len(),
                i <= n,
                transfers_view(out@) == settle_transfers(
                    plan@.subrange(0, i as int),
                    self.fee,
                    self.fee_recipient@,
                ),
            decreases n - i,
        {
            let amount = plan.payout[i].1;
            proof {
                lemma_entry_le_sum(plan@, i as int);
                lemma_fee_bounds(amount, self.fee, price);
            }
            let fee_amount = amount * self.fee / 100;
            out.push(Transfer { receiver_id: self.fee_recipient.clone(), amount: fee_amount });
            out.push(
                Transfer { receiver_id: plan.payout[i].0.clone(), amount: amount - fee_amount },
            );
            proof {
                assert(plan@.subrange(0, i as int + 1).drop_last() =~= plan@.subrange(0, i as int));
                assert(plan@.subrange(0, i as int + 1).last() == plan@[i as int]);
                assert(transfers_view(out@) =~= settle_transfers(
                    plan@.subrange(0, i as int + 1),
                    self.fee,
                    self.fee_recipient@,
                ));
            }
            i += 1;
        }
        proof {
            assert(plan@.subrange(0, n as int) =~= plan@);
        }
        (out, price)
    }
}

} // verus!
