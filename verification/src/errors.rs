use vstd::prelude::*;

verus! {

/// Every way a call into the engine can fail.
///
/// The first group aborts the call with no state change; the one
/// exception is `Unauthorized` from `unlist`, which reports the failure
/// while deliberately leaving the sale removed. `MalformedPayout` is
/// never surfaced to a caller: settlement absorbs it and refunds the
/// buyer instead.
#[derive(Clone, Copy, Debug, PartialEq, Eq, Structural)]
pub enum MarketError {
    /// The sale or allowlist entry does not exist.
    NotFound,
    /// The caller is not the owner of the sale.
    Unauthorized,
    /// The asset issuer has no allowlist entry.
    NotAllowlisted,
    /// The quoted price is below the issuer's allowlist floor.
    PriceTooLow,
    /// A purchase offer carried no payment at all.
    ZeroDeposit,
    /// The attached payment is below the listed price.
    InsufficientOffer,
    /// The buyer already owns the sale.
    SelfPurchase,
    /// The external payout plan failed validation.
    MalformedPayout,
}

} // verus!
