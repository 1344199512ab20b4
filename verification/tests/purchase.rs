//! The purchase flow up to the external request: offer validation,
//! the removal-before-call rule, and the single-sale guarantee.

use card_marketplace::{Contract, MarketError};

fn market_with_listing() -> Contract {
    let mut c = Contract::new("admin".to_string(), 5, "platform".to_string());
    c.allowlist_card("nft".to_string(), 100, 1);
    c.list("alice".to_string(), "nft".to_string(), "t1".to_string(), 100, 1)
        .unwrap();
    c
}

#[test]
fn buy_with_zero_deposit_fails() {
    let mut c = market_with_listing();
    let r = c.buy("bob".to_string(), 0, "nft".to_string(), "t1".to_string());
    assert!(matches!(r, Err(MarketError::ZeroDeposit)));
    assert!(c.get_sale("nft".to_string(), "t1".to_string()).is_some());
}

#[test]
fn buy_of_absent_sale_fails_not_found() {
    let mut c = market_with_listing();
    let r = c.buy("bob".to_string(), 100, "nft".to_string(), "t9".to_string());
    assert!(matches!(r, Err(MarketError::NotFound)));
}

#[test]
fn buy_own_sale_fails() {
    let mut c = market_with_listing();
    let r = c.buy("alice".to_string(), 100, "nft".to_string(), "t1".to_string());
    assert!(matches!(r, Err(MarketError::SelfPurchase)));
    assert!(c.get_sale("nft".to_string(), "t1".to_string()).is_some());
}

#[test]
fn offer_below_price_fails_insufficient_offer() {
    let mut c = market_with_listing();
    let r = c.buy("bob".to_string(), 99, "nft".to_string(), "t1".to_string());
    assert!(matches!(r, Err(MarketError::InsufficientOffer)));
    assert!(c.get_sale("nft".to_string(), "t1".to_string()).is_some());
}

#[test]
fn successful_buy_removes_sale_and_opens_settlement_at_listed_price() {
    let mut c = market_with_listing();
    // The offer exceeds the price; settlement is nevertheless opened at
    // the listed price, and the excess is retained, not refunded.
    let req = c
        .buy("bob".to_string(), 150, "nft".to_string(), "t1".to_string())
        .unwrap();
    assert_eq!(req.price, 100);
    assert_eq!(req.receiver_id, "bob".to_string());
    assert_eq!(req.nft_contract_id, "nft".to_string());
    assert_eq!(req.token_id, "t1".to_string());
    assert_eq!(req.approval_id, 1);
    assert_eq!(req.memo, "payout from market".to_string());
    assert_eq!(req.max_len_payout, 10);
    // removed before the external call: nothing left to sell
    assert!(c.get_sale("nft".to_string(), "t1".to_string()).is_none());
    assert_eq!(c.get_supply_sales(), 0);
    assert!(c.get_sales_by_owner_id("alice".to_string()).is_empty());
}

#[test]
fn a_key_is_sold_at_most_once() {
    let mut c = market_with_listing();
    assert!(c
        .buy("bob".to_string(), 100, "nft".to_string(), "t1".to_string())
        .is_ok());
    let second = c.buy("carol".to_string(), 500, "nft".to_string(), "t1".to_string());
    assert!(matches!(second, Err(MarketError::NotFound)));
}

#[test]
fn process_purchase_of_absent_sale_aborts() {
    let mut c = Contract::new("admin".to_string(), 5, "platform".to_string());
    let r = c.process_purchase("nft".to_string(), "t1".to_string(), 100, "bob".to_string());
    assert!(matches!(r, Err(MarketError::NotFound)));
}
