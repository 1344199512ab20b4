//! Listing lifecycle: creation under the allowlist floor, repricing,
//! removal, and the query surface over the registry.

use card_marketplace::{Contract, MarketError};

fn fresh_market() -> Contract {
    Contract::new("admin".to_string(), 5, "platform".to_string())
}

#[test]
fn list_round_trip_keeps_price_and_seller() {
    let mut c = fresh_market();
    c.allowlist_card("nft".to_string(), 100, 1);
    let r = c.list("alice".to_string(), "nft".to_string(), "t1".to_string(), 120, 1);
    assert_eq!(r, Ok(()));
    let sale = c.get_sale("nft".to_string(), "t1".to_string()).unwrap();
    assert_eq!(sale.sale_conditions, 120);
    assert_eq!(sale.owner_id, "alice".to_string());
    assert_eq!(sale.nft_contract_id, "nft".to_string());
    assert_eq!(sale.token_id, "t1".to_string());
    assert_eq!(c.get_supply_sales(), 1);
}

#[test]
fn approval_credential_is_registry_size_plus_one() {
    let mut c = fresh_market();
    c.allowlist_card("nft".to_string(), 10, 1);
    assert_eq!(c.list("alice".to_string(), "nft".to_string(), "t1".to_string(), 10, 1), Ok(()));
    assert_eq!(c.list("alice".to_string(), "nft".to_string(), "t2".to_string(), 10, 1), Ok(()));
    assert_eq!(c.get_sale("nft".to_string(), "t1".to_string()).unwrap().approval_id, 1);
    assert_eq!(c.get_sale("nft".to_string(), "t2".to_string()).unwrap().approval_id, 2);
}

#[test]
fn list_below_floor_fails_and_leaves_registry_unchanged() {
    let mut c = fresh_market();
    c.allowlist_card("nft".to_string(), 100, 1);
    let r = c.list("alice".to_string(), "nft".to_string(), "t1".to_string(), 99, 1);
    assert_eq!(r, Err(MarketError::PriceTooLow));
    assert_eq!(c.get_supply_sales(), 0);
    assert!(c.get_sale("nft".to_string(), "t1".to_string()).is_none());
}

#[test]
fn list_without_allowlist_entry_fails() {
    let mut c = fresh_market();
    let r = c.list("alice".to_string(), "nft".to_string(), "t1".to_string(), 100, 1);
    assert_eq!(r, Err(MarketError::NotAllowlisted));
    assert_eq!(c.get_supply_sales(), 0);
}

#[test]
fn list_at_exact_floor_is_accepted() {
    let mut c = fresh_market();
    c.allowlist_card("nft".to_string(), 100, 1);
    let r = c.list("alice".to_string(), "nft".to_string(), "t1".to_string(), 100, 1);
    assert_eq!(r, Ok(()));
}

#[test]
fn lifecycle_clears_registry_and_both_indices() {
    let mut c = fresh_market();
    c.allowlist_card("nft".to_string(), 100, 1);
    assert_eq!(c.list("alice".to_string(), "nft".to_string(), "t1".to_string(), 100, 1), Ok(()));
    assert_eq!(
        c.update_price("alice".to_string(), "nft".to_string(), "t1".to_string(), 150, 1),
        Ok(())
    );
    assert_eq!(
        c.get_sale("nft".to_string(), "t1".to_string()).unwrap().sale_conditions,
        150
    );
    assert_eq!(c.unlist("alice".to_string(), "nft".to_string(), "t1".to_string(), 1), Ok(()));
    assert!(c.get_sale("nft".to_string(), "t1".to_string()).is_none());
    assert_eq!(c.get_supply_sales(), 0);
    assert!(c.get_sales_by_owner_id("alice".to_string()).is_empty());
    assert!(c.get_sales_by_nft_contract_id("nft".to_string()).is_empty());
}

#[test]
fn indices_enumerate_live_sales() {
    let mut c = fresh_market();
    c.allowlist_card("nft".to_string(), 1, 1);
    c.allowlist_card("art".to_string(), 1, 1);
    assert_eq!(c.list("alice".to_string(), "nft".to_string(), "t1".to_string(), 5, 1), Ok(()));
    assert_eq!(c.list("alice".to_string(), "art".to_string(), "t9".to_string(), 5, 1), Ok(()));
    assert_eq!(c.list("bob".to_string(), "nft".to_string(), "t2".to_string(), 5, 1), Ok(()));
    let alices = c.get_sales_by_owner_id("alice".to_string());
    assert_eq!(alices.len(), 2);
    let nfts = c.get_sales_by_nft_contract_id("nft".to_string());
    assert_eq!(nfts.len(), 2);
    for key in &nfts {
        assert_eq!(key.nft_contract_id, "nft".to_string());
        assert!(c.get_sale(key.nft_contract_id.clone(), key.token_id.clone()).is_some());
    }
}

#[test]
fn update_price_by_stranger_is_unauthorized_and_changes_nothing() {
    let mut c = fresh_market();
    c.allowlist_card("nft".to_string(), 100, 1);
    assert_eq!(c.list("alice".to_string(), "nft".to_string(), "t1".to_string(), 100, 1), Ok(()));
    let r = c.update_price("bob".to_string(), "nft".to_string(), "t1".to_string(), 1, 1);
    assert_eq!(r, Err(MarketError::Unauthorized));
    assert_eq!(
        c.get_sale("nft".to_string(), "t1".to_string()).unwrap().sale_conditions,
        100
    );
}

#[test]
fn update_price_of_absent_sale_is_not_found() {
    let mut c = fresh_market();
    let r = c.update_price("alice".to_string(), "nft".to_string(), "t1".to_string(), 1, 1);
    assert_eq!(r, Err(MarketError::NotFound));
}

#[test]
fn unlist_of_absent_sale_is_not_found() {
    let mut c = fresh_market();
    let r = c.unlist("alice".to_string(), "nft".to_string(), "t1".to_string(), 1);
    assert_eq!(r, Err(MarketError::NotFound));
}

#[test]
fn unlist_by_stranger_reports_unauthorized_but_still_removes() {
    // The engine removes first and checks ownership second, by design:
    // the stranger is refused, yet the sale is gone.
    let mut c = fresh_market();
    c.allowlist_card("nft".to_string(), 100, 1);
    assert_eq!(c.list("alice".to_string(), "nft".to_string(), "t1".to_string(), 100, 1), Ok(()));
    let r = c.unlist("bob".to_string(), "nft".to_string(), "t1".to_string(), 1);
    assert_eq!(r, Err(MarketError::Unauthorized));
    assert!(c.get_sale("nft".to_string(), "t1".to_string()).is_none());
}

#[test]
fn relisting_overwrites_the_previous_listing() {
    let mut c = fresh_market();
    c.allowlist_card("nft".to_string(), 1, 1);
    assert_eq!(c.list("alice".to_string(), "nft".to_string(), "t1".to_string(), 10, 1), Ok(()));
    assert_eq!(c.list("bob".to_string(), "nft".to_string(), "t1".to_string(), 20, 1), Ok(()));
    let sale = c.get_sale("nft".to_string(), "t1".to_string()).unwrap();
    assert_eq!(sale.owner_id, "bob".to_string());
    assert_eq!(sale.sale_conditions, 20);
    assert_eq!(c.get_supply_sales(), 1);
    assert!(c.get_sales_by_owner_id("alice".to_string()).is_empty());
    assert_eq!(c.get_sales_by_owner_id("bob".to_string()).len(), 1);
}

#[test]
fn disallow_blocks_new_listings_but_keeps_active_ones() {
    let mut c = fresh_market();
    c.allowlist_card("nft".to_string(), 100, 1);
    assert_eq!(c.list("alice".to_string(), "nft".to_string(), "t1".to_string(), 100, 1), Ok(()));
    c.disallow_card("nft".to_string(), 1);
    let r = c.list("alice".to_string(), "nft".to_string(), "t2".to_string(), 100, 1);
    assert_eq!(r, Err(MarketError::NotAllowlisted));
    assert!(c.get_sale("nft".to_string(), "t1".to_string()).is_some());
}

#[test]
fn allowlist_update_raises_the_floor() {
    let mut c = fresh_market();
    c.allowlist_card("nft".to_string(), 100, 1);
    c.allowlist_card("nft".to_string(), 200, 1);
    assert_eq!(
        c.list("alice".to_string(), "nft".to_string(), "t1".to_string(), 150, 1),
        Err(MarketError::PriceTooLow)
    );
    assert_eq!(c.list("alice".to_string(), "nft".to_string(), "t1".to_string(), 200, 1), Ok(()));
}
