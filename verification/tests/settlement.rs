//! Settlement resolution: payout validation with its one-unit
//! tolerance, the refund path, and the fee arithmetic.

use card_marketplace::{Contract, Payout, Transfer};

fn market() -> Contract {
    Contract::new("admin".to_string(), 5, "platform".to_string())
}

fn plan(entries: &[(&str, u128)]) -> Payout {
    Payout {
        payout: entries
            .iter()
            .map(|(who, amount)| (who.to_string(), *amount))
            .collect(),
    }
}

fn total(transfers: &[Transfer]) -> u128 {
    transfers.iter().map(|t| t.amount).sum()
}

#[test]
fn exact_plan_is_accepted() {
    let p = plan(&[("a", 60), ("b", 40)]);
    assert!(p.validate(100));
}

#[test]
fn shortfall_of_one_is_accepted() {
    let c = market();
    let p = plan(&[("a", 60), ("b", 39)]);
    assert!(p.validate(100));
    let (transfers, moved) = c.resolve_purchase("buyer".to_string(), 100, Some(p));
    assert_eq!(moved, 100);
    // distributed, not refunded: two transfers per recipient
    assert_eq!(transfers.len(), 4);
    assert_eq!(transfers[0].receiver_id, "platform".to_string());
    assert_eq!(transfers[0].amount, 3); // floor(60 * 5 / 100)
    assert_eq!(transfers[1].receiver_id, "a".to_string());
    assert_eq!(transfers[1].amount, 57);
    assert_eq!(transfers[2].receiver_id, "platform".to_string());
    assert_eq!(transfers[2].amount, 1); // floor(39 * 5 / 100)
    assert_eq!(transfers[3].receiver_id, "b".to_string());
    assert_eq!(transfers[3].amount, 38);
    // the accepted one-unit shortfall moves one unit less than the price
    assert_eq!(total(&transfers), 99);
}

#[test]
fn shortfall_of_two_is_refunded() {
    let c = market();
    let p = plan(&[("a", 60), ("b", 38)]);
    assert!(!p.validate(100));
    let (transfers, moved) = c.resolve_purchase("buyer".to_string(), 100, Some(p));
    assert_eq!(moved, 100);
    assert_eq!(transfers.len(), 1);
    assert_eq!(transfers[0].receiver_id, "buyer".to_string());
    assert_eq!(transfers[0].amount, 100);
}

#[test]
fn excess_plan_is_refunded_not_clamped() {
    let c = market();
    let p = plan(&[("a", 70), ("b", 40)]);
    assert!(!p.validate(100));
    let (transfers, moved) = c.resolve_purchase("buyer".to_string(), 100, Some(p));
    assert_eq!(moved, 100);
    assert_eq!(transfers.len(), 1);
    assert_eq!(transfers[0].receiver_id, "buyer".to_string());
    assert_eq!(transfers[0].amount, 100);
}

#[test]
fn empty_plan_is_refunded() {
    let c = market();
    let p = plan(&[]);
    assert!(!p.validate(100));
    let (transfers, moved) = c.resolve_purchase("buyer".to_string(), 100, Some(p));
    assert_eq!(moved, 100);
    assert_eq!(transfers.len(), 1);
    assert_eq!(transfers[0].amount, 100);
}

#[test]
fn eleven_recipients_are_refunded() {
    let c = market();
    let entries: Vec<(String, u128)> = (0..11).map(|i| (format!("r{}", i), 1u128)).collect();
    let p = Payout { payout: entries };
    assert!(!p.validate(11));
    let (transfers, moved) = c.resolve_purchase("buyer".to_string(), 11, Some(p));
    assert_eq!(moved, 11);
    assert_eq!(transfers.len(), 1);
    assert_eq!(transfers[0].receiver_id, "buyer".to_string());
}

#[test]
fn ten_recipients_are_accepted() {
    let c = market();
    let entries: Vec<(String, u128)> = (0..10).map(|i| (format!("r{}", i), 10u128)).collect();
    let p = Payout { payout: entries };
    assert!(p.validate(100));
    let (transfers, moved) = c.resolve_purchase("buyer".to_string(), 100, Some(p));
    assert_eq!(moved, 100);
    assert_eq!(transfers.len(), 20);
    assert_eq!(total(&transfers), 100);
}

#[test]
fn missing_outcome_is_refunded() {
    let c = market();
    let (transfers, moved) = c.resolve_purchase("buyer".to_string(), 100, None);
    assert_eq!(moved, 100);
    assert_eq!(transfers.len(), 1);
    assert_eq!(transfers[0].receiver_id, "buyer".to_string());
    assert_eq!(transfers[0].amount, 100);
}

#[test]
fn fee_arithmetic_truncates_and_conserves() {
    let c = market();
    let p = plan(&[("a", 41)]);
    let (transfers, moved) = c.resolve_purchase("buyer".to_string(), 41, Some(p));
    assert_eq!(moved, 41);
    assert_eq!(transfers.len(), 2);
    assert_eq!(transfers[0].receiver_id, "platform".to_string());
    assert_eq!(transfers[0].amount, 2); // floor(41 * 5 / 100)
    assert_eq!(transfers[1].receiver_id, "a".to_string());
    assert_eq!(transfers[1].amount, 39);
    // the settlement's transfers sum to the price exactly
    assert_eq!(total(&transfers), 41);
}

#[test]
fn zero_fee_pays_recipients_in_full() {
    let c = Contract::new("admin".to_string(), 0, "platform".to_string());
    let p = plan(&[("a", 100)]);
    let (transfers, _) = c.resolve_purchase("buyer".to_string(), 100, Some(p));
    assert_eq!(transfers.len(), 2);
    assert_eq!(transfers[0].amount, 0);
    assert_eq!(transfers[1].amount, 100);
}
