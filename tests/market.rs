use nft_market::market::{settle, Contract, MarketError, Settlement};
use nft_market::payout::{validate_payout, MAX_PAYOUT_ENTRIES};
use nft_market::sale::{contract_and_token_id, Sale};

fn s(x: &str) -> String {
    x.to_string()
}

fn market_with_listing(price: u128) -> Contract {
    let mut m = Contract::new();
    let sale = Sale {
        owner_id: s("seller.near"),
        approval_id: 7,
        nft_contract_id: s("nft.near"),
        token_id: s("token-1"),
        sale_conditions: price,
        created_at: 1000,
    };
    m.insert_sale(contract_and_token_id(&s("nft.near"), &s("token-1")), sale);
    m
}

fn key() -> String {
    contract_and_token_id(&s("nft.near"), &s("token-1"))
}

fn payees(entries: &[(&str, u128)]) -> Vec<(String, u128)> {
    entries.iter().map(|(k, v)| (k.to_string(), *v)).collect()
}

#[test]
fn key_joins_with_separator() {
    assert_eq!(contract_and_token_id(&s("nft.near"), &s("token-1")), "nft.near||token-1");
    assert_eq!(contract_and_token_id(&s(""), &s("")), "||");
}

#[test]
fn exact_split_is_disbursed() {
    let mut m = market_with_listing(100);
    let req = m.offer(&s("buyer.near"), 100, s("nft.near"), s("token-1")).unwrap();
    assert_eq!(req.price, 100);
    assert_eq!(req.approval_id, 7);
    assert_eq!(req.buyer_id, "buyer.near");
    assert_eq!(req.nft_contract_id, "nft.near");
    assert_eq!(req.token_id, "token-1");
    let r = settle(req.buyer_id, req.price, Some(payees(&[("seller", 97), ("creator", 3)])));
    match r {
        Settlement::Disburse(v) => assert_eq!(v, payees(&[("seller", 97), ("creator", 3)])),
        Settlement::Refund(_, _) => panic!("expected a disbursement"),
    }
}

#[test]
fn oversized_split_is_refunded() {
    let r = settle(s("buyer.near"), 100, Some(payees(&[("seller", 97), ("creator", 4)])));
    match r {
        Settlement::Refund(b, a) => {
            assert_eq!(b, "buyer.near");
            assert_eq!(a, 100);
        }
        Settlement::Disburse(_) => panic!("expected a refund"),
    }
}

#[test]
fn failed_transfer_is_refunded() {
    let m = market_with_listing(100);
    let r = m.resolve_purchase(s("buyer.near"), 100, None);
    assert!(matches!(r, Settlement::Refund(ref b, 100) if b == "buyer.near"));
    let r = settle(s("buyer.near"), 100, None);
    assert!(matches!(r, Settlement::Refund(ref b, 100) if b == "buyer.near"));
}

#[test]
fn overpayment_settles_against_attached_amount() {
    let mut m = market_with_listing(100);
    let req = m.offer(&s("buyer.near"), 150, s("nft.near"), s("token-1")).unwrap();
    assert_eq!(req.price, 150);
    let r = settle(req.buyer_id.clone(), req.price, Some(payees(&[("seller", 97), ("creator", 3)])));
    assert!(matches!(r, Settlement::Refund(ref b, 150) if b == "buyer.near"));
    let r = settle(req.buyer_id, req.price, Some(payees(&[("seller", 147), ("creator", 3)])));
    assert!(matches!(r, Settlement::Disburse(ref v) if *v == payees(&[("seller", 147), ("creator", 3)])));
}

#[test]
fn rounding_unit_is_tolerated() {
    let p = payees(&[("a", 33), ("b", 33), ("c", 33)]);
    assert_eq!(validate_payout(100, p.clone()), Some(p));
    assert_eq!(validate_payout(101, payees(&[("a", 33), ("b", 33), ("c", 33)])), None);
}

#[test]
fn payout_sizes_are_bounded() {
    assert_eq!(validate_payout(0, Vec::new()), None);
    let ten: Vec<(String, u128)> = (0..MAX_PAYOUT_ENTRIES).map(|i| (format!("p{}", i), 10)).collect();
    assert_eq!(validate_payout(100, ten.clone()), Some(ten));
    let eleven: Vec<(String, u128)> = (0..11).map(|i| (format!("p{}", i), 10)).collect();
    assert_eq!(validate_payout(110, eleven), None);
}

#[test]
fn payout_sum_overflowing_amount_is_rejected() {
    assert_eq!(validate_payout(u128::MAX, payees(&[("a", u128::MAX), ("b", 1)])), None);
    assert_eq!(validate_payout(5, payees(&[("a", 6)])), None);
    assert_eq!(validate_payout(0, payees(&[("a", 0)])), Some(payees(&[("a", 0)])));
}

#[test]
fn serialized_payout_is_decoded() {
    let m = Contract::new();
    let json = br#"{"seller":"97","creator":"3"}"#.to_vec();
    match m.resolve_purchase(s("buyer.near"), 100, Some(json)) {
        Settlement::Disburse(v) => assert_eq!(v, payees(&[("creator", 3), ("seller", 97)])),
        Settlement::Refund(_, _) => panic!("expected a disbursement"),
    }
}

#[test]
fn malformed_payout_is_refunded() {
    let m = Contract::new();
    for bad in [&br#"{"seller":97,"creator":3}"#[..], b"not json", b"[]", br#"{"seller":"-1"}"#, b"{}"] {
        let r = m.resolve_purchase(s("buyer.near"), 100, Some(bad.to_vec()));
        assert!(matches!(r, Settlement::Refund(ref b, 100) if b == "buyer.near"));
    }
    let r = m.resolve_purchase(s("buyer.near"), 100, Some(br#"{"seller":"97","creator":"4"}"#.to_vec()));
    assert!(matches!(r, Settlement::Refund(ref b, 100) if b == "buyer.near"));
}

#[test]
fn sold_listing_cannot_be_bought_again() {
    let mut m = market_with_listing(100);
    assert!(m.offer(&s("buyer.near"), 100, s("nft.near"), s("token-1")).is_ok());
    assert!(m.get_sale(&key()).is_none());
    assert_eq!(
        m.offer(&s("other.near"), 100, s("nft.near"), s("token-1")).err(),
        Some(MarketError::NotFound)
    );
}

#[test]
fn offer_errors() {
    let mut m = market_with_listing(100);
    assert_eq!(m.offer(&s("buyer.near"), 0, s("nft.near"), s("token-1")).err(), Some(MarketError::ZeroPayment));
    assert_eq!(m.offer(&s("buyer.near"), 100, s("nft.near"), s("token-2")).err(), Some(MarketError::NotFound));
    assert_eq!(m.offer(&s("seller.near"), 100, s("nft.near"), s("token-1")).err(), Some(MarketError::SelfTrade));
    assert_eq!(m.offer(&s("buyer.near"), 99, s("nft.near"), s("token-1")).err(), Some(MarketError::InsufficientFunds));
    assert!(m.get_sale(&key()).is_some());
}

#[test]
fn self_trade_keeps_listing() {
    let mut m = market_with_listing(100);
    assert_eq!(m.offer(&s("seller.near"), 500, s("nft.near"), s("token-1")).err(), Some(MarketError::SelfTrade));
    assert_eq!(m.get_sale(&key()).unwrap().sale_conditions, 100);
}

#[test]
fn remove_sale_checks_owner_and_deposit() {
    let mut m = market_with_listing(100);
    assert_eq!(m.remove_sale(&s("seller.near"), 0, s("nft.near"), s("token-1")), Err(MarketError::GuardDeposit));
    assert_eq!(m.remove_sale(&s("seller.near"), 2, s("nft.near"), s("token-1")), Err(MarketError::GuardDeposit));
    assert_eq!(m.remove_sale(&s("thief.near"), 1, s("nft.near"), s("token-1")), Err(MarketError::Unauthorized));
    assert_eq!(m.remove_sale(&s("thief.near"), 0, s("nft.near"), s("token-1")).is_err(), true);
    assert!(m.get_sale(&key()).is_some());
    assert_eq!(m.remove_sale(&s("seller.near"), 1, s("nft.near"), s("token-2")), Err(MarketError::NotFound));
    assert_eq!(m.remove_sale(&s("seller.near"), 1, s("nft.near"), s("token-1")), Ok(()));
    assert!(m.get_sale(&key()).is_none());
    assert_eq!(m.remove_sale(&s("seller.near"), 1, s("nft.near"), s("token-1")), Err(MarketError::NotFound));
}

#[test]
fn update_price_changes_only_price() {
    let mut m = market_with_listing(100);
    assert_eq!(m.update_price(&s("thief.near"), 1, s("nft.near"), s("token-1"), 5), Err(MarketError::Unauthorized));
    assert_eq!(m.update_price(&s("seller.near"), 0, s("nft.near"), s("token-1"), 5), Err(MarketError::GuardDeposit));
    assert_eq!(m.update_price(&s("seller.near"), 1, s("nft.near"), s("token-9"), 5), Err(MarketError::NotFound));
    assert_eq!(m.get_sale(&key()).unwrap().sale_conditions, 100);
    assert_eq!(m.update_price(&s("seller.near"), 1, s("nft.near"), s("token-1"), 250), Ok(()));
    let sale = m.get_sale(&key()).unwrap();
    assert_eq!(sale.sale_conditions, 250);
    assert_eq!(sale.approval_id, 7);
    assert_eq!(sale.created_at, 1000);
    assert_eq!(sale.owner_id, "seller.near");
    assert_eq!(m.offer(&s("buyer.near"), 249, s("nft.near"), s("token-1")).err(), Some(MarketError::InsufficientFunds));
}

#[test]
fn insert_replaces_under_same_key() {
    let mut m = market_with_listing(100);
    let sale = Sale {
        owner_id: s("new.near"),
        approval_id: 8,
        nft_contract_id: s("nft.near"),
        token_id: s("token-1"),
        sale_conditions: 3,
        created_at: 2000,
    };
    m.insert_sale(key(), sale);
    assert_eq!(m.get_sale(&key()).unwrap().owner_id, "new.near");
    assert!(m.internal_remove_sale(s("nft.near"), s("token-1")).is_ok());
    assert!(m.get_sale(&key()).is_none());
    assert_eq!(m.internal_remove_sale(s("nft.near"), s("token-1")).err(), Some(MarketError::NotFound));
}

#[test]
fn process_purchase_delists() {
    let mut m = market_with_listing(100);
    let req = m.process_purchase(s("nft.near"), s("token-1"), 42, s("buyer.near")).unwrap();
    assert_eq!(req.price, 42);
    assert_eq!(req.approval_id, 7);
    assert!(m.get_sale(&key()).is_none());
    assert!(m.process_purchase(s("nft.near"), s("token-1"), 42, s("buyer.near")).is_err());
}
