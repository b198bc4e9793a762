use quote_offer::claim::{plan_quote_offer_claim, ClaimError, ClaimRequest};
use quote_offer::offer::{OfferOperation, QuoteOffer};

fn offer(operation: OfferOperation) -> QuoteOffer {
    QuoteOffer {
        mint_url: "https://mint.example.com".to_string(),
        operation,
        method: "branch".to_string(),
        unit: "ora".to_string(),
        amount: Some(500),
        ticket: "T-1".to_string(),
        description: Some("Cash deposit".to_string()),
        expiry: Some(1_000),
    }
}

const MINT: &str = "https://mint.example.com";

const KEY: [u8; 33] = [
    2, 121, 190, 102, 126, 249, 220, 187, 172, 85, 160, 98, 149, 206, 135, 11, 7, 2, 155, 252,
    219, 45, 206, 40, 217, 89, 242, 129, 91, 22, 248, 23, 152,
];

#[test]
fn mint_offer_becomes_a_mint_request() {
    let r = plan_quote_offer_claim(&offer(OfferOperation::Mint), MINT, "ora", &KEY, 999);
    assert_eq!(
        r,
        Ok(ClaimRequest::Mint {
            method: "branch".to_string(),
            amount: Some(500),
            unit: "ora".to_string(),
            ticket: "T-1".to_string(),
            pubkey: KEY.to_vec(),
        })
    );
}

#[test]
fn melt_offer_becomes_a_melt_request_on_the_ticket() {
    let r = plan_quote_offer_claim(&offer(OfferOperation::Melt), MINT, "ora", &KEY, 1_000);
    assert_eq!(
        r,
        Ok(ClaimRequest::Melt { method: "branch".to_string(), request: "T-1".to_string() })
    );
}

#[test]
fn other_mint_is_refused() {
    let r = plan_quote_offer_claim(&offer(OfferOperation::Mint), "https://other.example.com", "ora", &KEY, 0);
    assert_eq!(r, Err(ClaimError::IncorrectMint));
}

#[test]
fn units_compare_by_lower_case_display() {
    let r = plan_quote_offer_claim(&offer(OfferOperation::Mint), MINT, "ORA", &KEY, 0);
    assert_eq!(
        r,
        Ok(ClaimRequest::Mint {
            method: "branch".to_string(),
            amount: Some(500),
            unit: "ORA".to_string(),
            ticket: "T-1".to_string(),
            pubkey: KEY.to_vec(),
        })
    );
    let r = plan_quote_offer_claim(&offer(OfferOperation::Mint), MINT, "sat", &KEY, 0);
    assert_eq!(r, Err(ClaimError::UnitMismatch));
}

#[test]
fn expired_offer_is_refused() {
    let r = plan_quote_offer_claim(&offer(OfferOperation::Melt), MINT, "ora", &KEY, 1_001);
    assert_eq!(r, Err(ClaimError::ExpiredQuote(1_000, 1_001)));
    let no_expiry = QuoteOffer { expiry: None, ..offer(OfferOperation::Melt) };
    assert!(plan_quote_offer_claim(&no_expiry, MINT, "ora", &KEY, u64::MAX).is_ok());
}

#[test]
fn known_payment_method_is_refused() {
    for method in ["bolt11", "bolt12"] {
        let o = QuoteOffer { method: method.to_string(), ..offer(OfferOperation::Mint) };
        assert_eq!(
            plan_quote_offer_claim(&o, MINT, "ora", &KEY, 0),
            Err(ClaimError::UnsupportedPaymentMethod)
        );
    }
}

#[test]
fn checks_come_in_order() {
    let o = QuoteOffer { method: "bolt11".to_string(), ..offer(OfferOperation::Mint) };
    assert_eq!(plan_quote_offer_claim(&o, "x", "sat", &KEY, 5_000), Err(ClaimError::IncorrectMint));
    assert_eq!(plan_quote_offer_claim(&o, MINT, "sat", &KEY, 5_000), Err(ClaimError::UnitMismatch));
    assert_eq!(
        plan_quote_offer_claim(&o, MINT, "ora", &KEY, 5_000),
        Err(ClaimError::ExpiredQuote(1_000, 5_000))
    );
}

#[test]
fn mint_request_is_locked_to_the_given_key() {
    let other = [3u8; 33];
    let r = plan_quote_offer_claim(&offer(OfferOperation::Mint), MINT, "ora", &other, 0);
    match r {
        Ok(ClaimRequest::Mint { pubkey, .. }) => assert_eq!(pubkey, other.to_vec()),
        other => panic!("unexpected {other:?}"),
    }
}
