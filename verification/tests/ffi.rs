use quote_offer::ffi::{decode_quote_offer, QuoteOffer, QuoteOfferOperation};
use quote_offer::offer::{Error, OfferOperation};

const SPEC_VECTOR: &str = "cquoteAp2FteBhodHRwczovL21pbnQuZXhhbXBsZS5jb21hb2RtaW50YWhmYnJhbmNoYXVjb3JhYWEZAfRhdHgkMDE5OGMwZWYtM2YxMS03MDAwLWEzZjctMmY0YjZlMmQ5YzFhYWRsQ2FzaCBkZXBvc2l0";

#[test]
fn ffi_getters_read_the_offer() {
    let offer = QuoteOffer::from_string(SPEC_VECTOR.to_string()).expect("offer");
    assert_eq!(offer.mint_url(), "https://mint.example.com");
    assert_eq!(offer.operation(), QuoteOfferOperation::Mint);
    assert_eq!(offer.method(), "branch");
    assert_eq!(offer.unit(), "ora");
    assert_eq!(offer.amount(), Some(500));
    assert_eq!(offer.ticket(), "0198c0ef-3f11-7000-a3f7-2f4b6e2d9c1a");
    assert_eq!(offer.description(), Some("Cash deposit".to_string()));
    assert_eq!(offer.expiry(), None);
    assert_eq!(offer.to_string_encoded(), SPEC_VECTOR);
}

#[test]
fn ffi_decode_refuses_what_the_offer_refuses() {
    assert_eq!(decode_quote_offer("creqA".to_string()).err(), Some(Error::InvalidPrefix));
    let offer = decode_quote_offer(SPEC_VECTOR.to_string()).expect("offer");
    assert_eq!(offer.ticket(), "0198c0ef-3f11-7000-a3f7-2f4b6e2d9c1a");
}

#[test]
fn operation_conversions_are_inverse() {
    for op in [OfferOperation::Mint, OfferOperation::Melt] {
        let ffi: QuoteOfferOperation = op.into();
        let back: OfferOperation = ffi.into();
        assert_eq!(back, op);
    }
    assert_eq!(QuoteOfferOperation::from(OfferOperation::Melt), QuoteOfferOperation::Melt);
    assert_eq!(OfferOperation::from(QuoteOfferOperation::Mint), OfferOperation::Mint);
}
