//! The checks a wallet makes before it claims a quote offer, and the quote
//! request that the claim then makes.  Sending the request is left to the
//! caller.

use vstd::prelude::*;
use crate::codec::{lowercase, to_lowercase};
use crate::offer::{OfferOperation, QuoteOffer, QuoteOfferView};
use crate::text::str_eq;

verus! {

/// Why a wallet does not claim an offer.
#[derive(Debug, Clone, Copy, PartialEq, Eq, Structural)]
pub enum ClaimError {
    /// The offer is for another mint than the wallet's.
    IncorrectMint,
    /// The offer is in another unit than the wallet's.
    UnitMismatch,
    /// The offer expired: its expiry, then the time of the claim.
    ExpiredQuote(u64, u64),
    /// The payment method is a known one, whose quote requests carry no ticket.
    UnsupportedPaymentMethod,
}

/// The quote request that claims an offer.
#[derive(Debug, Clone, PartialEq, Eq)]
pub enum ClaimRequest {
    /// A custom-method mint quote request referencing the ticket, in the
    /// wallet's unit, for the offer's amount (if any), with no description,
    /// locked to the public key given for the claim (a fresh key, so that
    /// a front-running claim fails visibly instead of taking the funds).
    Mint { method: String, amount: Option<u64>, unit: String, ticket: String, pubkey: Vec<u8> },
    /// A custom-method melt quote request whose request is the ticket.
    Melt { method: String, request: String },
}

/// The mathematical form of a [`ClaimRequest`].
pub enum ClaimRequestView {
    Mint { method: Seq<char>, amount: Option<u64>, unit: Seq<char>, ticket: Seq<char>, pubkey: Seq<u8> },
    Melt { method: Seq<char>, request: Seq<char> },
}

impl View for ClaimRequest {
    type V = ClaimRequestView;

    open spec fn view(&self) -> ClaimRequestView {
        match self {
            ClaimRequest::Mint { method, amount, unit, ticket, pubkey } => ClaimRequestView::Mint {
                method: method@,
                amount: *amount,
                unit: unit@,
                ticket: ticket@,
                pubkey: pubkey@,
            },
            ClaimRequest::Melt { method, request } => ClaimRequestView::Melt {
                method: method@,
                request: request@,
            },
        }
    }
}

/// The view of a claim decision.
pub open spec fn claim_view(r: Result<ClaimRequest, ClaimError>) -> Result<ClaimRequestView, ClaimError> {
    match r {
        Ok(q) => Ok(q@),
        Err(e) => Err(e),
    }
}

/// Whether a payment method is a custom one: neither `bolt11` nor `bolt12`.
pub open spec fn is_custom_method(method: Seq<char>) -> bool {
    method != seq!['b', 'o', 'l', 't', '1', '1'] && method != seq!['b', 'o', 'l', 't', '1', '2']
}

/// The claim of an offer by a wallet of a mint and unit at a time, the
/// units compared by their display forms: the checks in order (mint, unit,
/// expiry, method), then the request of the offer's operation; a mint
/// request is locked to `pubkey`.
pub open spec fn claim_decision(
    o: QuoteOfferView,
    wallet_mint_url: Seq<char>,
    offer_unit_display: Seq<char>,
    wallet_unit_display: Seq<char>,
    wallet_unit: Seq<char>,
    pubkey: Seq<u8>,
    now: u64,
) -> Result<ClaimRequestView, ClaimError> {
    if o.mint_url != wallet_mint_url {
        Err(ClaimError::IncorrectMint)
    } else if offer_unit_display != wallet_unit_display {
        Err(ClaimError::UnitMismatch)
    } else if o.expiry is Some && o.expiry->0 < now {
        Err(ClaimError::ExpiredQuote(o.expiry->0, now))
    } else if !is_custom_method(o.method) {
        Err(ClaimError::UnsupportedPaymentMethod)
    } else {
        match o.operation {
            OfferOperation::Mint => Ok(
                ClaimRequestView::Mint {
                    method: o.method,
                    amount: o.amount,
                    unit: wallet_unit,
                    ticket: o.ticket,
                    pubkey,
                },
            ),
            OfferOperation::Melt => Ok(ClaimRequestView::Melt { method: o.method, request: o.ticket }),
        }
    }
}

/// Whether a payment method is a custom one (see [`is_custom_method`]).
pub fn method_is_custom(method: &str) -> (r: bool)
    ensures
        r == is_custom_method(method@),
{
    proof {
        reveal_strlit("bolt11");
        reveal_strlit("bolt12");
        assert("bolt11"@ =~= seq!['b', 'o', 'l', 't', '1', '1']);
        assert("bolt12"@ =~= seq!['b', 'o', 'l', 't', '1', '2']);
    }
    !str_eq(method, "bolt11") && !str_eq(method, "bolt12")
}

/// Decides the claim of `offer` by a wallet of mint `wallet_mint_url` and
/// unit `wallet_unit` at unix time `now`, given the display forms of the
/// two units; a mint request is locked to `pubkey`, the public key of a
/// freshly generated secret key.
pub fn decide_claim(
    offer: &QuoteOffer,
    wallet_mint_url: &str,
    offer_unit_display: &str,
    wallet_unit_display: &str,
    wallet_unit: &str,
    pubkey: &[u8],
    now: u64,
) -> (r: Result<ClaimRequest, ClaimError>)
    ensures
        claim_view(r) == claim_decision(
            offer@,
            wallet_mint_url@,
            offer_unit_display@,
            wallet_unit_display@,
            wallet_unit@,
            pubkey@,
            now,
        ),
{
    if !str_eq(offer.mint_url.as_str(), wallet_mint_url) {
        return Err(ClaimError::IncorrectMint);
    }
    if !str_eq(offer_unit_display, wallet_unit_display) {
        return Err(ClaimError::UnitMismatch);
    }
    if let Some(expiry) = offer.expiry {
        if expiry < now {
            return Err(ClaimError::ExpiredQuote(expiry, now));
        }
    }
    if !method_is_custom(offer.method.as_str()) {
        return Err(ClaimError::UnsupportedPaymentMethod);
    }
    match offer.operation {
        OfferOperation::Mint => Ok(
            ClaimRequest::Mint {
                method: offer.method.clone(),
                amount: offer.amount,
                unit: wallet_unit.to_owned(),
                ticket: offer.ticket.clone(),
                pubkey: vstd::slice::slice_to_vec(pubkey),
            },
        ),
        OfferOperation::Melt => Ok(
            ClaimRequest::Melt { method: offer.method.clone(), request: offer.ticket.clone() },
        ),
    }
}

/// Checks an offer against the wallet's mint, unit and the time `now`, and
/// gives the quote request that claims it, a mint request locked to
/// `pubkey` (the public key of a fresh secret key, which signs the mint
/// request later).  Units are compared by their display forms, which are
/// lower case.
pub fn plan_quote_offer_claim(
    offer: &QuoteOffer,
    wallet_mint_url: &str,
    wallet_unit: &str,
    pubkey: &[u8],
    now: u64,
) -> (r: Result<ClaimRequest, ClaimError>)
    ensures
        claim_view(r) == claim_decision(
            offer@,
            wallet_mint_url@,
            lowercase(offer@.unit),
            lowercase(wallet_unit@),
            wallet_unit@,
            pubkey@,
            now,
        ),
{
    let offer_unit = to_lowercase(offer.unit.as_str());
    let wallet_unit_display = to_lowercase(wallet_unit);
    decide_claim(
        offer,
        wallet_mint_url,
        offer_unit.as_str(),
        wallet_unit_display.as_str(),
        wallet_unit,
        pubkey,
        now,
    )
}


/// A claim that goes through references the offer's ticket and method, and
/// is for the offer's operation; a mint request is locked to the key given
/// for the claim; a melt request names no amount, so the payout is what the
/// payment backend answers for the ticket.
pub proof fn law_claim_references_ticket(
    o: QuoteOfferView,
    wallet_mint_url: Seq<char>,
    offer_unit_display: Seq<char>,
    wallet_unit_display: Seq<char>,
    wallet_unit: Seq<char>,
    pubkey: Seq<u8>,
    now: u64,
)
    requires
        claim_decision(o, wallet_mint_url, offer_unit_display, wallet_unit_display, wallet_unit, pubkey, now) is Ok,
    ensures
        ({
            let q = claim_decision(o, wallet_mint_url, offer_unit_display, wallet_unit_display, wallet_unit, pubkey, now)->Ok_0;
            match q {
                ClaimRequestView::Mint { method, amount, unit, ticket, pubkey: key } => {
                    &&& o.operation == OfferOperation::Mint
                    &&& method == o.method
                    &&& ticket == o.ticket
                    &&& amount == o.amount
                    &&& unit == wallet_unit
                    &&& key == pubkey
                },
                ClaimRequestView::Melt { method, request } => {
                    &&& o.operation == OfferOperation::Melt
                    &&& method == o.method
                    &&& request == o.ticket
                },
            }
        }),
        o.mint_url == wallet_mint_url,
        offer_unit_display == wallet_unit_display,
        o.expiry matches Some(e) ==> now <= e,
        is_custom_method(o.method),
{
}

/// An offer stays claimable up to and including its expiry second, and an
/// offer without expiry never expires: the time matters only past expiry.
pub proof fn law_expiry_bounds_claims(
    o: QuoteOfferView,
    wallet_mint_url: Seq<char>,
    offer_unit_display: Seq<char>,
    wallet_unit_display: Seq<char>,
    wallet_unit: Seq<char>,
    pubkey: Seq<u8>,
    now1: u64,
    now2: u64,
)
    requires
        o.expiry matches Some(e) ==> now1 <= e && now2 <= e,
    ensures
        claim_decision(o, wallet_mint_url, offer_unit_display, wallet_unit_display, wallet_unit, pubkey, now1)
            == claim_decision(o, wallet_mint_url, offer_unit_display, wallet_unit_display, wallet_unit, pubkey, now2),
{
}

/// An offer passes when its mint is the wallet's, the two units display
/// alike, it has not expired and its method is neither `bolt11` nor
/// `bolt12`; it is then claimed, whatever its amount and description: a
/// mint offer as a mint request for its amount (none for an amountless
/// offer) in the wallet's unit, locked to the given key; a melt offer as a
/// melt request on its ticket.
pub proof fn law_claim_is_made_when_the_checks_pass(
    o: QuoteOfferView,
    wallet_mint_url: Seq<char>,
    offer_unit_display: Seq<char>,
    wallet_unit_display: Seq<char>,
    wallet_unit: Seq<char>,
    pubkey: Seq<u8>,
    now: u64,
)
    requires
        o.mint_url == wallet_mint_url,
        offer_unit_display == wallet_unit_display,
        o.expiry matches Some(e) ==> now <= e,
        o.method != seq!['b', 'o', 'l', 't', '1', '1'],
        o.method != seq!['b', 'o', 'l', 't', '1', '2'],
    ensures
        o.operation == OfferOperation::Mint ==> claim_decision(
            o,
            wallet_mint_url,
            offer_unit_display,
            wallet_unit_display,
            wallet_unit,
            pubkey,
            now,
        ) == Ok::<ClaimRequestView, ClaimError>(
            ClaimRequestView::Mint {
                method: o.method,
                amount: o.amount,
                unit: wallet_unit,
                ticket: o.ticket,
                pubkey,
            },
        ),
        o.operation == OfferOperation::Melt ==> claim_decision(
            o,
            wallet_mint_url,
            offer_unit_display,
            wallet_unit_display,
            wallet_unit,
            pubkey,
            now,
        ) == Ok::<ClaimRequestView, ClaimError>(
            ClaimRequestView::Melt { method: o.method, request: o.ticket },
        ),
{
}

/// The amount and the description of an offer decide nothing: an offer
/// that differs only in them is refused for the same reason or claimed
/// alike; a melt claim is even the same request, and a mint claim differs
/// only in carrying the other amount.
pub proof fn law_amount_and_description_decide_nothing(
    o: QuoteOfferView,
    amount: Option<u64>,
    description: Option<Seq<char>>,
    wallet_mint_url: Seq<char>,
    offer_unit_display: Seq<char>,
    wallet_unit_display: Seq<char>,
    wallet_unit: Seq<char>,
    pubkey: Seq<u8>,
    now: u64,
)
    ensures
        ({
            let o2 = QuoteOfferView { amount, description, ..o };
            let r1 = claim_decision(o, wallet_mint_url, offer_unit_display, wallet_unit_display, wallet_unit, pubkey, now);
            let r2 = claim_decision(o2, wallet_mint_url, offer_unit_display, wallet_unit_display, wallet_unit, pubkey, now);
            &&& r1 is Err ==> r2 == r1
            &&& r1 is Ok <==> r2 is Ok
            &&& o.operation == OfferOperation::Melt ==> r2 == r1
            &&& (r1 matches Ok(ClaimRequestView::Mint { method, amount: a1, unit, ticket, pubkey: key }) ==> r2
                == Ok::<ClaimRequestView, ClaimError>(
                ClaimRequestView::Mint { method, amount, unit, ticket, pubkey: key },
            ))
        }),
{
}

} // verus!
