//! The quote offer as handed across a foreign-function boundary: an
//! operation enum of its own, and an offer object with one getter per field.

use std::sync::Arc;
use vstd::prelude::*;
use crate::offer::{
    decode_offer_text, encode_offer_text, opt_text_view, result_view, Error, OfferOperation,
    QuoteOfferView,
};

verus! {

/// Operation of a quote offer.
#[derive(Debug, Clone, Copy, PartialEq, Eq, Structural)]
pub enum QuoteOfferOperation {
    /// The offer is claimed by creating a mint quote.
    Mint,
    /// The offer is claimed by creating a melt quote.
    Melt,
}

impl From<OfferOperation> for QuoteOfferOperation {
    fn from(operation: OfferOperation) -> (r: Self) {
        match operation {
            OfferOperation::Mint => QuoteOfferOperation::Mint,
            OfferOperation::Melt => QuoteOfferOperation::Melt,
        }
    }
}

impl vstd::std_specs::convert::FromSpecImpl<OfferOperation> for QuoteOfferOperation {
    open spec fn obeys_from_spec() -> bool {
        true
    }

    open spec fn from_spec(operation: OfferOperation) -> Self {
        to_ffi_operation(operation)
    }
}

impl From<QuoteOfferOperation> for OfferOperation {
    fn from(operation: QuoteOfferOperation) -> (r: Self) {
        match operation {
            QuoteOfferOperation::Mint => OfferOperation::Mint,
            QuoteOfferOperation::Melt => OfferOperation::Melt,
        }
    }
}

impl vstd::std_specs::convert::FromSpecImpl<QuoteOfferOperation> for OfferOperation {
    open spec fn obeys_from_spec() -> bool {
        true
    }

    open spec fn from_spec(operation: QuoteOfferOperation) -> Self {
        from_ffi_operation(operation)
    }
}

/// The operation that an offer's operation converts to.
pub open spec fn to_ffi_operation(operation: OfferOperation) -> QuoteOfferOperation {
    match operation {
        OfferOperation::Mint => QuoteOfferOperation::Mint,
        OfferOperation::Melt => QuoteOfferOperation::Melt,
    }
}

/// The offer operation that an operation converts back to.
pub open spec fn from_ffi_operation(operation: QuoteOfferOperation) -> OfferOperation {
    match operation {
        QuoteOfferOperation::Mint => OfferOperation::Mint,
        QuoteOfferOperation::Melt => OfferOperation::Melt,
    }
}

/// The two operation enums stand for the same operations: converting one
/// way and back gives the operation one started from.
pub proof fn law_operation_conversions_are_inverse(a: OfferOperation, b: QuoteOfferOperation)
    ensures
        from_ffi_operation(to_ffi_operation(a)) == a,
        to_ffi_operation(from_ffi_operation(b)) == b,
{
}


/// A quote offer, an operator-prepared mint or melt operation referencing
/// a single-use ticket, encoded as a string with the `cquoteA` prefix.
#[derive(Debug)]
pub struct QuoteOffer {
    inner: crate::offer::QuoteOffer,
}

impl View for QuoteOffer {
    type V = QuoteOfferView;

    closed spec fn view(&self) -> QuoteOfferView {
        self.inner@
    }
}

impl QuoteOffer {
    /// The offer inside.
    pub(crate) fn inner(&self) -> (r: &crate::offer::QuoteOffer)
        ensures
            r@ == self@,
    {
        &self.inner
    }

    /// Parses a quote offer from its encoded string representation.
    pub fn from_string(encoded: String) -> (r: Result<Arc<Self>, Error>)
        ensures
            match r {
                Ok(offer) => decode_offer_text(encoded@) == Ok::<QuoteOfferView, Error>(offer@),
                Err(e) => decode_offer_text(encoded@) == Err::<QuoteOfferView, Error>(e),
            },
    {
        match crate::offer::QuoteOffer::from_str(encoded.as_str()) {
            Ok(inner) => Ok(Arc::new(QuoteOffer { inner })),
            Err(e) => Err(e),
        }
    }

    /// Encodes the quote offer to a string.
    pub fn to_string_encoded(&self) -> (r: String)
        ensures
            r@ == encode_offer_text(self@),
            decode_offer_text(r@) == Ok::<QuoteOfferView, Error>(self@),
    {
        self.inner().to_string()
    }

    /// URL of the mint.
    pub fn mint_url(&self) -> (r: String)
        ensures
            r@ == self@.mint_url,
    {
        self.inner().mint_url.clone()
    }

    /// Operation of the offer.
    pub fn operation(&self) -> (r: QuoteOfferOperation)
        ensures
            r == to_ffi_operation(self@.operation),
    {
        self.inner().operation.into()
    }

    /// Payment method to use.
    pub fn method(&self) -> (r: String)
        ensures
            r@ == self@.method,
    {
        self.inner().method.clone()
    }

    /// Unit of the offer.
    pub fn unit(&self) -> (r: String)
        ensures
            r@ == self@.unit,
    {
        self.inner().unit.clone()
    }

    /// Amount of the offer, when set.
    pub fn amount(&self) -> (r: Option<u64>)
        ensures
            r == self@.amount,
    {
        self.inner().amount
    }

    /// Single-use ticket identifying the offered operation.
    pub fn ticket(&self) -> (r: String)
        ensures
            r@ == self@.ticket,
    {
        self.inner().ticket.clone()
    }

    /// Human readable description to display after scanning.
    pub fn description(&self) -> (r: Option<String>)
        ensures
            opt_text_view(r) == self@.description,
    {
        match &self.inner().description {
            Some(d) => Some(d.clone()),
            None => None,
        }
    }

    /// Unix timestamp until which the offer can be claimed.
    pub fn expiry(&self) -> (r: Option<u64>)
        ensures
            r == self@.expiry,
    {
        self.inner().expiry
    }
}

/// Decodes a quote offer from its encoded string representation.
pub fn decode_quote_offer(encoded: String) -> (r: Result<Arc<QuoteOffer>, Error>)
    ensures
        match r {
            Ok(offer) => decode_offer_text(encoded@) == Ok::<QuoteOfferView, Error>(offer@),
            Err(e) => decode_offer_text(encoded@) == Err::<QuoteOfferView, Error>(e),
        },
{
    QuoteOffer::from_string(encoded)
}

} // verus!
