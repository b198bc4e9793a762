//! Quote offers: operator-prepared mint or melt operations that a wallet
//! claims by creating a quote of its own, exchanged as `cquoteA…` strings.
//!
//! The string form is the prefix `cquoteA` followed by the unpadded URL-safe
//! base64 of a CBOR map with single-letter keys.  The CBOR codec and the
//! base64 codec are outside crates (`ciborium`, `base64` through `bitcoin`);
//! the framing, the field mapping and the claim rules are verified here.

pub mod text;
pub mod wire;
pub mod codec;
pub mod offer;
pub mod ffi;
pub mod claim;
