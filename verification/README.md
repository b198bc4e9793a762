# quote_offer

Quote offers are operator-prepared mint or melt operations that a wallet
claims by creating a quote of its own, referencing a single-use ticket.  They
travel as `cquoteA` followed by the unpadded URL-safe base64 of a CBOR map
with single-letter keys (`m o h u a t d e`).  Reading also takes the
standard alphabet and any part of the `=` padding.

- `src/offer.rs`: the offer, its map entries, the string form, and the laws of
  the entries (round trip, unknown keys skipped, repeated fields refused).
- `src/claim.rs`: the checks before a claim and the quote request it makes;
  a mint request is locked to the public key it is given.
- `src/ffi.rs`: the offer object and operation enum handed across an FFI.
- `src/wire.rs`: the CBOR items that the offer is read from and written to.
- `src/codec.rs`: the trusted calls into `base64`, `ciborium` and std.
- `src/text.rs`: character-wise string helpers.
- `app/`: serde forms of the types, error messages, the clock, and the fresh
  key pair that locks a mint claim.
