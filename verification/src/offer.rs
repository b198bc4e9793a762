//! Quote offers: the offer itself, its fields as CBOR map entries, and the
//! `cquoteA…` string form.

use vstd::prelude::*;
use vstd::string::*;
use crate::codec::{
    base64_encoded, canonical_padding_len, decoded_bytes, decodes_canonical_forms,
    has_standard_only_char, is_base64_of,
    lemma_standard_is_url_safe, padding,
    base64_standard_decode, base64_standard_decoded, base64_url_decode, base64_url_decoded,
    base64_url_encode, base64_url_encoded, cbor_decode, cbor_decoded, cbor_encode_map,
    cbor_map_encoded,
};
use crate::text::{starts_with, str_eq, strip_prefix};
use crate::wire::{
    entries_view, lemma_map_view, read_back, written_view, WireItem, WireItemView, WireValue,
    WireValueView,
};
use vstd::utf8::encode_utf8;

verus! {

/// The text that every encoded quote offer starts with.
pub const QUOTE_OFFER_PREFIX: &'static str = "cquoteA";

/// The characters of the prefix constant.
proof fn lemma_prefix_literal()
    ensures
        QUOTE_OFFER_PREFIX@ == offer_prefix(),
{
    reveal_strlit("cquoteA");
    assert(QUOTE_OFFER_PREFIX@ =~= offer_prefix());
}

/// The characters of [`QUOTE_OFFER_PREFIX`].
pub open spec fn offer_prefix() -> Seq<char> {
    seq!['c', 'q', 'u', 'o', 't', 'e', 'A']
}

/// Why a text is not a quote offer.
#[derive(Debug, Clone, Copy, PartialEq, Eq, Structural)]
pub enum Error {
    /// The text does not start with `cquoteA`.
    InvalidPrefix,
    /// The payload is neither URL-safe nor standard base64.
    Base64Error,
    /// The decoded bytes are not CBOR, or not a CBOR map holding a quote offer.
    CiboriumError,
}

/// Operation of a quote offer (`o` field).
#[derive(Debug, Clone, Copy, PartialEq, Eq, Hash, Structural)]
pub enum OfferOperation {
    /// The offer is claimed by creating a mint quote.
    Mint,
    /// The offer is claimed by creating a melt quote.
    Melt,
}

/// A quote offer, prepared by an operator and handed to a wallet, which
/// claims it by creating a mint or melt quote that references [`Self::ticket`].
///
/// The mint URL, payment method and unit are held as their text.
#[derive(Debug, Clone, PartialEq, Eq, Hash)]
pub struct QuoteOffer {
    /// URL of the mint (`m`).
    pub mint_url: String,
    /// Operation of the offer (`o`).
    pub operation: OfferOperation,
    /// Payment method to use (`h`).
    pub method: String,
    /// Unit of the offer (`u`).
    pub unit: String,
    /// Amount of the offer (`a`), where the method's quote request needs one.
    pub amount: Option<u64>,
    /// Single-use ticket identifying the offered operation (`t`).
    pub ticket: String,
    /// Human readable description for the wallet to display (`d`).
    pub description: Option<String>,
    /// Unix timestamp until which the offer can be claimed (`e`).
    pub expiry: Option<u64>,
}

/// The mathematical form of a [`QuoteOffer`].
pub struct QuoteOfferView {
    pub mint_url: Seq<char>,
    pub operation: OfferOperation,
    pub method: Seq<char>,
    pub unit: Seq<char>,
    pub amount: Option<u64>,
    pub ticket: Seq<char>,
    pub description: Option<Seq<char>>,
    pub expiry: Option<u64>,
}

/// The view of an optional text.
pub open spec fn opt_text_view(s: Option<String>) -> Option<Seq<char>> {
    match s {
        Some(t) => Some(t@),
        None => None,
    }
}

impl View for QuoteOffer {
    type V = QuoteOfferView;

    open spec fn view(&self) -> QuoteOfferView {
        QuoteOfferView {
            mint_url: self.mint_url@,
            operation: self.operation,
            method: self.method@,
            unit: self.unit@,
            amount: self.amount,
            ticket: self.ticket@,
            description: opt_text_view(self.description),
            expiry: self.expiry,
        }
    }
}

/// The view of a decoding result.
pub open spec fn result_view(r: Result<QuoteOffer, Error>) -> Result<QuoteOfferView, Error> {
    match r {
        Ok(o) => Ok(o@),
        Err(e) => Err(e),
    }
}

// ---------------------------------------------------------------------------
// Reading CBOR items
// ---------------------------------------------------------------------------

/// An item without the tags around it: tags are skipped wherever an offer
/// is read, except where a value may be null and for the bignum tags.
pub open spec fn untagged(x: WireItemView) -> WireItemView
    decreases x,
{
    match x {
        WireItemView::Tag(_, inner) => untagged(*inner),
        _ => x,
    }
}

/// The longest key or variant name that is read, in bytes.
pub const MAX_NAME_BYTES: usize = 4096;

/// An item that names a key or a variant: after its tags, a text of at most
/// [`MAX_NAME_BYTES`] UTF-8 bytes, or a byte string of at most that many
/// bytes.  Anything else is refused.
pub open spec fn identifier(x: WireItemView) -> Option<WireItemView> {
    match untagged(x) {
        WireItemView::Text(s) => if encode_utf8(s).len() <= MAX_NAME_BYTES {
            Some(untagged(x))
        } else {
            None
        },
        WireItemView::Bytes(b) => if b.len() <= MAX_NAME_BYTES {
            Some(untagged(x))
        } else {
            None
        },
        _ => None,
    }
}

/// The fields of a quote offer, by the letter that keys them in the map.
#[derive(Debug, Clone, Copy, PartialEq, Eq, Structural)]
pub enum FieldName {
    MintUrl,
    Operation,
    Method,
    Unit,
    Amount,
    Ticket,
    Description,
    Expiry,
}

/// The field that a one-character key names.
pub open spec fn field_of_char(c: char) -> Option<FieldName> {
    if c == 'm' {
        Some(FieldName::MintUrl)
    } else if c == 'o' {
        Some(FieldName::Operation)
    } else if c == 'h' {
        Some(FieldName::Method)
    } else if c == 'u' {
        Some(FieldName::Unit)
    } else if c == 'a' {
        Some(FieldName::Amount)
    } else if c == 't' {
        Some(FieldName::Ticket)
    } else if c == 'd' {
        Some(FieldName::Description)
    } else if c == 'e' {
        Some(FieldName::Expiry)
    } else {
        None
    }
}

/// The field that a one-byte byte-string key names (the UTF-8 of its letter).
pub open spec fn field_of_byte(b: u8) -> Option<FieldName> {
    if b == 109 {
        Some(FieldName::MintUrl)
    } else if b == 111 {
        Some(FieldName::Operation)
    } else if b == 104 {
        Some(FieldName::Method)
    } else if b == 117 {
        Some(FieldName::Unit)
    } else if b == 97 {
        Some(FieldName::Amount)
    } else if b == 116 {
        Some(FieldName::Ticket)
    } else if b == 100 {
        Some(FieldName::Description)
    } else if b == 101 {
        Some(FieldName::Expiry)
    } else {
        None
    }
}

/// How a map key is read.
#[derive(Debug, Clone, Copy, PartialEq, Eq, Structural)]
pub enum KeyKind {
    /// The key names a field of the offer.
    Field(FieldName),
    /// A name that names no field: its entry is skipped.
    Unknown,
    /// Not a name (see [`identifier`]): the map is refused.
    Invalid,
}

/// How a key is read: a name of one letter names that field; another name
/// is unknown; anything that is not a name is invalid.
pub open spec fn key_kind(k: WireItemView) -> KeyKind {
    match identifier(k) {
        Some(WireItemView::Text(s)) => if s.len() == 1 && field_of_char(s[0]) is Some {
            KeyKind::Field(field_of_char(s[0])->0)
        } else {
            KeyKind::Unknown
        },
        Some(WireItemView::Bytes(b)) => if b.len() == 1 && field_of_byte(b[0]) is Some {
            KeyKind::Field(field_of_byte(b[0])->0)
        } else {
            KeyKind::Unknown
        },
        _ => KeyKind::Invalid,
    }
}

/// The text that names an operation.
pub open spec fn operation_name(op: OfferOperation) -> Seq<char> {
    match op {
        OfferOperation::Mint => seq!['m', 'i', 'n', 't'],
        OfferOperation::Melt => seq!['m', 'e', 'l', 't'],
    }
}

/// The UTF-8 bytes that name an operation.
pub open spec fn operation_bytes(op: OfferOperation) -> Seq<u8> {
    match op {
        OfferOperation::Mint => seq![109u8, 105u8, 110u8, 116u8],
        OfferOperation::Melt => seq![109u8, 101u8, 108u8, 116u8],
    }
}

/// The operation that a name (see [`identifier`]) names, as text or bytes.
pub open spec fn operation_of_name(id: WireItemView) -> Option<OfferOperation> {
    match id {
        WireItemView::Text(s) => if s == operation_name(OfferOperation::Mint) {
            Some(OfferOperation::Mint)
        } else if s == operation_name(OfferOperation::Melt) {
            Some(OfferOperation::Melt)
        } else {
            None
        },
        WireItemView::Bytes(b) => if b == operation_bytes(OfferOperation::Mint) {
            Some(OfferOperation::Mint)
        } else if b == operation_bytes(OfferOperation::Melt) {
            Some(OfferOperation::Melt)
        } else {
            None
        },
        _ => None,
    }
}

/// The operation's value, as the enum reader of `ciborium` takes it: after
/// its tags, the text `mint` or `melt`; or a map of one entry whose key
/// names the operation (as text or bytes).  The value of that entry is left
/// unread: it is returned, and the reading of the offer's map goes on from
/// it, as the next key.
pub open spec fn operation_value(v: WireItemView) -> Option<(OfferOperation, Option<WireItemView>)> {
    match untagged(v) {
        WireItemView::Text(_) => match identifier(v) {
            Some(id) => match operation_of_name(id) {
                Some(op) => Some((op, None)),
                None => None,
            },
            None => None,
        },
        WireItemView::CborMap(entries) => if entries.len() == 1 {
            match identifier(entries[0].0) {
                Some(id) => match operation_of_name(id) {
                    Some(op) => Some((op, Some(entries[0].1))),
                    None => None,
                },
                None => None,
            }
        } else {
            None
        },
        _ => None,
    }
}

/// The number that a byte string stands for, most significant byte first.
pub open spec fn big_endian(b: Seq<u8>) -> nat
    decreases b.len(),
{
    if b.len() == 0 {
        0
    } else {
        big_endian(b.drop_last()) * 256 + b.last() as nat
    }
}

/// The bignum tags of CBOR: positive and negative.
pub const TAG_BIGNUM_POSITIVE: u64 = 2;
pub const TAG_BIGNUM_NEGATIVE: u64 = 3;

/// An unsigned value: an integer from 0 to `u64::MAX`, or a positive
/// bignum (a byte string under tag 2) no larger; other tags are skipped; a
/// negative bignum (tag 3) is refused.
pub open spec fn uint_value(x: WireItemView) -> Option<u64>
    decreases x,
{
    match x {
        WireItemView::Integer(i) => if 0 <= i <= u64::MAX {
            Some(i as u64)
        } else {
            None
        },
        WireItemView::Tag(t, inner) => if t == TAG_BIGNUM_POSITIVE {
            match *inner {
                WireItemView::Bytes(b) => if big_endian(b) <= u64::MAX {
                    Some(big_endian(b) as u64)
                } else {
                    None
                },
                _ => None,
            }
        } else if t == TAG_BIGNUM_NEGATIVE {
            None
        } else {
            uint_value(*inner)
        },
        _ => None,
    }
}

/// A text value: after its tags, a text.
pub open spec fn text_value(v: WireItemView) -> Option<Seq<char>> {
    match untagged(v) {
        WireItemView::Text(s) => Some(s),
        _ => None,
    }
}

/// An optional unsigned value: an untagged null, or an unsigned value.
pub open spec fn opt_uint_value(v: WireItemView) -> Option<Option<u64>> {
    match v {
        WireItemView::Null => Some(None),
        _ => match uint_value(v) {
            Some(n) => Some(Some(n)),
            None => None,
        },
    }
}

/// An optional text value: an untagged null, or a text value.
pub open spec fn opt_text_value(v: WireItemView) -> Option<Option<Seq<char>>> {
    match v {
        WireItemView::Null => Some(None),
        _ => match text_value(v) {
            Some(s) => Some(Some(s)),
            None => None,
        },
    }
}

// ---------------------------------------------------------------------------
// Reading and writing the offer's map
// ---------------------------------------------------------------------------

/// The map entries that an offer is written as: keys `m o h u a t d e` in
/// this order, each with its field, the absent optional fields left out.
pub open spec fn offer_entries(o: QuoteOfferView) -> Seq<(Seq<char>, WireValueView)> {
    seq![
        (seq!['m'], WireValueView::Text(o.mint_url)),
        (seq!['o'], WireValueView::Text(operation_name(o.operation))),
        (seq!['h'], WireValueView::Text(o.method)),
        (seq!['u'], WireValueView::Text(o.unit)),
    ] + uint_entry('a', o.amount) + seq![(seq!['t'], WireValueView::Text(o.ticket))]
        + text_entry('d', o.description) + uint_entry('e', o.expiry)
}

/// The entry of an optional unsigned field: none where it is absent.
pub open spec fn uint_entry(c: char, v: Option<u64>) -> Seq<(Seq<char>, WireValueView)> {
    match v {
        Some(n) => seq![(seq![c], WireValueView::Uint(n))],
        None => Seq::empty(),
    }
}

/// The entry of an optional text field: none where it is absent.
pub open spec fn text_entry(c: char, v: Option<Seq<char>>) -> Seq<(Seq<char>, WireValueView)> {
    match v {
        Some(s) => seq![(seq![c], WireValueView::Text(s))],
        None => Seq::empty(),
    }
}

/// The fields read so far from a map: `None` for a field not yet seen;
/// an optional field seen as null is `Some(None)`.
pub struct Fields {
    pub mint_url: Option<Seq<char>>,
    pub operation: Option<OfferOperation>,
    pub method: Option<Seq<char>>,
    pub unit: Option<Seq<char>>,
    pub amount: Option<Option<u64>>,
    pub ticket: Option<Seq<char>>,
    pub description: Option<Option<Seq<char>>>,
    pub expiry: Option<Option<u64>>,
}

/// No field seen.
pub open spec fn no_fields() -> Fields {
    Fields {
        mint_url: None,
        operation: None,
        method: None,
        unit: None,
        amount: None,
        ticket: None,
        description: None,
        expiry: None,
    }
}

/// Whether a field has been seen already.
pub open spec fn seen(f: Fields, name: FieldName) -> bool {
    match name {
        FieldName::MintUrl => f.mint_url is Some,
        FieldName::Operation => f.operation is Some,
        FieldName::Method => f.method is Some,
        FieldName::Unit => f.unit is Some,
        FieldName::Amount => f.amount is Some,
        FieldName::Ticket => f.ticket is Some,
        FieldName::Description => f.description is Some,
        FieldName::Expiry => f.expiry is Some,
    }
}

/// Records the value of a field not seen before, with the item that the
/// value leaves unread (only an operation given as a map leaves one);
/// `None` where the value has the wrong kind.
pub open spec fn set_field(f: Fields, name: FieldName, v: WireItemView) -> Option<(Fields, Option<WireItemView>)> {
    match name {
        FieldName::MintUrl => match text_value(v) {
            Some(s) => Some((Fields { mint_url: Some(s), ..f }, None)),
            None => None,
        },
        FieldName::Operation => match operation_value(v) {
            Some((op, left)) => Some((Fields { operation: Some(op), ..f }, left)),
            None => None,
        },
        FieldName::Method => match text_value(v) {
            Some(s) => Some((Fields { method: Some(s), ..f }, None)),
            None => None,
        },
        FieldName::Unit => match text_value(v) {
            Some(s) => Some((Fields { unit: Some(s), ..f }, None)),
            None => None,
        },
        FieldName::Amount => match opt_uint_value(v) {
            Some(a) => Some((Fields { amount: Some(a), ..f }, None)),
            None => None,
        },
        FieldName::Ticket => match text_value(v) {
            Some(s) => Some((Fields { ticket: Some(s), ..f }, None)),
            None => None,
        },
        FieldName::Description => match opt_text_value(v) {
            Some(d) => Some((Fields { description: Some(d), ..f }, None)),
            None => None,
        },
        FieldName::Expiry => match opt_uint_value(v) {
            Some(e) => Some((Fields { expiry: Some(e), ..f }, None)),
            None => None,
        },
    }
}

/// Reads one key and its value: an invalid key, a field seen twice, or a
/// value of the wrong kind refuses the map; an unknown key is skipped with
/// its value.
pub open spec fn read_entry(f: Fields, k: WireItemView, v: WireItemView) -> Option<(Fields, Option<WireItemView>)> {
    match key_kind(k) {
        KeyKind::Invalid => None,
        KeyKind::Unknown => Some((f, None)),
        KeyKind::Field(name) => if seen(f, name) {
            None
        } else {
            set_field(f, name, v)
        },
    }
}

/// The items of map entries in the order they are stored: key, value, key,
/// value, ...
pub open spec fn flatten(entries: Seq<(WireItemView, WireItemView)>) -> Seq<WireItemView> {
    Seq::new(
        2 * entries.len(),
        |i: int|
            if i % 2 == 0 {
                entries[i / 2].0
            } else {
                entries[i / 2].1
            },
    )
}

/// Reads `count` more entries from a stream of items, as `ciborium` reads a
/// map of that many entries: a key, then its value; an item that a value
/// leaves unread is the next one read.  Items past the last entry are not
/// read.
pub open spec fn read_stream(f: Fields, count: nat, stream: Seq<WireItemView>) -> Option<Fields>
    decreases count,
{
    if count == 0 {
        Some(f)
    } else if stream.len() < 2 {
        None
    } else {
        match read_entry(f, stream[0], stream[1]) {
            Some((g, None)) => read_stream(g, (count - 1) as nat, stream.skip(2)),
            Some((g, Some(x))) => read_stream(g, (count - 1) as nat, seq![x] + stream.skip(2)),
            None => None,
        }
    }
}

/// Reads a map's entries.
pub open spec fn read_entries(entries: Seq<(WireItemView, WireItemView)>) -> Option<Fields> {
    read_stream(no_fields(), entries.len(), flatten(entries))
}

/// The offer that the fields make: the fields `m o h u t` are required,
/// `a d e` default to absent.
pub open spec fn finish_fields(f: Fields) -> Option<QuoteOfferView> {
    if f.mint_url is Some && f.operation is Some && f.method is Some && f.unit is Some
        && f.ticket is Some {
        Some(
            QuoteOfferView {
                mint_url: f.mint_url->0,
                operation: f.operation->0,
                method: f.method->0,
                unit: f.unit->0,
                amount: match f.amount {
                    Some(a) => a,
                    None => None,
                },
                ticket: f.ticket->0,
                description: match f.description {
                    Some(d) => d,
                    None => None,
                },
                expiry: match f.expiry {
                    Some(e) => e,
                    None => None,
                },
            },
        )
    } else {
        None
    }
}

/// The offer that a map's entries hold, if any.
pub open spec fn offer_from_entries(entries: Seq<(WireItemView, WireItemView)>) -> Option<QuoteOfferView> {
    match read_entries(entries) {
        Some(f) => finish_fields(f),
        None => None,
    }
}

/// The offer that a CBOR item holds: after its tags, a map.
pub open spec fn offer_from_item(x: WireItemView) -> Option<QuoteOfferView> {
    match untagged(x) {
        WireItemView::CborMap(entries) => offer_from_entries(entries),
        _ => None,
    }
}

/// An entry that gives the operation as a map, which leaves an item unread.
pub open spec fn map_form(e: (WireItemView, WireItemView)) -> bool {
    key_kind(e.0) == KeyKind::Field(FieldName::Operation) && untagged(e.1) is CborMap
}

/// No entry gives the operation as a map.
pub open spec fn no_map_form(s: Seq<(WireItemView, WireItemView)>) -> bool {
    forall|i: int| 0 <= i < s.len() ==> !map_form(#[trigger] s[i])
}

/// One entry read on its own: `None` where it refuses the map or leaves an
/// item unread.
pub open spec fn step(f: Fields, e: (WireItemView, WireItemView)) -> Option<Fields> {
    match read_entry(f, e.0, e.1) {
        Some((g, None)) => Some(g),
        _ => None,
    }
}

/// Reads entries one after the other, from the first.
pub open spec fn fold_entries(f: Fields, s: Seq<(WireItemView, WireItemView)>) -> Option<Fields>
    decreases s.len(),
{
    if s.len() == 0 {
        Some(f)
    } else {
        match step(f, s[0]) {
            Some(g) => fold_entries(g, s.skip(1)),
            None => None,
        }
    }
}

// ---------------------------------------------------------------------------
// Lemmas and laws of the map
// ---------------------------------------------------------------------------

/// A text takes at most four UTF-8 bytes per character.
pub proof fn lemma_utf8_len_bound(s: Seq<char>)
    ensures
        encode_utf8(s).len() <= 4 * s.len(),
    decreases s.len(),
{
    if s.len() > 0 {
        lemma_utf8_len_bound(s.drop_first());
        assert(vstd::utf8::encode_scalar(s[0] as u32).len() <= 4);
    }
}

/// An entry that does not give the operation as a map leaves no item unread.
pub proof fn lemma_plain_entry(f: Fields, e: (WireItemView, WireItemView))
    requires
        !map_form(e),
    ensures
        read_entry(f, e.0, e.1) matches Some((g, left)) ==> left is None,
{
}

/// The items of two runs of entries are those of the first, then those of
/// the second.
pub proof fn lemma_flatten_concat(a: Seq<(WireItemView, WireItemView)>, b: Seq<(WireItemView, WireItemView)>)
    ensures
        flatten(a + b) == flatten(a) + flatten(b),
{
    assert(flatten(a + b) =~= flatten(a) + flatten(b));
}

/// Reading entries that do not give the operation as a map, then the rest
/// of the stream.
pub proof fn lemma_stream_prefix(f: Fields, a: Seq<(WireItemView, WireItemView)>, n: nat, tail: Seq<WireItemView>)
    requires
        no_map_form(a),
    ensures
        read_stream(f, a.len() + n, flatten(a) + tail) == (match fold_entries(f, a) {
            Some(g) => read_stream(g, n, tail),
            None => None,
        }),
    decreases a.len(),
{
    if a.len() == 0 {
        assert(flatten(a) + tail =~= tail);
    } else {
        let st = flatten(a) + tail;
        let rest = a.skip(1);
        assert(st[0] == a[0].0);
        assert(st[1] == a[0].1);
        assert(st.skip(2) =~= flatten(rest) + tail);
        assert(!map_form(a[0]));
        lemma_plain_entry(f, a[0]);
        assert forall|i: int| 0 <= i < rest.len() implies !map_form(#[trigger] rest[i]) by {
            assert(rest[i] == a[i + 1]);
        }
        match step(f, a[0]) {
            Some(g) => {
                lemma_stream_prefix(g, rest, n, tail);
                assert((a.len() + n - 1) as nat == rest.len() + n);
            },
            None => {},
        }
    }
}

/// Reading two runs of entries one after the other.
pub proof fn lemma_fold_concat(f: Fields, a: Seq<(WireItemView, WireItemView)>, b: Seq<(WireItemView, WireItemView)>)
    ensures
        fold_entries(f, a + b) == (match fold_entries(f, a) {
            Some(g) => fold_entries(g, b),
            None => None,
        }),
    decreases a.len(),
{
    if a.len() > 0 {
        assert((a + b)[0] == a[0]);
        assert((a + b).skip(1) =~= a.skip(1) + b);
        match step(f, a[0]) {
            Some(g) => lemma_fold_concat(g, a.skip(1), b),
            None => {},
        }
    } else {
        assert(a + b =~= b);
    }
}

/// Reading one more entry.
pub proof fn lemma_fold_push(f: Fields, s: Seq<(WireItemView, WireItemView)>, e: (WireItemView, WireItemView))
    ensures
        fold_entries(f, s.push(e)) == (match fold_entries(f, s) {
            Some(g) => step(g, e),
            None => None,
        }),
{
    let one = seq![e];
    assert(s.push(e) =~= s + one);
    lemma_fold_concat(f, s, one);
    match fold_entries(f, s) {
        Some(g) => {
            assert(one[0] == e);
            assert(one.skip(1) =~= Seq::<(WireItemView, WireItemView)>::empty());
            if let Some(h) = step(g, e) {
                assert(fold_entries(h, Seq::<(WireItemView, WireItemView)>::empty()) == Some(h));
            }
            assert(fold_entries(g, one) == step(g, e));
        },
        None => {},
    }
}

/// A map whose entries do not give the operation as a map is read entry
/// after entry.
pub proof fn lemma_read_entries_fold(s: Seq<(WireItemView, WireItemView)>)
    requires
        no_map_form(s),
    ensures
        read_entries(s) == fold_entries(no_fields(), s),
{
    lemma_stream_prefix(no_fields(), s, 0, Seq::empty());
    assert(flatten(s) + Seq::<WireItemView>::empty() =~= flatten(s));
}

/// Reading more entries never unsets a field.
pub proof fn lemma_field_stays_seen(f: Fields, s: Seq<(WireItemView, WireItemView)>, name: FieldName)
    requires
        seen(f, name),
    ensures
        fold_entries(f, s) matches Some(g) ==> seen(g, name),
    decreases s.len(),
{
    if s.len() > 0 {
        match step(f, s[0]) {
            Some(g) => lemma_field_stays_seen(g, s.skip(1), name),
            None => {},
        }
    }
}

/// An operation is read back from its name.
pub proof fn lemma_operation_name(op: OfferOperation)
    ensures
        operation_value(WireItemView::Text(operation_name(op))) == Some((op, None::<WireItemView>)),
{
    let s = operation_name(op);
    lemma_utf8_len_bound(s);
    assert(operation_name(OfferOperation::Mint)[1] != operation_name(OfferOperation::Melt)[1]);
}

/// Reading the map that an offer is written as gives the offer back.
pub proof fn lemma_entries_round_trip(o: QuoteOfferView)
    ensures
        offer_from_item(WireItemView::CborMap(read_back(offer_entries(o)))) == Some(o),
{
    lemma_operation_name(o.operation);
    let w = offer_entries(o);
    let s = read_back(w);
    let t = |c: char| WireItemView::Text(seq![c]);
    assert forall|c: char| encode_utf8(#[trigger] seq![c]).len() <= MAX_NAME_BYTES by {
        lemma_utf8_len_bound(seq![c]);
    }
    let f0 = no_fields();
    let e0 = Seq::<(WireItemView, WireItemView)>::empty();
    let s1 = e0.push((t('m'), WireItemView::Text(o.mint_url)));
    let s2 = s1.push((t('o'), WireItemView::Text(operation_name(o.operation))));
    let s3 = s2.push((t('h'), WireItemView::Text(o.method)));
    let s4 = s3.push((t('u'), WireItemView::Text(o.unit)));
    lemma_fold_push(f0, e0, (t('m'), WireItemView::Text(o.mint_url)));
    lemma_fold_push(f0, s1, (t('o'), WireItemView::Text(operation_name(o.operation))));
    lemma_fold_push(f0, s2, (t('h'), WireItemView::Text(o.method)));
    lemma_fold_push(f0, s3, (t('u'), WireItemView::Text(o.unit)));
    let s5 = if let Some(n) = o.amount {
        lemma_fold_push(f0, s4, (t('a'), WireItemView::Integer(n as i128)));
        s4.push((t('a'), WireItemView::Integer(n as i128)))
    } else {
        s4
    };
    let s6 = s5.push((t('t'), WireItemView::Text(o.ticket)));
    lemma_fold_push(f0, s5, (t('t'), WireItemView::Text(o.ticket)));
    let s7 = if let Some(d) = o.description {
        lemma_fold_push(f0, s6, (t('d'), WireItemView::Text(d)));
        s6.push((t('d'), WireItemView::Text(d)))
    } else {
        s6
    };
    let s8 = if let Some(n) = o.expiry {
        lemma_fold_push(f0, s7, (t('e'), WireItemView::Integer(n as i128)));
        s7.push((t('e'), WireItemView::Integer(n as i128)))
    } else {
        s7
    };
    assert(s =~= s8);
    assert forall|i: int| 0 <= i < s.len() implies !map_form(#[trigger] s[i]) by {}
    lemma_read_entries_fold(s);
}

/// Reads one more entry, after a read that may have refused the map.
pub open spec fn then_step(r: Option<Fields>, e: (WireItemView, WireItemView)) -> Option<Fields> {
    match r {
        Some(g) => step(g, e),
        None => None,
    }
}

/// Two entries, neither giving the operation as a map, read in either
/// order give the same: different fields are set apart, the same field
/// twice is refused either way, and an unknown key changes nothing.
pub proof fn lemma_steps_commute(f: Fields, a: (WireItemView, WireItemView), b: (WireItemView, WireItemView))
    requires
        !map_form(a),
        !map_form(b),
    ensures
        then_step(step(f, a), b) == then_step(step(f, b), a),
{
}

/// Reading an entry, then the rest.
pub proof fn lemma_fold_cons(f: Fields, x: (WireItemView, WireItemView), t: Seq<(WireItemView, WireItemView)>)
    ensures
        fold_entries(f, seq![x] + t) == (match step(f, x) {
            Some(g) => fold_entries(g, t),
            None => None,
        }),
{
    assert((seq![x] + t)[0] == x);
    assert((seq![x] + t).skip(1) =~= t);
}

/// Two entries read first can be read in the other order.
pub proof fn lemma_swap_front(
    f: Fields,
    x: (WireItemView, WireItemView),
    e: (WireItemView, WireItemView),
    r: Seq<(WireItemView, WireItemView)>,
)
    requires
        !map_form(x),
        !map_form(e),
    ensures
        fold_entries(f, seq![x, e] + r) == fold_entries(f, seq![e, x] + r),
{
    assert(seq![x, e] + r =~= seq![x] + (seq![e] + r));
    assert(seq![e, x] + r =~= seq![e] + (seq![x] + r));
    lemma_fold_cons(f, x, seq![e] + r);
    lemma_fold_cons(f, e, seq![x] + r);
    lemma_steps_commute(f, x, e);
    if let Some(g) = step(f, x) {
        lemma_fold_cons(g, e, r);
    }
    if let Some(g) = step(f, e) {
        lemma_fold_cons(g, x, r);
    }
}

/// An entry can be read first instead of after others.
pub proof fn lemma_move_to_front(
    f: Fields,
    a: Seq<(WireItemView, WireItemView)>,
    e: (WireItemView, WireItemView),
    b: Seq<(WireItemView, WireItemView)>,
)
    requires
        no_map_form(a),
        !map_form(e),
    ensures
        fold_entries(f, a + seq![e] + b) == fold_entries(f, seq![e] + a + b),
    decreases a.len(),
{
    if a.len() == 0 {
        assert(a + seq![e] + b =~= seq![e] + a + b);
    } else {
        let x = a[0];
        let rest = a.skip(1);
        assert(!map_form(a[0]));
        assert forall|i: int| 0 <= i < rest.len() implies !map_form(#[trigger] rest[i]) by {
            assert(rest[i] == a[i + 1]);
        }
        assert(a + seq![e] + b =~= seq![x] + (rest + seq![e] + b));
        lemma_fold_cons(f, x, rest + seq![e] + b);
        if let Some(g) = step(f, x) {
            lemma_move_to_front(g, rest, e, b);
        }
        assert(seq![x] + (seq![e] + rest + b) =~= seq![x, e] + (rest + b));
        lemma_fold_cons(f, x, seq![e] + rest + b);
        lemma_swap_front(f, x, e, rest + b);
        assert(seq![e, x] + (rest + b) =~= seq![e] + a + b);
    }
}

/// Entries that hold the same entries as others, in some order, give no
/// operation as a map if the others give none.
pub proof fn lemma_no_map_form_of_reordering(s1: Seq<(WireItemView, WireItemView)>, s2: Seq<(WireItemView, WireItemView)>)
    requires
        no_map_form(s1),
        s1.to_multiset() == s2.to_multiset(),
    ensures
        no_map_form(s2),
{
    broadcast use vstd::seq_lib::group_to_multiset_ensures;

    assert forall|i: int| 0 <= i < s2.len() implies !map_form(#[trigger] s2[i]) by {
        assert(s2.contains(s2[i]));
        assert(s2.to_multiset().count(s2[i]) > 0);
        assert(s1.contains(s2[i]));
        let k = choose|k: int| 0 <= k < s1.len() && s1[k] == s2[i];
        assert(!map_form(s1[k]));
    }
}

/// Reading entries in another order gives the same.
pub proof fn lemma_fold_reordering(f: Fields, s1: Seq<(WireItemView, WireItemView)>, s2: Seq<(WireItemView, WireItemView)>)
    requires
        no_map_form(s1),
        s1.to_multiset() == s2.to_multiset(),
    ensures
        fold_entries(f, s1) == fold_entries(f, s2),
    decreases s1.len(),
{
    broadcast use vstd::seq_lib::group_to_multiset_ensures;

    lemma_no_map_form_of_reordering(s1, s2);
    if s1.len() == 0 {
        assert(s2.len() == s2.to_multiset().len());
        assert(s2 =~= s1);
    } else {
        let e = s1[0];
        assert(s1.contains(e));
        assert(s1.to_multiset().count(e) > 0);
        assert(s2.contains(e));
        let j = choose|j: int| 0 <= j < s2.len() && s2[j] == e;
        let r = s2.remove(j);
        let t1 = s1.skip(1);
        assert(s1.remove(0) =~= t1);
        assert(r.to_multiset() == s2.to_multiset().remove(e));
        assert(t1.to_multiset() == s1.to_multiset().remove(s1[0]));
        assert forall|i: int| 0 <= i < t1.len() implies !map_form(#[trigger] t1[i]) by {
            assert(t1[i] == s1[i + 1]);
        }
        let a = s2.take(j);
        let b = s2.skip(j + 1);
        assert forall|i: int| 0 <= i < a.len() implies !map_form(#[trigger] a[i]) by {
            assert(a[i] == s2[i]);
        }
        assert(s2 =~= a + seq![e] + b);
        assert(!map_form(e));
        lemma_move_to_front(f, a, e, b);
        assert(seq![e] + a + b =~= seq![e] + r);
        assert(s1 =~= seq![e] + t1);
        lemma_fold_cons(f, e, r);
        lemma_fold_cons(f, e, t1);
        if let Some(g) = step(f, e) {
            lemma_fold_reordering(g, t1, r);
        }
    }
}

/// The order of a map's entries does not matter: a map holding the same
/// entries as another, in any order, is read as the same offer, where no
/// entry gives the operation as a map.  In particular a field is refused
/// as repeated only when its own key came before, never because of the
/// place of another field.
pub proof fn law_entry_order_does_not_matter(s1: Seq<(WireItemView, WireItemView)>, s2: Seq<(WireItemView, WireItemView)>)
    requires
        no_map_form(s1),
        s1.to_multiset() == s2.to_multiset(),
    ensures
        read_entries(s1) == read_entries(s2),
        offer_from_entries(s1) == offer_from_entries(s2),
{
    lemma_no_map_form_of_reordering(s1, s2);
    lemma_read_entries_fold(s1);
    lemma_read_entries_fold(s2);
    lemma_fold_reordering(no_fields(), s1, s2);
}

/// The written map names the operation, under its second key `o`, by its
/// lowercase name: the text `mint` for a mint offer, `melt` for a melt
/// offer, which every reader of the format knows.  The first key is `m`,
/// holding the mint's URL.
pub proof fn law_operation_is_written_by_its_lowercase_name(o: QuoteOfferView)
    ensures
        offer_entries(o).len() >= 4,
        offer_entries(o)[0] == (seq!['m'], WireValueView::Text(o.mint_url)),
        o.operation == OfferOperation::Mint ==> offer_entries(o)[1] == (
            seq!['o'],
            WireValueView::Text(seq!['m', 'i', 'n', 't']),
        ),
        o.operation == OfferOperation::Melt ==> offer_entries(o)[1] == (
            seq!['o'],
            WireValueView::Text(seq!['m', 'e', 'l', 't']),
        ),
{
}

/// Entries under keys that name no field do not change what a map is read
/// as, whatever their values, wherever they stand before any operation
/// given as a map: a later revision of the format may add keys, and
/// readers of this one skip them.  (After an operation given as a map, the
/// entries are read shifted by one item, so an added entry changes them.)
pub proof fn law_unknown_keys_are_skipped(
    before: Seq<(WireItemView, WireItemView)>,
    k: WireItemView,
    v: WireItemView,
    after: Seq<(WireItemView, WireItemView)>,
)
    requires
        key_kind(k) is Unknown,
        no_map_form(before),
    ensures
        read_entries(before + seq![(k, v)] + after) == read_entries(before + after),
        offer_from_entries(before + seq![(k, v)] + after) == offer_from_entries(before + after),
{
    let x = seq![(k, v)];
    let a = before + x;
    assert forall|i: int| 0 <= i < a.len() implies !map_form(#[trigger] a[i]) by {
        if i < before.len() {
            assert(a[i] == before[i]);
        }
    }
    lemma_flatten_concat(a, after);
    lemma_flatten_concat(before, after);
    lemma_stream_prefix(no_fields(), a, after.len(), flatten(after));
    lemma_stream_prefix(no_fields(), before, after.len(), flatten(after));
    lemma_fold_push(no_fields(), before, (k, v));
    assert(before.push((k, v)) =~= a);
    assert((a + after).len() == a.len() + after.len());
    assert((before + after).len() == before.len() + after.len());
}

/// A map in which a field comes twice, before any operation given as a
/// map, holds no offer.
pub proof fn law_repeated_field_is_refused(
    before: Seq<(WireItemView, WireItemView)>,
    k1: WireItemView,
    v1: WireItemView,
    middle: Seq<(WireItemView, WireItemView)>,
    k2: WireItemView,
    v2: WireItemView,
    after: Seq<(WireItemView, WireItemView)>,
)
    requires
        key_kind(k1) is Field,
        key_kind(k2) == key_kind(k1),
        no_map_form(before + seq![(k1, v1)] + middle),
    ensures
        offer_from_entries(before + seq![(k1, v1)] + middle + seq![(k2, v2)] + after) is None,
{
    let name = key_kind(k1)->0;
    let a = before + seq![(k1, v1)] + middle;
    let b = seq![(k2, v2)] + after;
    let s = before + seq![(k1, v1)] + middle + seq![(k2, v2)] + after;
    assert(s =~= a + b);
    lemma_flatten_concat(a, b);
    lemma_stream_prefix(no_fields(), a, b.len(), flatten(b));
    assert(a =~= before.push((k1, v1)) + middle);
    lemma_fold_concat(no_fields(), before.push((k1, v1)), middle);
    lemma_fold_push(no_fields(), before, (k1, v1));
    match fold_entries(no_fields(), before.push((k1, v1))) {
        Some(g) => {
            lemma_field_stays_seen(g, middle, name);
        },
        None => {},
    }
    assert(flatten(b)[0] == k2);
    assert(flatten(b)[1] == v2);
}

/// Tags around the offer's map, such as the self-describing CBOR tag, do
/// not change what it is read as.
pub proof fn law_tags_around_the_map_are_skipped(t: u64, x: WireItemView)
    ensures
        offer_from_item(WireItemView::Tag(t, Box::new(x))) == offer_from_item(x),
{
}

// ---------------------------------------------------------------------------
// Reading and writing the map, in executable form
// ---------------------------------------------------------------------------

/// The fields read so far, in executable form.
struct FieldsExec {
    mint_url: Option<String>,
    operation: Option<OfferOperation>,
    method: Option<String>,
    unit: Option<String>,
    amount: Option<Option<u64>>,
    ticket: Option<String>,
    description: Option<Option<String>>,
    expiry: Option<Option<u64>>,
}

impl View for FieldsExec {
    type V = Fields;

    closed spec fn view(&self) -> Fields {
        Fields {
            mint_url: opt_text_view(self.mint_url),
            operation: self.operation,
            method: opt_text_view(self.method),
            unit: opt_text_view(self.unit),
            amount: self.amount,
            ticket: opt_text_view(self.ticket),
            description: match self.description {
                Some(d) => Some(opt_text_view(d)),
                None => None,
            },
            expiry: self.expiry,
        }
    }
}

/// The view of optional fields.
spec fn opt_fields_view(f: Option<FieldsExec>) -> Option<Fields> {
    match f {
        Some(g) => Some(g@),
        None => None,
    }
}

/// The view of an optional offer.
pub open spec fn opt_offer_view(o: Option<QuoteOffer>) -> Option<QuoteOfferView> {
    match o {
        Some(q) => Some(q@),
        None => None,
    }
}

/// An item without the tags around it (see [`untagged`]).
pub fn untag(x: &WireItem) -> (r: &WireItem)
    ensures
        r@ == untagged(x@),
    decreases x,
{
    match x {
        WireItem::Tag(_, inner) => untag(inner),
        _ => x,
    }
}

/// The name that an item is, if it is one (see [`identifier`]).
fn name_of(x: &WireItem) -> (r: Option<&WireItem>)
    ensures
        match r {
            Some(y) => identifier(x@) == Some(y@),
            None => identifier(x@) is None,
        },
{
    let y = untag(x);
    match y {
        WireItem::Text(s) => {
            if s.as_str().as_bytes().len() <= MAX_NAME_BYTES {
                Some(y)
            } else {
                None
            }
        },
        WireItem::Bytes(b) => {
            if b.len() <= MAX_NAME_BYTES {
                Some(y)
            } else {
                None
            }
        },
        _ => None,
    }
}

fn field_of_char_exec(c: char) -> (r: Option<FieldName>)
    ensures
        r == field_of_char(c),
{
    if c == 'm' {
        Some(FieldName::MintUrl)
    } else if c == 'o' {
        Some(FieldName::Operation)
    } else if c == 'h' {
        Some(FieldName::Method)
    } else if c == 'u' {
        Some(FieldName::Unit)
    } else if c == 'a' {
        Some(FieldName::Amount)
    } else if c == 't' {
        Some(FieldName::Ticket)
    } else if c == 'd' {
        Some(FieldName::Description)
    } else if c == 'e' {
        Some(FieldName::Expiry)
    } else {
        None
    }
}

fn field_of_byte_exec(b: u8) -> (r: Option<FieldName>)
    ensures
        r == field_of_byte(b),
{
    if b == 109 {
        Some(FieldName::MintUrl)
    } else if b == 111 {
        Some(FieldName::Operation)
    } else if b == 104 {
        Some(FieldName::Method)
    } else if b == 117 {
        Some(FieldName::Unit)
    } else if b == 97 {
        Some(FieldName::Amount)
    } else if b == 116 {
        Some(FieldName::Ticket)
    } else if b == 100 {
        Some(FieldName::Description)
    } else if b == 101 {
        Some(FieldName::Expiry)
    } else {
        None
    }
}

/// How a map key is read (see [`key_kind`]).
pub fn read_key(k: &WireItem) -> (r: KeyKind)
    ensures
        r == key_kind(k@),
{
    match name_of(k) {
        Some(WireItem::Text(s)) => {
            let t = s.as_str();
            if t.unicode_len() == 1 {
                match field_of_char_exec(t.get_char(0)) {
                    Some(name) => KeyKind::Field(name),
                    None => KeyKind::Unknown,
                }
            } else {
                KeyKind::Unknown
            }
        },
        Some(WireItem::Bytes(b)) => {
            if b.len() == 1 {
                match field_of_byte_exec(b[0]) {
                    Some(name) => KeyKind::Field(name),
                    None => KeyKind::Unknown,
                }
            } else {
                KeyKind::Unknown
            }
        },
        _ => KeyKind::Invalid,
    }
}

/// The characters of the two operation names.
proof fn lemma_operation_literals()
    ensures
        "mint"@ == operation_name(OfferOperation::Mint),
        "melt"@ == operation_name(OfferOperation::Melt),
{
    reveal_strlit("mint");
    reveal_strlit("melt");
    assert("mint"@ =~= operation_name(OfferOperation::Mint));
    assert("melt"@ =~= operation_name(OfferOperation::Melt));
}

fn operation_of_name_exec(id: &WireItem) -> (r: Option<OfferOperation>)
    ensures
        r == operation_of_name(id@),
{
    proof {
        lemma_operation_literals();
    }
    match id {
        WireItem::Text(s) => {
            if str_eq(s.as_str(), "mint") {
                Some(OfferOperation::Mint)
            } else if str_eq(s.as_str(), "melt") {
                Some(OfferOperation::Melt)
            } else {
                None
            }
        },
        WireItem::Bytes(b) => {
            if b.len() == 4 && b[0] == 109 && b[1] == 105 && b[2] == 110 && b[3] == 116 {
                proof {
                    assert(b@ =~= operation_bytes(OfferOperation::Mint));
                }
                Some(OfferOperation::Mint)
            } else if b.len() == 4 && b[0] == 109 && b[1] == 101 && b[2] == 108 && b[3] == 116 {
                proof {
                    assert(b@ =~= operation_bytes(OfferOperation::Melt));
                }
                Some(OfferOperation::Melt)
            } else {
                None
            }
        },
        _ => None,
    }
}

/// The view of an item left unread.
spec fn left_view(left: Option<&WireItem>) -> Option<WireItemView> {
    match left {
        Some(x) => Some(x@),
        None => None,
    }
}

fn operation_value_exec<'a>(v: &'a WireItem) -> (r: Option<(OfferOperation, Option<&'a WireItem>)>)
    ensures
        match r {
            Some((op, left)) => operation_value(v@) == Some((op, left_view(left))),
            None => operation_value(v@) is None,
        },
{
    match untag(v) {
        WireItem::Text(_) => match name_of(v) {
            Some(id) => match operation_of_name_exec(id) {
                Some(op) => Some((op, None)),
                None => None,
            },
            None => None,
        },
        WireItem::CborMap(entries) => {
            proof {
                lemma_map_view(*entries);
            }
            if entries.len() == 1 {
                match name_of(&entries[0].0) {
                    Some(id) => match operation_of_name_exec(id) {
                        Some(op) => Some((op, Some(&entries[0].1))),
                        None => None,
                    },
                    None => None,
                }
            } else {
                None
            }
        },
        _ => None,
    }
}

/// The number that grows from a byte string as bytes are added at its end.
proof fn lemma_big_endian_grows(b: Seq<u8>, i: int)
    requires
        0 <= i <= b.len(),
    ensures
        big_endian(b.take(i)) <= big_endian(b),
    decreases b.len() - i,
{
    if i < b.len() {
        assert(b.take(i + 1).drop_last() =~= b.take(i));
        lemma_big_endian_grows(b, i + 1);
    } else {
        assert(b.take(i) =~= b);
    }
}

/// The number that a byte string stands for, where it fits `u64`.
fn big_endian_exec(b: &Vec<u8>) -> (r: Option<u64>)
    ensures
        match r {
            Some(n) => big_endian(b@) == n,
            None => big_endian(b@) > u64::MAX,
        },
{
    let mut acc: u64 = 0;
    let mut i: usize = 0;
    proof {
        assert(b@.take(0) =~= Seq::<u8>::empty());
    }
    while i < b.len()
        invariant
            i <= b@.len(),
            acc == big_endian(b@.take(i as int)),
        decreases b@.len() - i,
    {
        let byte = b[i];
        proof {
            assert(b@.take(i + 1).drop_last() =~= b@.take(i as int));
        }
        if acc > (u64::MAX - byte as u64) / 256 {
            proof {
                assert(acc * 256 + byte > u64::MAX) by (nonlinear_arith)
                    requires
                        acc > (u64::MAX - byte as u64) / 256,
                        byte <= 255,
                ;
                lemma_big_endian_grows(b@, i + 1);
            }
            return None;
        }
        proof {
            assert(acc * 256 + byte <= u64::MAX) by (nonlinear_arith)
                requires
                    acc <= (u64::MAX - byte as u64) / 256,
                    byte <= 255,
            ;
        }
        acc = acc * 256 + byte as u64;
        i += 1;
    }
    proof {
        assert(b@.take(i as int) =~= b@);
    }
    Some(acc)
}

/// An unsigned value (see [`uint_value`]).
fn uint_value_exec(x: &WireItem) -> (r: Option<u64>)
    ensures
        r == uint_value(x@),
    decreases x,
{
    match x {
        WireItem::Integer(i) => {
            let i: i128 = *i;
            if 0 <= i && i <= 0xffff_ffff_ffff_ffffi128 {
                Some(i as u64)
            } else {
                None
            }
        },
        WireItem::Tag(t, inner) => {
            let inner: &WireItem = inner;
            proof {
                assert(x@ == WireItemView::Tag(*t, Box::new(inner@)));
            }
            if *t == TAG_BIGNUM_POSITIVE {
                match inner {
                    WireItem::Bytes(b) => {
                        proof {
                            assert(inner@ == WireItemView::Bytes(b@));
                        }
                        big_endian_exec(b)
                    },
                    _ => None,
                }
            } else if *t == TAG_BIGNUM_NEGATIVE {
                None
            } else {
                uint_value_exec(inner)
            }
        },
        _ => None,
    }
}

fn text_value_exec(v: &WireItem) -> (r: Option<String>)
    ensures
        opt_text_view(r) == text_value(v@),
{
    match untag(v) {
        WireItem::Text(s) => Some(s.clone()),
        _ => None,
    }
}

fn opt_uint_value_exec(v: &WireItem) -> (r: Option<Option<u64>>)
    ensures
        r == opt_uint_value(v@),
{
    match v {
        WireItem::Null => Some(None),
        _ => match uint_value_exec(v) {
            Some(n) => Some(Some(n)),
            None => None,
        },
    }
}

fn opt_text_value_exec(v: &WireItem) -> (r: Option<Option<String>>)
    ensures
        match r {
            Some(d) => opt_text_value(v@) == Some(opt_text_view(d)),
            None => opt_text_value(v@) is None,
        },
{
    match v {
        WireItem::Null => Some(None),
        _ => match text_value_exec(v) {
            Some(s) => Some(Some(s)),
            None => None,
        },
    }
}

fn seen_exec(f: &FieldsExec, name: FieldName) -> (r: bool)
    ensures
        r == seen(f@, name),
{
    match name {
        FieldName::MintUrl => f.mint_url.is_some(),
        FieldName::Operation => f.operation.is_some(),
        FieldName::Method => f.method.is_some(),
        FieldName::Unit => f.unit.is_some(),
        FieldName::Amount => f.amount.is_some(),
        FieldName::Ticket => f.ticket.is_some(),
        FieldName::Description => f.description.is_some(),
        FieldName::Expiry => f.expiry.is_some(),
    }
}

/// The view of a read entry's outcome.
spec fn read_view(r: Option<(FieldsExec, Option<&WireItem>)>) -> Option<(Fields, Option<WireItemView>)> {
    match r {
        Some((g, left)) => Some((g@, left_view(left))),
        None => None,
    }
}

fn set_field_exec<'a>(f: FieldsExec, name: FieldName, v: &'a WireItem) -> (r: Option<(FieldsExec, Option<&'a WireItem>)>)
    ensures
        read_view(r) == set_field(f@, name, v@),
{
    match name {
        FieldName::MintUrl => match text_value_exec(v) {
            Some(s) => Some((FieldsExec { mint_url: Some(s), ..f }, None)),
            None => None,
        },
        FieldName::Operation => match operation_value_exec(v) {
            Some((op, left)) => Some((FieldsExec { operation: Some(op), ..f }, left)),
            None => None,
        },
        FieldName::Method => match text_value_exec(v) {
            Some(s) => Some((FieldsExec { method: Some(s), ..f }, None)),
            None => None,
        },
        FieldName::Unit => match text_value_exec(v) {
            Some(s) => Some((FieldsExec { unit: Some(s), ..f }, None)),
            None => None,
        },
        FieldName::Amount => match opt_uint_value_exec(v) {
            Some(a) => Some((FieldsExec { amount: Some(a), ..f }, None)),
            None => None,
        },
        FieldName::Ticket => match text_value_exec(v) {
            Some(s) => Some((FieldsExec { ticket: Some(s), ..f }, None)),
            None => None,
        },
        FieldName::Description => match opt_text_value_exec(v) {
            Some(d) => Some((FieldsExec { description: Some(d), ..f }, None)),
            None => None,
        },
        FieldName::Expiry => match opt_uint_value_exec(v) {
            Some(e) => Some((FieldsExec { expiry: Some(e), ..f }, None)),
            None => None,
        },
    }
}

fn read_entry_exec<'a>(f: FieldsExec, k: &WireItem, v: &'a WireItem) -> (r: Option<(FieldsExec, Option<&'a WireItem>)>)
    ensures
        read_view(r) == read_entry(f@, k@, v@),
{
    match read_key(k) {
        KeyKind::Invalid => None,
        KeyKind::Unknown => Some((f, None)),
        KeyKind::Field(name) => {
            if seen_exec(&f, name) {
                None
            } else {
                set_field_exec(f, name, v)
            }
        },
    }
}

/// The item at position `2 * i + 1` (a value) or `2 * i` (a key) of the
/// stored items of a map.
fn item_at(entries: &Vec<(WireItem, WireItem)>, i: usize, value: bool) -> (r: &WireItem)
    requires
        i < entries@.len(),
    ensures
        r@ == flatten(entries_view(entries@))[2 * i + if value { 1int } else { 0int }],
{
    if value {
        &entries[i].1
    } else {
        &entries[i].0
    }
}

/// The stream of items still to read: one left unread, if any, then the
/// stored items from position `p`.
spec fn stream_at(left: Option<WireItemView>, flat: Seq<WireItemView>, p: int) -> Seq<WireItemView> {
    match left {
        Some(x) => seq![x] + flat.skip(p),
        None => flat.skip(p),
    }
}

fn read_entries_exec(entries: &Vec<(WireItem, WireItem)>) -> (r: Option<FieldsExec>)
    ensures
        opt_fields_view(r) == read_entries(entries_view(entries@)),
{
    let ghost ev = entries_view(entries@);
    let ghost flat = flatten(ev);
    let mut f = FieldsExec {
        mint_url: None,
        operation: None,
        method: None,
        unit: None,
        amount: None,
        ticket: None,
        description: None,
        expiry: None,
    };
    proof {
        assert(f@ == no_fields());
        assert(flat.skip(0) =~= flat);
    }
    let n = entries.len();
    let mut count: usize = n;
    // the next stored item is at position 2 * i, or 2 * i + 1 where `value`
    let mut i: usize = 0;
    let mut value = false;
    let mut left: Option<&WireItem> = None;
    while count > 0
        invariant
            n == entries@.len(),
            ev == entries_view(entries@),
            flat == flatten(ev),
            flat.len() == 2 * n,
            i <= n,
            value ==> i < n,
            count <= n,
            stream_at(left_view(left), flat, 2 * i + if value { 1int } else { 0int }).len() >= 2 * count,
            read_entries(ev) == read_stream(
                f@,
                count as nat,
                stream_at(left_view(left), flat, 2 * i + if value { 1int } else { 0int }),
            ),
        decreases count,
    {
        let ghost p: int = 2 * i + if value { 1int } else { 0int };
        let ghost st = stream_at(left_view(left), flat, p);
        let k: &WireItem;
        match left {
            Some(x) => {
                k = x;
                left = None;
                proof {
                    assert(st[0] == k@);
                    assert(st.skip(1) =~= flat.skip(p));
                }
            },
            None => {
                k = item_at(entries, i, value);
                proof {
                    assert(st[0] == k@);
                    assert(st.skip(1) =~= flat.skip(p + 1));
                }
                if value {
                    i += 1;
                    value = false;
                } else {
                    value = true;
                }
            },
        }
        // the value comes from the stored items
        let ghost p1: int = 2 * i + if value { 1int } else { 0int };
        proof {
            assert(st.skip(1) =~= flat.skip(p1));
            assert(p1 < 2 * n);
        }
        let v = item_at(entries, i, value);
        proof {
            assert(st[1] == v@);
            assert(st.skip(2) =~= flat.skip(p1 + 1));
        }
        if value {
            i += 1;
            value = false;
        } else {
            value = true;
        }
        match read_entry_exec(f, k, v) {
            Some((g, rest)) => {
                f = g;
                left = rest;
                proof {
                    let p2: int = 2 * i + if value { 1int } else { 0int };
                    assert(p2 == p1 + 1);
                }
            },
            None => {
                return None;
            },
        }
        count -= 1;
    }
    Some(f)
}

fn finish_fields_exec(f: FieldsExec) -> (r: Option<QuoteOffer>)
    ensures
        opt_offer_view(r) == finish_fields(f@),
{
    let FieldsExec { mint_url, operation, method, unit, amount, ticket, description, expiry } = f;
    match (mint_url, operation, method, unit, ticket) {
        (Some(mint_url), Some(operation), Some(method), Some(unit), Some(ticket)) => {
            let amount = match amount {
                Some(a) => a,
                None => None,
            };
            let description = match description {
                Some(d) => d,
                None => None,
            };
            let expiry = match expiry {
                Some(e) => e,
                None => None,
            };
            Some(QuoteOffer { mint_url, operation, method, unit, amount, ticket, description, expiry })
        },
        _ => None,
    }
}

/// The name of an operation in the map.
fn operation_text(op: OfferOperation) -> (r: &'static str)
    ensures
        r@ == operation_name(op),
{
    proof {
        lemma_operation_literals();
    }
    match op {
        OfferOperation::Mint => "mint",
        OfferOperation::Melt => "melt",
    }
}

/// The characters of the one-letter keys.
proof fn lemma_key_literals()
    ensures
        "m"@ == seq!['m'],
        "o"@ == seq!['o'],
        "h"@ == seq!['h'],
        "u"@ == seq!['u'],
        "a"@ == seq!['a'],
        "t"@ == seq!['t'],
        "d"@ == seq!['d'],
        "e"@ == seq!['e'],
{
    reveal_strlit("m");
    reveal_strlit("o");
    reveal_strlit("h");
    reveal_strlit("u");
    reveal_strlit("a");
    reveal_strlit("t");
    reveal_strlit("d");
    reveal_strlit("e");
    assert("m"@ =~= seq!['m']);
    assert("o"@ =~= seq!['o']);
    assert("h"@ =~= seq!['h']);
    assert("u"@ =~= seq!['u']);
    assert("a"@ =~= seq!['a']);
    assert("t"@ =~= seq!['t']);
    assert("d"@ =~= seq!['d']);
    assert("e"@ =~= seq!['e']);
}

/// The view of written entries after one more.
proof fn lemma_written_view_push(s: Seq<(String, WireValue)>, e: (String, WireValue))
    ensures
        written_view(s.push(e)) == written_view(s).push((e.0@, e.1@)),
{
    assert(written_view(s.push(e)) =~= written_view(s).push((e.0@, e.1@)));
}

impl QuoteOffer {
    /// The CBOR map entries that this offer is written as: keys
    /// `m o h u a t d e` in this order, absent optional fields left out.
    pub fn to_entries(&self) -> (r: Vec<(String, WireValue)>)
        ensures
            written_view(r@) == offer_entries(self@),
    {
        proof {
            lemma_key_literals();
        }
        let ghost o = self@;
        let mut r: Vec<(String, WireValue)> = Vec::new();
        let e = ("m".to_owned(), WireValue::Text(self.mint_url.clone()));
        proof { lemma_written_view_push(r@, e); }
        r.push(e);
        let e = ("o".to_owned(), WireValue::Text(operation_text(self.operation).to_owned()));
        proof { lemma_written_view_push(r@, e); }
        r.push(e);
        let e = ("h".to_owned(), WireValue::Text(self.method.clone()));
        proof { lemma_written_view_push(r@, e); }
        r.push(e);
        let e = ("u".to_owned(), WireValue::Text(self.unit.clone()));
        proof { lemma_written_view_push(r@, e); }
        r.push(e);
        let ghost s4 = written_view(r@);
        assert(s4 =~= seq![
            (seq!['m'], WireValueView::Text(o.mint_url)),
            (seq!['o'], WireValueView::Text(operation_name(o.operation))),
            (seq!['h'], WireValueView::Text(o.method)),
            (seq!['u'], WireValueView::Text(o.unit)),
        ]);
        if let Some(n) = self.amount {
            let e = ("a".to_owned(), WireValue::Uint(n));
            proof { lemma_written_view_push(r@, e); }
            r.push(e);
        }
        assert(written_view(r@) =~= s4 + uint_entry('a', o.amount));
        let e = ("t".to_owned(), WireValue::Text(self.ticket.clone()));
        proof { lemma_written_view_push(r@, e); }
        r.push(e);
        let ghost s6 = written_view(r@);
        if let Some(d) = &self.description {
            let e = ("d".to_owned(), WireValue::Text(d.clone()));
            proof { lemma_written_view_push(r@, e); }
            r.push(e);
        }
        assert(written_view(r@) =~= s6 + text_entry('d', o.description));
        let ghost s7 = written_view(r@);
        if let Some(n) = self.expiry {
            let e = ("e".to_owned(), WireValue::Uint(n));
            proof { lemma_written_view_push(r@, e); }
            r.push(e);
        }
        assert(written_view(r@) =~= s7 + uint_entry('e', o.expiry));
        assert(written_view(r@) =~= offer_entries(o));
        r
    }

    /// The offer that a CBOR map's entries hold: `None` where a key is not
    /// a name, a field comes twice, a value has the wrong kind, or one of
    /// `m o h u t` is missing.  Unknown keys are skipped.
    pub fn from_entries(entries: &Vec<(WireItem, WireItem)>) -> (r: Option<QuoteOffer>)
        ensures
            opt_offer_view(r) == offer_from_entries(entries_view(entries@)),
    {
        match read_entries_exec(entries) {
            Some(f) => finish_fields_exec(f),
            None => None,
        }
    }

    /// The offer that a CBOR item holds: after its tags, a map of the
    /// offer's entries.
    pub fn from_item(item: &WireItem) -> (r: Option<QuoteOffer>)
        ensures
            opt_offer_view(r) == offer_from_item(item@),
    {
        let x = untag(item);
        match x {
            WireItem::CborMap(entries) => {
                proof {
                    lemma_map_view(*entries);
                }
                QuoteOffer::from_entries(entries)
            },
            _ => None,
        }
    }
}

// ---------------------------------------------------------------------------
// The string form
// ---------------------------------------------------------------------------

/// The string form of an offer: `cquoteA` and the unpadded URL-safe base64
/// of the CBOR map of its entries.
pub open spec fn encode_offer_text(o: QuoteOfferView) -> Seq<char> {
    offer_prefix() + base64_url_encoded(cbor_map_encoded(offer_entries(o)))
}

/// The bytes that a payload stands for: URL-safe base64, else standard
/// base64, both with or without padding.
pub open spec fn payload_bytes(payload: Seq<char>) -> Option<Seq<u8>> {
    match base64_url_decoded(payload) {
        Some(b) => Some(b),
        None => base64_standard_decoded(payload),
    }
}

/// A standard-alphabet form with neither `+` nor `/` is a URL-safe form.
pub proof fn lemma_standard_form_is_url_safe(text: Seq<char>, d: Seq<u8>)
    requires
        is_base64_of(text, d, false),
        !has_standard_only_char(text),
    ensures
        is_base64_of(text, d, true),
{
    let t = base64_encoded(d, false);
    let k = choose|k: nat| #![trigger padding(k)] k <= canonical_padding_len(t) && text == t + padding(k);
    if has_standard_only_char(t) {
        let i = choose|i: int| 0 <= i < t.len() && (#[trigger] t[i] == '+' || t[i] == '/');
        assert(text[i] == t[i]);
        assert(has_standard_only_char(text));
    }
    lemma_standard_is_url_safe(d);
    assert(text == base64_encoded(d, true) + padding(k));
}

/// Whether a text is the base64 of some bytes, in either alphabet, with
/// none, part or all of its padding.
pub open spec fn has_base64_form(text: Seq<char>) -> bool {
    exists|d: Seq<u8>, url_safe: bool| #[trigger] is_base64_of(text, d, url_safe)
}

/// The offer that CBOR bytes hold.
pub open spec fn offer_from_cbor(bytes: Seq<u8>) -> Result<QuoteOfferView, Error> {
    match cbor_decoded(bytes) {
        Some(x) => match offer_from_item(x) {
            Some(o) => Ok(o),
            None => Err(Error::CiboriumError),
        },
        None => Err(Error::CiboriumError),
    }
}

/// The offer that a text holds, or why it holds none.
pub open spec fn decode_offer_text(s: Seq<char>) -> Result<QuoteOfferView, Error> {
    if !starts_with(s, offer_prefix()) {
        Err(Error::InvalidPrefix)
    } else {
        match payload_bytes(s.skip(offer_prefix().len() as int)) {
            None => Err(Error::Base64Error),
            Some(bytes) => offer_from_cbor(bytes),
        }
    }
}

impl QuoteOffer {
    /// The offer's string form (`cquoteA…`).  Decoding it with
    /// [`QuoteOffer::from_str`] gives the offer back.
    pub fn to_string(&self) -> (res: String)
        ensures
            res@ == encode_offer_text(self@),
            decode_offer_text(res@) == Ok::<QuoteOfferView, Error>(self@),
    {
        let entries = self.to_entries();
        let cbor = cbor_encode_map(&entries);
        let encoded = base64_url_encode(cbor.as_slice());
        proof {
            lemma_prefix_literal();
        }
        let mut out = QUOTE_OFFER_PREFIX.to_owned();
        out.append(encoded.as_str());
        proof {
            lemma_entries_round_trip(self@);
            assert(out@.take(7) =~= offer_prefix());
            assert(out@.skip(7) =~= encoded@);
        }
        out
    }

    /// Decodes an offer from its string form: the text must start with
    /// `cquoteA`; the rest is URL-safe base64 (standard base64 is accepted
    /// too, padding either way) of a CBOR map of the offer's entries.
    pub fn from_str(s: &str) -> (res: Result<QuoteOffer, Error>)
        ensures
            result_view(res) == decode_offer_text(s@),
            forall|d: Seq<u8>, url_safe: bool|
                starts_with(s@, offer_prefix()) && #[trigger] is_base64_of(
                    s@.skip(offer_prefix().len() as int),
                    d,
                    url_safe,
                ) ==> result_view(res) == offer_from_cbor(d),
            starts_with(s@, offer_prefix()) ==> (result_view(res) == Err::<QuoteOfferView, Error>(
                Error::Base64Error,
            ) <==> !has_base64_form(s@.skip(offer_prefix().len() as int))),
    {
        proof {
            lemma_prefix_literal();
        }
        let rest = match strip_prefix(s, QUOTE_OFFER_PREFIX) {
            Some(rest) => rest,
            None => return Err(Error::InvalidPrefix),
        };
        let url = base64_url_decode(rest);
        let ghost url_bytes = decoded_bytes(&url);
        let bytes = match url {
            Ok(bytes) => bytes,
            Err(_) => match base64_standard_decode(rest) {
                Ok(bytes) => bytes,
                Err(_) => {
                    proof {
                        assert forall|d: Seq<u8>, url_safe: bool|
                            !(#[trigger] is_base64_of(rest@, d, url_safe)) by {
                            if is_base64_of(rest@, d, url_safe) {
                                assert(decodes_canonical_forms(rest@, url_safe, None));
                            }
                        }
                    }
                    return Err(Error::Base64Error);
                },
            },
        };
        proof {
            assert forall|d: Seq<u8>, url_safe: bool| #[trigger]
                is_base64_of(rest@, d, url_safe) implies bytes@ == d by {
                if !url_safe && url_bytes is Some {
                    lemma_standard_form_is_url_safe(rest@, d);
                }
            }
        }
        QuoteOffer::from_cbor(bytes.as_slice())
    }

    /// Decodes an offer from the CBOR bytes of its map.
    pub fn from_cbor(bytes: &[u8]) -> (res: Result<QuoteOffer, Error>)
        ensures
            result_view(res) == offer_from_cbor(bytes@),
    {
        match cbor_decode(bytes) {
            Ok(item) => match QuoteOffer::from_item(&item) {
                Some(offer) => Ok(offer),
                None => Err(Error::CiboriumError),
            },
            Err(_) => Err(Error::CiboriumError),
        }
    }
}

} // verus!
