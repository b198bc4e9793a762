//! The calls into the outside codecs: base64 (the `base64` crate that
//! `bitcoin` re-exports) and CBOR (`ciborium`), and Unicode lower-casing
//! from std.  Every item here is trusted: Verus believes its contract.

use vstd::prelude::*;
use bitcoin::base64::engine::general_purpose;
use bitcoin::base64::engine::{DecodePaddingMode, GeneralPurpose, GeneralPurposeConfig};
use bitcoin::base64::{alphabet, DecodeError, Engine};
use ciborium::Value;
use ciborium::de::Error as CborDecodeError;
use vstd::utf8::encode_utf8;
use crate::wire::{read_back, written_view, WireItem, WireItemView, WireValue, WireValueView};

verus! {

/// `base64::DecodeError`, the error of a failed base64 decoding.
#[verifier::external_type_specification]
#[verifier::external_body]
pub struct ExDecodeError(DecodeError);

/// `std::io::Error`, the error type of the reader that CBOR is decoded from.
#[verifier::external_type_specification]
#[verifier::external_body]
pub struct ExIoError(std::io::Error);

/// `ciborium::de::Error`, the error of a failed CBOR decoding.
#[verifier::external_type_specification]
#[verifier::external_body]
#[verifier::reject_recursive_types(T)]
pub struct ExCborDecodeError<T>(CborDecodeError<T>);

/// The character of a 6-bit value in base64 (RFC 4648): `A-Z`, `a-z`,
/// `0-9`, then `-` and `_` in the URL-safe alphabet (section 5), `+` and `/`
/// in the standard one (section 4).
pub open spec fn base64_char(i: int, url_safe: bool) -> char {
    if i < 26 {
        (65 + i) as char
    } else if i < 52 {
        (97 + i - 26) as char
    } else if i < 62 {
        (48 + i - 52) as char
    } else if i == 62 {
        if url_safe { '-' } else { '+' }
    } else {
        if url_safe { '_' } else { '/' }
    }
}

/// Unpadded base64 in either alphabet: each 3 bytes as 4 characters of 6
/// bits, most significant first; a last 1 or 2 bytes as 2 or 3 characters,
/// the missing bits zero.
pub open spec fn base64_encoded(data: Seq<u8>, url_safe: bool) -> Seq<char>
    decreases data.len(),
{
    if data.len() == 0 {
        Seq::empty()
    } else if data.len() == 1 {
        let n = data[0] * 65536;
        seq![base64_char(n / 262144, url_safe), base64_char(n / 4096 % 64, url_safe)]
    } else if data.len() == 2 {
        let n = data[0] * 65536 + data[1] * 256;
        seq![
            base64_char(n / 262144, url_safe),
            base64_char(n / 4096 % 64, url_safe),
            base64_char(n / 64 % 64, url_safe),
        ]
    } else {
        let n = data[0] * 65536 + data[1] * 256 + data[2];
        seq![
            base64_char(n / 262144, url_safe),
            base64_char(n / 4096 % 64, url_safe),
            base64_char(n / 64 % 64, url_safe),
            base64_char(n % 64, url_safe),
        ] + base64_encoded(data.skip(3), url_safe)
    }
}

/// Unpadded URL-safe base64, what `URL_SAFE_NO_PAD` of the `base64` crate
/// encodes.
pub open spec fn base64_url_encoded(data: Seq<u8>) -> Seq<char> {
    base64_encoded(data, true)
}

/// `k` padding characters `=`.
pub open spec fn padding(k: nat) -> Seq<char> {
    Seq::new(k, |i: int| '=')
}

/// How many `=` pad unpadded base64 text up to a multiple of 4.
pub open spec fn canonical_padding_len(text: Seq<char>) -> nat {
    ((4 - text.len() % 4) % 4) as nat
}

/// The canonical base64 of some bytes in an alphabet, followed by at most
/// as many `=` as its canonical padding has (none, some or all of it).
pub open spec fn is_base64_of(text: Seq<char>, data: Seq<u8>, url_safe: bool) -> bool {
    let e = base64_encoded(data, url_safe);
    exists|k: nat| #![trigger padding(k)] k <= canonical_padding_len(e) && text == e + padding(k)
}

/// Whether a text holds a character of the standard alphabet only.
pub open spec fn has_standard_only_char(text: Seq<char>) -> bool {
    exists|i: int| 0 <= i < text.len() && (#[trigger] text[i] == '+' || text[i] == '/')
}

/// The bytes of a decoding, if it succeeded.
pub open spec fn decoded_bytes(res: &Result<Vec<u8>, DecodeError>) -> Option<Seq<u8>> {
    match res {
        Ok(bytes) => Some(bytes@),
        Err(_) => None,
    }
}

/// A decoding of a text gives `data` wherever the text is the canonical
/// base64 of `data` in the alphabet, with none, part or all of its padding.
pub open spec fn decodes_canonical_forms(text: Seq<char>, url_safe: bool, decoded: Option<Seq<u8>>) -> bool {
    forall|data: Seq<u8>| #[trigger] is_base64_of(text, data, url_safe) ==> decoded == Some(data)
}

/// Standard base64 with neither `+` nor `/` is also URL-safe base64.
pub proof fn lemma_standard_is_url_safe(data: Seq<u8>)
    requires
        !has_standard_only_char(base64_encoded(data, false)),
    ensures
        base64_encoded(data, false) == base64_encoded(data, true),
    decreases data.len(),
{
    let t = base64_encoded(data, false);
    assert forall|i: int| 0 <= i < t.len() implies t[i] != '+' && t[i] != '/' by {
        if t[i] == '+' || t[i] == '/' {
            assert(has_standard_only_char(t));
        }
    }
    if data.len() >= 3 {
        let rest = data.skip(3);
        let rt = base64_encoded(rest, false);
        assert forall|i: int| 0 <= i < rt.len() implies rt[i] != '+' && rt[i] != '/' by {
            assert(rt[i] == t[i + 4]);
        }
        if has_standard_only_char(rt) {
            let i = choose|i: int| 0 <= i < rt.len() && (#[trigger] rt[i] == '+' || rt[i] == '/');
            assert(false);
        }
        lemma_standard_is_url_safe(rest);
        assert(t[0] != '+' && t[0] != '/');
        assert(t[1] != '+' && t[1] != '/');
        assert(t[2] != '+' && t[2] != '/');
        assert(t[3] != '+' && t[3] != '/');
        assert(base64_encoded(data, false) =~= base64_encoded(data, true));
    } else if data.len() > 0 {
        assert(t[0] != '+' && t[0] != '/');
        assert(t[1] != '+' && t[1] != '/');
        if data.len() == 2 {
            assert(t[2] != '+' && t[2] != '/');
        }
        assert(base64_encoded(data, false) =~= base64_encoded(data, true));
    }
}

/// What decoding some text with the URL-safe alphabet and indifferent padding
/// gives: the bytes, or `None` where the `base64` crate reports an error.
pub uninterp spec fn base64_url_decoded(text: Seq<char>) -> Option<Seq<u8>>;

/// What decoding some text with the standard alphabet (`+`, `/`) and
/// indifferent padding gives: the bytes, or `None` where the `base64` crate
/// reports an error.
pub uninterp spec fn base64_standard_decoded(text: Seq<char>) -> Option<Seq<u8>>;

/// The last `k` bytes of a number, most significant first.
pub open spec fn be_bytes(n: nat, k: nat) -> Seq<u8>
    decreases k,
{
    if k == 0 {
        Seq::empty()
    } else {
        be_bytes(n / 256, (k - 1) as nat).push((n % 256) as u8)
    }
}

/// The head of a CBOR item in the shortest form, as `ciborium` writes it:
/// the major type in the top 3 bits, then the argument in the low 5 bits
/// when below 24, else in the 1, 2, 4 or 8 bytes that follow.
pub open spec fn cbor_head(major: nat, n: nat) -> Seq<u8> {
    if n < 24 {
        seq![(major * 32 + n) as u8]
    } else if n < 0x100 {
        seq![(major * 32 + 24) as u8] + be_bytes(n, 1)
    } else if n < 0x1_0000 {
        seq![(major * 32 + 25) as u8] + be_bytes(n, 2)
    } else if n < 0x1_0000_0000 {
        seq![(major * 32 + 26) as u8] + be_bytes(n, 4)
    } else {
        seq![(major * 32 + 27) as u8] + be_bytes(n, 8)
    }
}

/// A CBOR text string: major type 3, its UTF-8 length, its UTF-8 bytes.
pub open spec fn cbor_text(s: Seq<char>) -> Seq<u8> {
    cbor_head(3, encode_utf8(s).len()) + encode_utf8(s)
}

/// A written value: a text string, or an unsigned integer (major type 0).
pub open spec fn cbor_value(v: WireValueView) -> Seq<u8> {
    match v {
        WireValueView::Text(s) => cbor_text(s),
        WireValueView::Uint(n) => cbor_head(0, n as nat),
    }
}

/// Map entries in order, each key then its value.
pub open spec fn cbor_entries(entries: Seq<(Seq<char>, WireValueView)>) -> Seq<u8>
    decreases entries.len(),
{
    if entries.len() == 0 {
        Seq::empty()
    } else {
        cbor_entries(entries.drop_last()) + cbor_text(entries.last().0) + cbor_value(entries.last().1)
    }
}

/// The bytes that `ciborium::into_writer` writes for a map of text keys
/// and text or unsigned values: a definite-length map head (major type 5)
/// with the number of entries, then the entries.
pub open spec fn cbor_map_encoded(entries: Seq<(Seq<char>, WireValueView)>) -> Seq<u8> {
    cbor_head(5, entries.len()) + cbor_entries(entries)
}

/// What `ciborium::from_reader` reads from some bytes as a CBOR value,
/// item by item; `None` where it reports an error.
pub uninterp spec fn cbor_decoded(bytes: Seq<u8>) -> Option<WireItemView>;

/// What `str::to_lowercase` of std gives for a text.
pub uninterp spec fn lowercase(text: Seq<char>) -> Seq<char>;

/// Calls `URL_SAFE_NO_PAD.encode` (`base64::Engine::encode`).  Claimed: the
/// result is the unpadded URL-safe base64 of the bytes, and decoding it
/// with the URL-safe alphabet gives the bytes back.  `encode` panics only where the
/// encoded length overflows `usize`, which no input of at most `isize::MAX`
/// bytes reaches.
#[verifier::external_body]
pub(crate) fn base64_url_encode(data: &[u8]) -> (res: String)
    requires
        data@.len() <= isize::MAX,
    ensures
        res@ == base64_url_encoded(data@),
        base64_url_decoded(res@) == Some(data@),
{
    general_purpose::URL_SAFE_NO_PAD.encode(data)
}

/// Calls `GeneralPurpose::new(&alphabet::URL_SAFE, config).decode` with
/// indifferent padding (`base64::Engine::decode`).  Claimed: success and the
/// bytes are those named by `base64_url_decoded`; a text decodes to some
/// bytes exactly where it is their canonical URL-safe base64 followed by
/// none, part or all of its `=` padding (trailing bits must be zero); a text
/// holding `+` or `/`, which are not in the alphabet, fails.
#[verifier::external_body]
pub(crate) fn base64_url_decode(text: &str) -> (res: Result<Vec<u8>, DecodeError>)
    ensures
        match res {
            Ok(bytes) => base64_url_decoded(text@) == Some(bytes@) && is_base64_of(text@, bytes@, true),
            Err(_) => base64_url_decoded(text@) is None,
        },
        decodes_canonical_forms(text@, true, decoded_bytes(&res)),
        has_standard_only_char(text@) ==> decoded_bytes(&res) is None,
{
    let config = GeneralPurposeConfig::new().with_decode_padding_mode(DecodePaddingMode::Indifferent);
    GeneralPurpose::new(&alphabet::URL_SAFE, config).decode(text)
}

/// Calls `GeneralPurpose::new(&alphabet::STANDARD, config).decode` with
/// indifferent padding (`base64::Engine::decode`).  Claimed: success and the
/// bytes are those named by `base64_standard_decoded`; a text decodes to
/// some bytes exactly where it is their canonical standard base64 followed
/// by none, part or all of its `=` padding (trailing bits must be zero).
#[verifier::external_body]
pub(crate) fn base64_standard_decode(text: &str) -> (res: Result<Vec<u8>, DecodeError>)
    ensures
        match res {
            Ok(bytes) => base64_standard_decoded(text@) == Some(bytes@) && is_base64_of(text@, bytes@, false),
            Err(_) => base64_standard_decoded(text@) is None,
        },
        decodes_canonical_forms(text@, false, decoded_bytes(&res)),
{
    let config = GeneralPurposeConfig::new().with_decode_padding_mode(DecodePaddingMode::Indifferent);
    GeneralPurpose::new(&alphabet::STANDARD, config).decode(text)
}

/// `ciborium::Value`, a CBOR value as `ciborium` reads it.
#[verifier::external_type_specification]
#[verifier::external_body]
pub struct ExCborValue(Value);

/// Calls `ciborium::into_writer` on a `ciborium::Value::Map` built from the
/// entries (text keys; text or unsigned integer values), writing into a
/// `Vec<u8>`, which cannot fail.  Claimed: the result is the shortest-form
/// CBOR of the map (see [`cbor_map_encoded`]), at most `isize::MAX` bytes long (a `Vec` limit), and
/// `ciborium::from_reader` reads the same map back from it, each unsigned
/// value as an integer.
#[verifier::external_body]
pub(crate) fn cbor_encode_map(entries: &Vec<(String, WireValue)>) -> (res: Vec<u8>)
    ensures
        res@ == cbor_map_encoded(written_view(entries@)),
        res@.len() <= isize::MAX,
        cbor_decoded(res@) == Some(WireItemView::CborMap(read_back(written_view(entries@)))),
{
    let value = |x: &WireValue| match x {
        WireValue::Text(s) => Value::Text(s.clone()),
        WireValue::Uint(n) => Value::Integer((*n).into()),
    };
    let map = Value::Map(entries.iter().map(|(k, v)| (Value::Text(k.clone()), value(v))).collect());
    let mut out = Vec::new();
    let _ = ciborium::into_writer(&map, &mut out);
    out
}

/// Calls `ciborium::from_reader` for a `ciborium::Value`, then converts the
/// value item by item (see the `From<ciborium::Value>` conversion).
/// Claimed: the result is the one named by `cbor_decoded`.
#[verifier::external_body]
pub(crate) fn cbor_decode(bytes: &[u8]) -> (res: Result<WireItem, CborDecodeError<std::io::Error>>)
    ensures
        match res {
            Ok(item) => cbor_decoded(bytes@) == Some(item@),
            Err(_) => cbor_decoded(bytes@) is None,
        },
{
    ciborium::from_reader::<Value, _>(bytes).map(WireItem::from)
}

/// Converts a `ciborium::Value` one for one, a variant for each kind of
/// item, keeping tags and map entries in order; float and array payloads
/// are dropped.
impl From<Value> for WireItem {
    #[verifier::external_body]
    fn from(v: Value) -> Self {
        match v {
            Value::Integer(i) => WireItem::Integer(i.into()),
            Value::Bytes(b) => WireItem::Bytes(b),
            Value::Float(_) => WireItem::Float,
            Value::Text(s) => WireItem::Text(s),
            Value::Bool(b) => WireItem::Bool(b),
            Value::Null => WireItem::Null,
            Value::Tag(t, inner) => WireItem::Tag(t, Box::new(WireItem::from(*inner))),
            Value::Array(_) => WireItem::Array,
            Value::Map(m) => WireItem::CborMap(m.into_iter().map(|(k, v)| (k.into(), v.into())).collect()),
            _ => WireItem::Unsupported,
        }
    }
}

/// Calls `str::to_lowercase`.  Claimed: the result is the one named by
/// `lowercase`.
#[verifier::external_body]
pub(crate) fn to_lowercase(text: &str) -> (res: String)
    ensures
        res@ == lowercase(text@),
{
    text.to_lowercase()
}

} // verus!
