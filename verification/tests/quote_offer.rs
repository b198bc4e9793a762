use bitcoin::base64::engine::general_purpose;
use bitcoin::base64::Engine;
use ciborium::Value;
use quote_offer::offer::{Error, OfferOperation, QuoteOffer};
use quote_offer::wire::{WireItem, WireValue};

const SPEC_VECTOR: &str = "cquoteAp2FteBhodHRwczovL21pbnQuZXhhbXBsZS5jb21hb2RtaW50YWhmYnJhbmNoYXVjb3JhYWEZAfRhdHgkMDE5OGMwZWYtM2YxMS03MDAwLWEzZjctMmY0YjZlMmQ5YzFhYWRsQ2FzaCBkZXBvc2l0";

fn spec_offer() -> QuoteOffer {
    QuoteOffer {
        mint_url: "https://mint.example.com".to_string(),
        operation: OfferOperation::Mint,
        method: "branch".to_string(),
        unit: "ora".to_string(),
        amount: Some(500),
        ticket: "0198c0ef-3f11-7000-a3f7-2f4b6e2d9c1a".to_string(),
        description: Some("Cash deposit".to_string()),
        expiry: None,
    }
}

fn encode_cbor(value: &Value) -> String {
    let mut data = Vec::new();
    ciborium::into_writer(value, &mut data).expect("cbor");
    format!("cquoteA{}", general_purpose::URL_SAFE_NO_PAD.encode(data))
}

fn text(s: &str) -> Value {
    Value::Text(s.to_string())
}

#[test]
fn test_quote_offer_spec_vector_encode() {
    assert_eq!(spec_offer().to_string(), SPEC_VECTOR);
}

#[test]
fn test_quote_offer_spec_vector_decode() {
    let offer = QuoteOffer::from_str(SPEC_VECTOR).expect("valid offer");
    assert_eq!(offer, spec_offer());
    assert_eq!(offer.mint_url.to_string(), "https://mint.example.com");
    assert_eq!(offer.operation, OfferOperation::Mint);
    assert_eq!(offer.method.to_string(), "branch");
    assert_eq!(offer.unit.to_string(), "ora");
    assert_eq!(offer.amount, Some(500));
    assert_eq!(offer.ticket, "0198c0ef-3f11-7000-a3f7-2f4b6e2d9c1a");
    assert_eq!(offer.description.as_deref(), Some("Cash deposit"));
    assert_eq!(offer.expiry, None);
}

#[test]
fn test_quote_offer_round_trip_all_fields() {
    let offer = QuoteOffer {
        expiry: Some(1_750_000_000),
        operation: OfferOperation::Melt,
        ..spec_offer()
    };
    let decoded = QuoteOffer::from_str(&offer.to_string()).expect("round trip");
    assert_eq!(decoded, offer);
}

#[test]
fn test_quote_offer_round_trip_required_fields_only() {
    let offer = QuoteOffer {
        amount: None,
        description: None,
        ..spec_offer()
    };
    let decoded = QuoteOffer::from_str(&offer.to_string()).expect("round trip");
    assert_eq!(decoded, offer);
}

#[test]
fn test_quote_offer_invalid_prefix() {
    assert!(matches!(
        QuoteOffer::from_str("creqAp2FteBho"),
        Err(Error::InvalidPrefix)
    ));
    assert!(matches!(
        QuoteOffer::from_str("not an offer"),
        Err(Error::InvalidPrefix)
    ));
}

#[test]
fn test_quote_offer_invalid_payload() {
    // Invalid base64 after a valid prefix
    assert!(QuoteOffer::from_str("cquoteA!!!").is_err());
    // Valid base64, invalid CBOR
    let garbage = general_purpose::URL_SAFE_NO_PAD.encode(b"not cbor at all");
    assert!(QuoteOffer::from_str(&format!("cquoteA{garbage}")).is_err());
}

#[test]
fn test_quote_offer_unknown_field_tolerance() {
    // A future spec revision may add keys; decoding must ignore them.
    let value = Value::Map(vec![
        (text("m"), text("https://mint.example.com")),
        (text("o"), text("melt")),
        (text("h"), text("branch")),
        (text("u"), text("ora")),
        (text("t"), text("MELT-123")),
        (text("z"), text("future-field")),
    ]);
    let encoded = encode_cbor(&value);

    let offer = QuoteOffer::from_str(&encoded).expect("unknown fields are ignored");
    assert_eq!(offer.operation, OfferOperation::Melt);
    assert_eq!(offer.ticket, "MELT-123");
    assert_eq!(offer.amount, None);
}

#[test]
fn test_quote_offer_json_uses_single_letter_keys() {
    let encoded = spec_offer().to_string();
    let payload = encoded.strip_prefix("cquoteA").expect("prefix");
    let cbor = general_purpose::URL_SAFE_NO_PAD.decode(payload).expect("base64");
    let json: serde_json::Value = ciborium::from_reader(&cbor[..]).expect("json");
    let obj = json.as_object().expect("object");
    let mut keys: Vec<&str> = obj.keys().map(String::as_str).collect();
    keys.sort_unstable();
    assert_eq!(keys, vec!["a", "d", "h", "m", "o", "t", "u"]);
    assert_eq!(json["o"], "mint");
    assert_eq!(json["a"], 500);
}

#[test]
fn offer_string_starts_with_prefix_and_is_url_safe() {
    let offer = QuoteOffer { description: Some("~~~ ??? >>>".to_string()), ..spec_offer() };
    let encoded = offer.to_string();
    assert!(encoded.starts_with("cquoteA"));
    let payload = &encoded["cquoteA".len()..];
    assert!(!payload.contains('='));
    assert!(!payload.contains('+'));
    assert!(!payload.contains('/'));
}

#[test]
fn standard_alphabet_and_padding_are_accepted() {
    let offer = QuoteOffer { description: Some("~~~ ??? >>>".to_string()), ..spec_offer() };
    let encoded = offer.to_string();
    let payload = &encoded["cquoteA".len()..];
    let cbor = general_purpose::URL_SAFE_NO_PAD.decode(payload).expect("base64");
    let standard = general_purpose::STANDARD.encode(&cbor);
    assert_ne!(standard.trim_end_matches('='), payload);
    let decoded = QuoteOffer::from_str(&format!("cquoteA{standard}")).expect("standard base64");
    assert_eq!(decoded, offer);
    let padded = general_purpose::URL_SAFE.encode(&cbor);
    let decoded = QuoteOffer::from_str(&format!("cquoteA{padded}")).expect("padded base64");
    assert_eq!(decoded, offer);
}

#[test]
fn part_of_the_padding_is_accepted_and_too_much_is_refused() {
    let mut seen_two = false;
    for n in 0..4 {
        let offer = QuoteOffer { ticket: "t".repeat(n + 1), ..spec_offer() };
        let encoded = offer.to_string();
        let payload_len = encoded.len() - "cquoteA".len();
        let missing = (4 - payload_len % 4) % 4;
        for k in 0..=missing {
            let text = format!("{encoded}{}", "=".repeat(k));
            assert_eq!(QuoteOffer::from_str(&text), Ok(offer.clone()));
        }
        let too_much = format!("{encoded}{}", "=".repeat(missing + 1));
        assert_eq!(QuoteOffer::from_str(&too_much), Err(Error::Base64Error));
        seen_two |= missing == 2;
    }
    assert!(seen_two);
}

#[test]
fn non_canonical_trailing_bits_are_refused() {
    // "YUE" is the base64 of the bytes "aA"; "YUF" differs from it only in a
    // low bit that no byte carries.
    let cbor_text = general_purpose::URL_SAFE_NO_PAD.encode([0x61u8, b'A']);
    assert_eq!(cbor_text, "YUE");
    assert_eq!(QuoteOffer::from_str("cquoteAYUE"), Err(Error::CiboriumError));
    assert_eq!(QuoteOffer::from_str("cquoteAYUF"), Err(Error::Base64Error));
}

#[test]
fn prefix_is_case_sensitive() {
    let lower = SPEC_VECTOR.replacen("cquoteA", "cquotea", 1);
    assert_eq!(QuoteOffer::from_str(&lower), Err(Error::InvalidPrefix));
    assert_eq!(QuoteOffer::from_str(""), Err(Error::InvalidPrefix));
    assert_eq!(QuoteOffer::from_str("cquote"), Err(Error::InvalidPrefix));
}

#[test]
fn bad_base64_is_a_base64_error() {
    assert_eq!(QuoteOffer::from_str("cquoteA!!!"), Err(Error::Base64Error));
    assert_eq!(QuoteOffer::from_str("cquoteAa"), Err(Error::Base64Error));
}

#[test]
fn bad_cbor_is_a_ciborium_error() {
    let garbage = general_purpose::URL_SAFE_NO_PAD.encode(b"not cbor at all");
    assert_eq!(
        QuoteOffer::from_str(&format!("cquoteA{garbage}")),
        Err(Error::CiboriumError)
    );
    // an empty payload holds no CBOR at all
    assert_eq!(QuoteOffer::from_str("cquoteA"), Err(Error::CiboriumError));
}

#[test]
fn a_cbor_value_that_is_not_a_map_is_refused() {
    let encoded = encode_cbor(&Value::Array(vec![text("m")]));
    assert_eq!(QuoteOffer::from_str(&encoded), Err(Error::CiboriumError));
    let encoded = encode_cbor(&text("cquoteA"));
    assert_eq!(QuoteOffer::from_str(&encoded), Err(Error::CiboriumError));
}

fn required_entries() -> Vec<(Value, Value)> {
    vec![
        (text("m"), text("https://mint.example.com")),
        (text("o"), text("mint")),
        (text("h"), text("branch")),
        (text("u"), text("ora")),
        (text("t"), text("T-1")),
    ]
}

#[test]
fn missing_required_field_is_refused() {
    for skip in 0..5 {
        let entries: Vec<(Value, Value)> = required_entries()
            .into_iter()
            .enumerate()
            .filter(|(i, _)| *i != skip)
            .map(|(_, e)| e)
            .collect();
        let encoded = encode_cbor(&Value::Map(entries));
        assert_eq!(QuoteOffer::from_str(&encoded), Err(Error::CiboriumError));
    }
}

#[test]
fn repeated_field_is_refused() {
    let mut entries = required_entries();
    entries.push((text("t"), text("T-2")));
    assert_eq!(
        QuoteOffer::from_str(&encode_cbor(&Value::Map(entries))),
        Err(Error::CiboriumError)
    );
}

#[test]
fn wrongly_typed_field_is_refused() {
    let mut entries = required_entries();
    entries.push((text("a"), text("500")));
    assert_eq!(
        QuoteOffer::from_str(&encode_cbor(&Value::Map(entries))),
        Err(Error::CiboriumError)
    );
    let mut entries = required_entries();
    entries[1] = (text("o"), text("Mint"));
    assert_eq!(
        QuoteOffer::from_str(&encode_cbor(&Value::Map(entries))),
        Err(Error::CiboriumError)
    );
    let mut entries = required_entries();
    entries.push((text("e"), Value::Integer((-1i64).into())));
    assert_eq!(
        QuoteOffer::from_str(&encode_cbor(&Value::Map(entries))),
        Err(Error::CiboriumError)
    );
}

#[test]
fn non_text_key_is_refused() {
    let mut entries = required_entries();
    entries.push((Value::Integer(7u64.into()), text("x")));
    assert_eq!(
        QuoteOffer::from_str(&encode_cbor(&Value::Map(entries))),
        Err(Error::CiboriumError)
    );
}

#[test]
fn null_optional_fields_are_absent_and_byte_keys_name_fields() {
    let mut entries = required_entries();
    entries.push((text("a"), Value::Null));
    entries.push((text("d"), Value::Null));
    entries.push((Value::Bytes(b"e".to_vec()), Value::Integer(9u64.into())));
    entries.push((Value::Bytes(b"future".to_vec()), Value::Bool(true)));
    let offer = QuoteOffer::from_str(&encode_cbor(&Value::Map(entries))).expect("offer");
    assert_eq!(offer.amount, None);
    assert_eq!(offer.description, None);
    assert_eq!(offer.expiry, Some(9));
    assert_eq!(offer.ticket, "T-1");
    assert_eq!(offer.operation, OfferOperation::Mint);
}

#[test]
fn entries_are_written_in_key_order() {
    let offer = QuoteOffer { expiry: Some(7), ..spec_offer() };
    let entries = offer.to_entries();
    let keys: Vec<String> = entries.iter().map(|(k, _)| k.clone()).collect();
    assert_eq!(keys, vec!["m", "o", "h", "u", "a", "t", "d", "e"]);
    let items: Vec<(WireItem, WireItem)> = entries
        .into_iter()
        .map(|(k, v)| {
            let v = match v {
                WireValue::Text(s) => WireItem::Text(s),
                WireValue::Uint(n) => WireItem::Integer(n.into()),
            };
            (WireItem::Text(k), v)
        })
        .collect();
    let back = QuoteOffer::from_entries(&items).expect("offer");
    assert_eq!(back, offer);
}

#[test]
fn exact_vector_with_one_letter_description() {
    let offer = QuoteOffer { description: Some("C".to_string()), ..spec_offer() };
    let expected = "cquoteAp2FteBhodHRwczovL21pbnQuZXhhbXBsZS5jb21hb2RtaW50YWhmYnJhbmNoYXVjb3JhYWEZAfRhdHgkMDE5OGMwZWYtM2YxMS03MDAwLWEzZjctMmY0YjZlMmQ5YzFhYWRhQw";
    assert_eq!(offer.to_string(), expected);
    assert_eq!(QuoteOffer::from_str(expected), Ok(offer));
}

#[test]
fn exact_vector_with_two_byte_expiry() {
    let offer = QuoteOffer { expiry: Some(4095), ..spec_offer() };
    let expected = "cquoteAqGFteBhodHRwczovL21pbnQuZXhhbXBsZS5jb21hb2RtaW50YWhmYnJhbmNoYXVjb3JhYWEZAfRhdHgkMDE5OGMwZWYtM2YxMS03MDAwLWEzZjctMmY0YjZlMmQ5YzFhYWRsQ2FzaCBkZXBvc2l0YWUZD_8";
    assert_eq!(offer.to_string(), expected);
    assert_eq!(QuoteOffer::from_str(expected), Ok(offer));
}

#[test]
fn exact_vector_with_description_c_and_expiry_4095() {
    let offer = QuoteOffer {
        description: Some("C".to_string()),
        expiry: Some(4095),
        ..spec_offer()
    };
    let expected = "cquoteAqGFteBhodHRwczovL21pbnQuZXhhbXBsZS5jb21hb2RtaW50YWhmYnJhbmNoYXVjb3JhYWEZAfRhdHgkMDE5OGMwZWYtM2YxMS03MDAwLWEzZjctMmY0YjZlMmQ5YzFhYWRhQ2FlGQ__";
    assert_eq!(offer.to_string(), expected);
    assert_eq!(QuoteOffer::from_str(expected), Ok(offer));
}

fn tagged(tag: u64, v: Value) -> Value {
    Value::Tag(tag, Box::new(v))
}

#[test]
fn tags_are_skipped_around_the_map_keys_and_texts() {
    let mut entries = required_entries();
    entries[4] = (tagged(24, text("t")), tagged(32, text("T-1")));
    entries.push((text("d"), tagged(7, text("note"))));
    let encoded = encode_cbor(&tagged(55799, Value::Map(entries)));
    let offer = QuoteOffer::from_str(&encoded).expect("tags are skipped");
    assert_eq!(offer.ticket, "T-1");
    assert_eq!(offer.description.as_deref(), Some("note"));
}

#[test]
fn a_tagged_null_is_not_an_absent_field() {
    let mut entries = required_entries();
    entries.push((text("d"), tagged(7, Value::Null)));
    assert_eq!(
        QuoteOffer::from_str(&encode_cbor(&Value::Map(entries))),
        Err(Error::CiboriumError)
    );
}

#[test]
fn bignum_amounts_are_read() {
    let mut entries = required_entries();
    entries.push((text("a"), tagged(2, Value::Bytes(vec![0; 20].into_iter().chain([1, 244]).collect()))));
    let offer = QuoteOffer::from_str(&encode_cbor(&Value::Map(entries))).expect("bignum");
    assert_eq!(offer.amount, Some(500));

    let mut entries = required_entries();
    entries.push((text("a"), tagged(2, Value::Bytes(vec![1; 9]))));
    assert_eq!(
        QuoteOffer::from_str(&encode_cbor(&Value::Map(entries))),
        Err(Error::CiboriumError)
    );

    let mut entries = required_entries();
    entries.push((text("e"), tagged(3, Value::Bytes(vec![1; 20]))));
    assert_eq!(
        QuoteOffer::from_str(&encode_cbor(&Value::Map(entries))),
        Err(Error::CiboriumError)
    );
}

#[test]
fn keys_longer_than_the_name_limit_are_refused() {
    let mut entries = required_entries();
    entries.push((text(&"z".repeat(4096)), Value::Bool(true)));
    assert!(QuoteOffer::from_str(&encode_cbor(&Value::Map(entries))).is_ok());

    let mut entries = required_entries();
    entries.push((text(&"z".repeat(4097)), Value::Bool(true)));
    assert_eq!(
        QuoteOffer::from_str(&encode_cbor(&Value::Map(entries))),
        Err(Error::CiboriumError)
    );

    let mut entries = required_entries();
    entries.push((Value::Bytes(vec![b'z'; 4097]), Value::Null));
    assert_eq!(
        QuoteOffer::from_str(&encode_cbor(&Value::Map(entries))),
        Err(Error::CiboriumError)
    );
}

#[test]
fn operation_as_a_one_entry_map_leaves_its_value_to_be_read_next() {
    // as the last entry, the map's value is never read
    let mut entries = required_entries();
    entries.remove(1);
    entries.push((text("o"), Value::Map(vec![(Value::Bytes(b"melt".to_vec()), Value::Null)])));
    let offer = QuoteOffer::from_str(&encode_cbor(&Value::Map(entries))).expect("map form");
    assert_eq!(offer.operation, OfferOperation::Melt);

    // elsewhere the map's value is read as the next key, and every entry
    // after it is read shifted by one item
    let entries = vec![
        (text("m"), text("https://mint.example.com")),
        (text("o"), Value::Map(vec![(text("mint"), text("h"))])),
        (text("branch"), text("u")),
        (text("ora"), text("t")),
        (text("T-1"), Value::Bool(false)),
    ];
    let offer = QuoteOffer::from_str(&encode_cbor(&Value::Map(entries))).expect("shifted");
    assert_eq!(offer.operation, OfferOperation::Mint);
    assert_eq!(offer.method, "branch");
    assert_eq!(offer.unit, "ora");
    assert_eq!(offer.ticket, "T-1");

    // a null left unread is not a key
    let mut entries = required_entries();
    entries[1] = (text("o"), Value::Map(vec![(text("mint"), Value::Null)]));
    assert_eq!(
        QuoteOffer::from_str(&encode_cbor(&Value::Map(entries))),
        Err(Error::CiboriumError)
    );

    // the text form only, never bytes
    let mut entries = required_entries();
    entries.remove(1);
    entries.push((text("o"), Value::Bytes(b"mint".to_vec())));
    assert_eq!(
        QuoteOffer::from_str(&encode_cbor(&Value::Map(entries))),
        Err(Error::CiboriumError)
    );
}
