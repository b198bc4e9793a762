//! CBOR items as the offer codec sees them: what `ciborium` reads, one
//! variant per kind of item, and what the codec writes.

use vstd::prelude::*;

verus! {

/// One CBOR data item read by `ciborium`, one variant per kind.  Integers
/// cover the CBOR range (-2^64 up to 2^64 - 1); the payloads of floats and
/// arrays play no part in reading an offer and are not kept.
pub enum WireItem {
    Integer(i128),
    Bytes(Vec<u8>),
    Float,
    Text(String),
    Bool(bool),
    Null,
    Tag(u64, Box<WireItem>),
    Array,
    CborMap(Vec<(WireItem, WireItem)>),
    /// A kind of item that `ciborium` 0.2.2 does not have (its value type
    /// is open to new kinds).
    Unsupported,
}

/// The mathematical form of a [`WireItem`].
pub enum WireItemView {
    Integer(i128),
    Bytes(Seq<u8>),
    Float,
    Text(Seq<char>),
    Bool(bool),
    Null,
    Tag(u64, Box<WireItemView>),
    Array,
    CborMap(Seq<(WireItemView, WireItemView)>),
    Unsupported,
}

/// The view of an item.
pub open spec fn item_view(x: WireItem) -> WireItemView
    decreases x,
{
    match x {
        WireItem::Integer(i) => WireItemView::Integer(i),
        WireItem::Bytes(b) => WireItemView::Bytes(b@),
        WireItem::Float => WireItemView::Float,
        WireItem::Text(s) => WireItemView::Text(s@),
        WireItem::Bool(b) => WireItemView::Bool(b),
        WireItem::Null => WireItemView::Null,
        WireItem::Tag(t, inner) => WireItemView::Tag(t, Box::new(item_view(*inner))),
        WireItem::Array => WireItemView::Array,
        WireItem::CborMap(entries) => WireItemView::CborMap(
            Seq::new(
                entries@.len(),
                |i: int|
                    if 0 <= i < entries@.len() {
                        (item_view(entries@[i].0), item_view(entries@[i].1))
                    } else {
                        (WireItemView::Null, WireItemView::Null)
                    },
            ),
        ),
        WireItem::Unsupported => WireItemView::Unsupported,
    }
}

impl View for WireItem {
    type V = WireItemView;

    open spec fn view(&self) -> WireItemView {
        item_view(*self)
    }
}

/// The view of map entries.
pub open spec fn entries_view(entries: Seq<(WireItem, WireItem)>) -> Seq<(WireItemView, WireItemView)> {
    entries.map_values(|e: (WireItem, WireItem)| (e.0@, e.1@))
}

/// The view of a map item is the view of its entries.
pub proof fn lemma_map_view(entries: Vec<(WireItem, WireItem)>)
    ensures
        item_view(WireItem::CborMap(entries)) == WireItemView::CborMap(entries_view(entries@)),
{
    let s = item_view(WireItem::CborMap(entries))->CborMap_0;
    assert(s =~= entries_view(entries@));
}

/// A value that the offer codec writes: a text or an unsigned integer.
pub enum WireValue {
    Text(String),
    Uint(u64),
}

/// The mathematical form of a [`WireValue`].
pub enum WireValueView {
    Text(Seq<char>),
    Uint(u64),
}

impl View for WireValue {
    type V = WireValueView;

    open spec fn view(&self) -> WireValueView {
        match self {
            WireValue::Text(s) => WireValueView::Text(s@),
            WireValue::Uint(n) => WireValueView::Uint(*n),
        }
    }
}

/// The view of written map entries: text keys and their values.
pub open spec fn written_view(entries: Seq<(String, WireValue)>) -> Seq<(Seq<char>, WireValueView)> {
    entries.map_values(|e: (String, WireValue)| (e.0@, e.1@))
}

/// The item that a written value is read back as.
pub open spec fn read_back_value(v: WireValueView) -> WireItemView {
    match v {
        WireValueView::Text(s) => WireItemView::Text(s),
        WireValueView::Uint(n) => WireItemView::Integer(n as i128),
    }
}

/// The map entries that written entries are read back as.
pub open spec fn read_back(entries: Seq<(Seq<char>, WireValueView)>) -> Seq<(WireItemView, WireItemView)> {
    entries.map_values(|e: (Seq<char>, WireValueView)| (WireItemView::Text(e.0), read_back_value(e.1)))
}

} // verus!
