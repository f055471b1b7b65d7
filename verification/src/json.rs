//! A model of the JSON values that metadata documents hold.
//!
//! The library reads a value only as a string, as a list of strings, or
//! not at all. A value is therefore held as text, as an array whose
//! elements are strings or the JSON text of other values, or as the JSON
//! text of any other value (number, boolean, null, object).

use vstd::prelude::*;

use crate::text::str_eq;

verus! {

/// Abstract form of [`JsonItem`].
pub enum JsonItemView {
    Text(Seq<char>),
    Raw(Seq<char>),
}

/// Abstract form of [`JsonValue`].
pub enum JsonValueView {
    Text(Seq<char>),
    Array(Seq<JsonItemView>),
    Raw(Seq<char>),
}

/// One element of a JSON array.
#[derive(Clone, Debug, PartialEq, Eq)]
pub enum JsonItem {
    /// A JSON string.
    Text(String),
    /// The JSON text of a value that is not a string.
    Raw(String),
}

/// A JSON value.
#[derive(Clone, Debug, PartialEq, Eq)]
pub enum JsonValue {
    /// A JSON string.
    Text(String),
    /// A JSON array.
    Array(Vec<JsonItem>),
    /// The JSON text of a value that is neither a string nor an array.
    Raw(String),
}

impl View for JsonItem {
    type V = JsonItemView;

    open spec fn view(&self) -> JsonItemView {
        match self {
            JsonItem::Text(s) => JsonItemView::Text(s@),
            JsonItem::Raw(s) => JsonItemView::Raw(s@),
        }
    }
}

/// Views of the elements of an array.
pub open spec fn items_view(items: Seq<JsonItem>) -> Seq<JsonItemView> {
    items.map_values(|i: JsonItem| i@)
}

impl View for JsonValue {
    type V = JsonValueView;

    open spec fn view(&self) -> JsonValueView {
        match self {
            JsonValue::Text(s) => JsonValueView::Text(s@),
            JsonValue::Array(items) => JsonValueView::Array(items_view(items@)),
            JsonValue::Raw(s) => JsonValueView::Raw(s@),
        }
    }
}

/// Whether every element of an array is a string.
pub open spec fn all_text(items: Seq<JsonItemView>) -> bool {
    forall|i: int| 0 <= i < items.len() ==> #[trigger] items[i] is Text
}

/// The strings of an array whose elements are all strings.
pub open spec fn texts_of(items: Seq<JsonItemView>) -> Seq<Seq<char>> {
    items.map_values(|i: JsonItemView| i->Text_0)
}

/// A value read as text: only a string is.
pub open spec fn value_text(v: JsonValueView) -> Option<Seq<char>> {
    match v {
        JsonValueView::Text(t) => Some(t),
        _ => None,
    }
}

/// A value read as one or many strings: a string, or an array of strings.
pub open spec fn value_texts(v: JsonValueView) -> Option<Seq<Seq<char>>> {
    match v {
        JsonValueView::Text(t) => Some(seq![t]),
        JsonValueView::Array(items) => if all_text(items) {
            Some(texts_of(items))
        } else {
            None
        },
        JsonValueView::Raw(_) => None,
    }
}

/// Views of a sequence of strings.
pub open spec fn strings_view(v: Seq<String>) -> Seq<Seq<char>> {
    v.map_values(|s: String| s@)
}

impl JsonItem {
    /// Returns a copy of this element.
    pub fn copy(&self) -> (r: Self)
        ensures
            r@ == self@,
    {
        match self {
            JsonItem::Text(s) => JsonItem::Text(s.clone()),
            JsonItem::Raw(s) => JsonItem::Raw(s.clone()),
        }
    }
}

/// Copies the elements of an array.
pub fn copy_items(items: &Vec<JsonItem>) -> (r: Vec<JsonItem>)
    ensures
        items_view(r@) == items_view(items@),
{
    let mut r: Vec<JsonItem> = Vec::new();
    let n = items.len();
    let mut i: usize = 0;
    while i < n
        invariant
            n == items@.len(),
            i <= n,
            items_view(r@) =~= items_view(items@.take(i as int)),
        decreases n - i,
    {
        let ghost before = r@;
        r.push(items[i].copy());
        assert(items@.take(i + 1) =~= items@.take(i as int).push(items@[i as int]));
        assert(items_view(r@) =~= items_view(before).push(items@[i as int]@));
        assert(items_view(items@.take(i + 1)) =~= items_view(items@.take(i as int)).push(
            items@[i as int]@,
        ));
        i = i + 1;
    }
    assert(items@.take(n as int) =~= items@);
    r
}

/// Copies a sequence of strings.
pub fn copy_strings(v: &Vec<String>) -> (r: Vec<String>)
    ensures
        strings_view(r@) == strings_view(v@),
{
    let mut r: Vec<String> = Vec::new();
    let n = v.len();
    let mut i: usize = 0;
    while i < n
        invariant
            n == v@.len(),
            i <= n,
            strings_view(r@) =~= strings_view(v@.take(i as int)),
        decreases n - i,
    {
        let ghost before = r@;
        r.push(v[i].clone());
        assert(v@.take(i + 1) =~= v@.take(i as int).push(v@[i as int]));
        assert(strings_view(r@) =~= strings_view(before).push(v@[i as int]@));
        assert(strings_view(v@.take(i + 1)) =~= strings_view(v@.take(i as int)).push(
            v@[i as int]@,
        ));
        i = i + 1;
    }
    assert(v@.take(n as int) =~= v@);
    r
}

impl JsonValue {
    /// Returns a copy of this value.
    pub fn copy(&self) -> (r: Self)
        ensures
            r@ == self@,
    {
        match self {
            JsonValue::Text(s) => JsonValue::Text(s.clone()),
            JsonValue::Array(items) => JsonValue::Array(copy_items(items)),
            JsonValue::Raw(s) => JsonValue::Raw(s.clone()),
        }
    }

    /// Returns the value as text, when it is a string.
    pub fn as_str(&self) -> (r: Option<&str>)
        ensures
            match r {
                Some(s) => value_text(self@) == Some(s@),
                None => value_text(self@) is None,
            },
    {
        match self {
            JsonValue::Text(s) => Some(s.as_str()),
            _ => None,
        }
    }

    /// Returns the value as one or many strings: a string gives itself, an
    /// array of strings gives its elements, anything else gives nothing.
    pub fn texts(&self) -> (r: Option<Vec<String>>)
        ensures
            match r {
                Some(v) => value_texts(self@) == Some(strings_view(v@)),
                None => value_texts(self@) is None,
            },
    {
        match self {
            JsonValue::Text(s) => {
                let mut v: Vec<String> = Vec::new();
                v.push(s.clone());
                assert(strings_view(v@) =~= seq![s@]);
                Some(v)
            },
            JsonValue::Array(items) => string_items(items),
            JsonValue::Raw(_) => None,
        }
    }
}

/// The strings of an array, when every element is a string.
pub fn string_items(items: &Vec<JsonItem>) -> (r: Option<Vec<String>>)
    ensures
        match r {
            Some(v) => all_text(items_view(items@)) && strings_view(v@) == texts_of(
                items_view(items@),
            ),
            None => !all_text(items_view(items@)),
        },
{
    let mut out: Vec<String> = Vec::new();
    let n = items.len();
    let mut i: usize = 0;
    while i < n
        invariant
            n == items@.len(),
            i <= n,
            all_text(items_view(items@.take(i as int))),
            strings_view(out@) =~= texts_of(items_view(items@.take(i as int))),
        decreases n - i,
    {
        assert(items@.take(i + 1) =~= items@.take(i as int).push(items@[i as int]));
        let ghost iv = items_view(items@.take(i as int));
        assert(items_view(items@.take(i + 1)) =~= iv.push(items@[i as int]@));
        match &items[i] {
            JsonItem::Text(s) => {
                let ghost before = out@;
                out.push(s.clone());
                assert(strings_view(out@) =~= strings_view(before).push(s@));
                assert(texts_of(iv.push(items@[i as int]@)) =~= texts_of(iv).push(s@));
                assert(all_text(iv.push(items@[i as int]@))) by {
                    let w = iv.push(items@[i as int]@);
                    assert forall|k: int| 0 <= k < w.len() implies #[trigger] w[k] is Text by {
                        if k < iv.len() {
                            assert(w[k] == iv[k]);
                        }
                    }
                }
            },
            JsonItem::Raw(_) => {
                assert(!(items_view(items@)[i as int] is Text));
                return None;
            },
        }
        i = i + 1;
    }
    assert(items@.take(n as int) =~= items@);
    Some(out)
}

impl JsonItem {
    /// Whether two array elements are the same value.
    pub fn same_as(&self, other: &JsonItem) -> (r: bool)
        ensures
            r == (self@ == other@),
    {
        match (self, other) {
            (JsonItem::Text(a), JsonItem::Text(b)) => str_eq(a.as_str(), b.as_str()),
            (JsonItem::Raw(a), JsonItem::Raw(b)) => str_eq(a.as_str(), b.as_str()),
            _ => false,
        }
    }
}

/// Whether two arrays hold the same values in the same order.
pub fn items_same(a: &Vec<JsonItem>, b: &Vec<JsonItem>) -> (r: bool)
    ensures
        r == (items_view(a@) == items_view(b@)),
{
    if a.len() != b.len() {
        assert(items_view(a@).len() != items_view(b@).len());
        return false;
    }
    let n = a.len();
    let mut i: usize = 0;
    while i < n
        invariant
            n == a@.len() == b@.len(),
            i <= n,
            forall|j: int| 0 <= j < i ==> #[trigger] a@[j]@ == b@[j]@,
        decreases n - i,
    {
        if !a[i].same_as(&b[i]) {
            assert(items_view(a@)[i as int] != items_view(b@)[i as int]);
            return false;
        }
        i = i + 1;
    }
    assert(items_view(a@) =~= items_view(b@));
    true
}

impl JsonValue {
    /// Whether two values are the same.
    pub fn same_as(&self, other: &JsonValue) -> (r: bool)
        ensures
            r == (self@ == other@),
    {
        match (self, other) {
            (JsonValue::Text(a), JsonValue::Text(b)) => str_eq(a.as_str(), b.as_str()),
            (JsonValue::Raw(a), JsonValue::Raw(b)) => str_eq(a.as_str(), b.as_str()),
            (JsonValue::Array(a), JsonValue::Array(b)) => items_same(a, b),
            _ => false,
        }
    }
}

} // verus!
