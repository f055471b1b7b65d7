//! The JSON Patch between two metadata documents, through the `json-patch`
//! crate.
//!
//! `json_patch::diff` compares `serde_json` values; the helpers below carry
//! the library's JSON model into that form and the resulting operations
//! back, one value for one value.

use json_patch::PatchOperation as JsonPatchOp;
use vstd::prelude::*;

use crate::json::{JsonItem, JsonValue, JsonValueView};
use crate::metadata::{patch_view, ItemMetadata, PatchOperation, PatchOperationView};

verus! {

/// `serde_json::Value`, carried opaquely between the conversions below.
#[verifier::external_type_specification]
#[verifier::external_body]
pub struct ExSerdeJsonValue(serde_json::Value);

/// A `json-patch` operation, carried opaquely into the conversion below.
#[verifier::external_type_specification]
#[verifier::external_body]
pub struct ExJsonPatchOp(JsonPatchOp);

/// The patch, in the library's form, that `json_patch::diff` computes from
/// the JSON object `from` to the JSON object `to`.
pub uninterp spec fn json_metadata_diff(
    from: Map<Seq<char>, JsonValueView>,
    to: Map<Seq<char>, JsonValueView>,
) -> Seq<PatchOperationView>;

/// The `serde_json` form of a value: strings as strings, arrays element by
/// element, any other value parsed from its JSON text.
#[verifier::external_body]
fn serde_value(value: &JsonValue) -> serde_json::Value {
    let raw = |text: &String| {
        serde_json::from_str(text).unwrap_or_else(|_| serde_json::Value::String(text.clone()))
    };
    match value {
        JsonValue::Text(text) => serde_json::Value::String(text.clone()),
        JsonValue::Array(items) => serde_json::Value::Array(
            items.iter().map(|item| match item {
                JsonItem::Text(text) => serde_json::Value::String(text.clone()),
                JsonItem::Raw(text) => raw(text),
            }).collect(),
        ),
        JsonValue::Raw(text) => raw(text),
    }
}

/// The `serde_json` object of a metadata document.
#[verifier::external_body]
fn serde_object(metadata: &ItemMetadata) -> serde_json::Value {
    serde_json::Value::Object(
        metadata.as_map().iter().map(|(key, value)| (key.clone(), serde_value(value))).collect(),
    )
}

/// The library's form of a `serde_json` value: strings and arrays kept as
/// such, any other value as its JSON text.
#[verifier::external_body]
fn json_value(value: serde_json::Value) -> JsonValue {
    match value {
        serde_json::Value::String(text) => JsonValue::Text(text),
        serde_json::Value::Array(items) => JsonValue::Array(
            items.into_iter().map(|item| match item {
                serde_json::Value::String(text) => JsonItem::Text(text),
                other => JsonItem::Raw(other.to_string()),
            }).collect(),
        ),
        other => JsonValue::Raw(other.to_string()),
    }
}

/// The library's form of one operation. `json_patch::diff` emits only
/// `add`, `remove` and `replace`; `test` maps to itself, and `move` and
/// `copy`, which it never emits, to a removal of their target path.
#[verifier::external_body]
fn patch_operation(op: JsonPatchOp) -> PatchOperation {
    match op {
        JsonPatchOp::Add(o) => PatchOperation::Add { path: o.path.to_string(), value: json_value(o.value) },
        JsonPatchOp::Remove(o) => PatchOperation::Remove { path: o.path.to_string() },
        JsonPatchOp::Replace(o) => PatchOperation::Replace { path: o.path.to_string(), value: json_value(o.value) },
        JsonPatchOp::Test(o) => PatchOperation::Test { path: o.path.to_string(), value: json_value(o.value) },
        JsonPatchOp::Move(o) => PatchOperation::Remove { path: o.path.to_string() },
        JsonPatchOp::Copy(o) => PatchOperation::Remove { path: o.path.to_string() },
    }
}

/// `json_patch::diff` from one metadata document to another, as the
/// library's patch operations. Claims the patch named by
/// [`json_metadata_diff`] for the two documents, and, as the diff of two
/// equal values holds no operation, an empty patch for equal documents.
#[verifier::external_body]
pub(crate) fn metadata_diff(from: &ItemMetadata, to: &ItemMetadata) -> (r: Vec<PatchOperation>)
    ensures
        patch_view(r@) == json_metadata_diff(from@, to@),
        from@ == to@ ==> r@.len() == 0,
{
    json_patch::diff(&serde_object(from), &serde_object(to)).0.into_iter().map(patch_operation).collect()
}

} // verus!
