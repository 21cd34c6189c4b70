//! Trusted bindings to the external JSON document model (`serde_json`) and
//! the patch engine (`json_patch`).
//!
//! Documents and patches are opaque here: the rest of the crate reasons about
//! them only through the named results and contracts stated in this module,
//! and everything outside this module is verified against those contracts.

use vstd::prelude::*;

verus! {

/// A JSON document tree, as held by the external document model.
#[verifier::external_type_specification]
#[verifier::external_body]
pub struct ExValue(serde_json::Value);

/// An ordered list of structural edit operations, as held by the patch engine.
#[verifier::external_type_specification]
#[verifier::external_body]
pub struct ExPatch(json_patch::Patch);

/// One structural edit operation of the patch engine.
#[verifier::external_type_specification]
#[verifier::external_body]
pub struct ExPatchOperation(json_patch::PatchOperation);

/// What `serde_json::from_str::<Value>` returns: the document parsed from the
/// text, or nothing when the text is not well-formed JSON.
pub uninterp spec fn parsed_json(s: Seq<char>) -> Option<serde_json::Value>;

/// What `serde_json::Value::get` returns for a string key: the value under
/// that key when the document is an object holding it, nothing otherwise.
pub uninterp spec fn field_of(v: serde_json::Value, key: Seq<char>) -> Option<serde_json::Value>;

/// What `serde_json::Value::as_str` returns: the characters when the document
/// is a JSON string, nothing otherwise.
pub uninterp spec fn str_of(v: serde_json::Value) -> Option<Seq<char>>;

/// What `serde_json::from_value::<json_patch::Patch>` returns: the patch when
/// the document is a well-formed list of patch operations, nothing otherwise.
pub uninterp spec fn patch_of(v: serde_json::Value) -> Option<json_patch::Patch>;

/// What `json_patch::diff` returns: the patch that rewrites the first
/// document into the second.
pub uninterp spec fn diff_of(
    old_doc: serde_json::Value,
    new_doc: serde_json::Value,
) -> json_patch::Patch;

/// What `json_patch::patch_unsafe` computes: the document with every
/// operation applied, in order, or nothing when some operation is
/// structurally inapplicable to the document the previous ones produced.
pub uninterp spec fn patch_result(
    doc: serde_json::Value,
    p: json_patch::Patch,
) -> Option<serde_json::Value>;

/// Relies on `serde_json::from_str::<Value>`: parsing is a function of the
/// characters alone, and fails exactly on text that is not well-formed JSON.
#[verifier::external_body]
pub(crate) fn parse_json(s: &str) -> (r: Option<serde_json::Value>)
    ensures
        r == parsed_json(s@),
{
    serde_json::from_str(s).ok()
}

/// Relies on `serde_json::Value::get`: a string key indexes into a JSON
/// object, and yields nothing on a missing key or a non-object document.
#[verifier::external_body]
pub(crate) fn get_field<'a>(v: &'a serde_json::Value, key: &str) -> (r: Option<
    &'a serde_json::Value,
>)
    ensures
        match r {
            Some(f) => field_of(*v, key@) == Some(*f),
            None => field_of(*v, key@) is None,
        },
{
    v.get(key)
}

/// Relies on `serde_json::Value::as_str`: yields the characters exactly when
/// the document is a JSON string.
#[verifier::external_body]
pub(crate) fn get_string(v: &serde_json::Value) -> (r: Option<String>)
    ensures
        match r {
            Some(s) => str_of(*v) == Some(s@),
            None => str_of(*v) is None,
        },
{
    v.as_str().map(|s| s.to_string())
}

/// Relies on `serde_json::Value::clone`: the clone is the same document.
#[verifier::external_body]
pub(crate) fn clone_value(v: &serde_json::Value) -> (r: serde_json::Value)
    ensures
        r == *v,
{
    v.clone()
}

/// Relies on `serde_json::from_value::<json_patch::Patch>`: deserialization
/// is a function of the document alone, and succeeds exactly when the
/// document is a well-formed list of patch operations.
#[verifier::external_body]
pub(crate) fn value_to_patch(v: serde_json::Value) -> (r: Option<json_patch::Patch>)
    ensures
        r == patch_of(v),
{
    serde_json::from_value(v).ok()
}

/// Relies on `json_patch::diff`: the emitted patch, applied to the first
/// document, rebuilds the second (RFC 6902 diff, as the crate documents).
#[verifier::external_body]
pub(crate) fn diff_docs(old_doc: &serde_json::Value, new_doc: &serde_json::Value) -> (r:
    json_patch::Patch)
    ensures
        r == diff_of(*old_doc, *new_doc),
        patch_result(*old_doc, r) == Some(*new_doc),
{
    json_patch::diff(old_doc, new_doc)
}

/// Relies on `json_patch::patch_unsafe`: operations are applied in order,
/// with the outcome a function of document and patch alone, and no panic on
/// its apply path. Atomicity is this wrapper's own, not the engine's: the
/// patch is applied to a clone, which replaces the document only when every
/// operation succeeded, so a failed patch leaves the document unchanged.
#[verifier::external_body]
pub(crate) fn apply_patch(doc: &mut serde_json::Value, p: &json_patch::Patch) -> (ok: bool)
    ensures
        match patch_result(*old(doc), *p) {
            Some(d) => ok && *final(doc) == d,
            None => !ok && *final(doc) == *old(doc),
        },
{
    let mut patched = doc.clone();
    match json_patch::patch_unsafe(&mut patched, p) {
        Ok(()) => {
            *doc = patched;
            true
        },
        Err(_) => false,
    }
}

} // verus!
