//! The server side of one named value: the current document together with
//! the previous document that the next diff is computed against.
//!
//! A mutation is one step: snapshot the old document, diff it against the new
//! one, emit the update, and only then make the new document the one the next
//! mutation is diffed against — so no mutation is ever diffed against a stale
//! previous value or dropped from the stream of emitted patches.

use crate::codec::ServerSignalUpdate;
use crate::engine::diff_of;
use crate::engine::patch_result;
use vstd::prelude::*;

verus! {

/// One server-owned named value.
pub struct NamedValue {
    pub name: String,
    pub doc: serde_json::Value,
}

impl NamedValue {
    /// A named value starting at the given document.
    pub fn new(name: String, doc: serde_json::Value) -> (r: NamedValue)
        ensures
            r.name == name,
            r.doc == doc,
    {
        NamedValue { name, doc }
    }

    /// Replaces the value's document and emits the update to broadcast: the
    /// patch rewrites the document every client last saw into the new one.
    pub fn set(&mut self, new_doc: serde_json::Value) -> (u: ServerSignalUpdate)
        ensures
            final(self).name == old(self).name,
            final(self).doc == new_doc,
            u.name@ == old(self).name@,
            u.patch == diff_of(old(self).doc, new_doc),
            patch_result(old(self).doc, u.patch) == Some(new_doc),
    {
        let update = ServerSignalUpdate::new_from_json(self.name.as_str(), &self.doc, &new_doc);
        self.doc = new_doc;
        update
    }
}

} // verus!
