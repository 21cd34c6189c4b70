//! The update-message codec.
//!
//! An update message carries a value's name and the patch that rewrites the
//! value's previous document into its new one. Its wire form is a JSON object
//! with exactly the fields `name` (a string) and `patch` (a list of patch
//! operations); unknown extra fields are tolerated, a missing or ill-typed
//! field is a decode error.

use crate::engine::clone_value;
use crate::engine::diff_docs;
use crate::engine::diff_of;
use crate::engine::field_of;
use crate::engine::get_field;
use crate::engine::get_string;
use crate::engine::parse_json;
use crate::engine::parsed_json;
use crate::engine::patch_of;
use crate::engine::patch_result;
use crate::engine::str_of;
use crate::engine::value_to_patch;
use vstd::prelude::*;

verus! {

/// A server signal update: the name of the value it addresses and the patch
/// to apply to that value's replica.
#[derive(Debug)]
pub struct ServerSignalUpdate {
    pub name: String,
    pub patch: json_patch::Patch,
}

/// Why a wire message was rejected; such a message is dropped and the next
/// one is processed as if it had never arrived.
#[derive(Clone, Copy, Debug, PartialEq, Eq, Structural)]
pub enum DecodeError {
    /// The text is not well-formed JSON.
    Malformed,
    /// The message has no `name` field.
    MissingName,
    /// The `name` field is not a string.
    NameNotString,
    /// The message has no `patch` field.
    MissingPatch,
    /// The `patch` field is not a well-formed list of patch operations.
    InvalidPatch,
}

/// What decoding a wire message yields: the name and patch of a well-formed
/// message, or the first error its shape shows.
pub open spec fn decode_spec(s: Seq<char>) -> Result<
    (Seq<char>, json_patch::Patch),
    DecodeError,
> {
    match parsed_json(s) {
        None => Err(DecodeError::Malformed),
        Some(v) => match field_of(v, "name"@) {
            None => Err(DecodeError::MissingName),
            Some(name_field) => match str_of(name_field) {
                None => Err(DecodeError::NameNotString),
                Some(name) => match field_of(v, "patch"@) {
                    None => Err(DecodeError::MissingPatch),
                    Some(patch_field) => match patch_of(patch_field) {
                        None => Err(DecodeError::InvalidPatch),
                        Some(p) => Ok((name, p)),
                    },
                },
            },
        },
    }
}

impl ServerSignalUpdate {
    /// Creates an update from a value's previous and new document: the patch
    /// is the engine's diff, so applying it to the previous document rebuilds
    /// the new one.
    pub fn new_from_json(name: &str, old_doc: &serde_json::Value, new_doc: &serde_json::Value) -> (u:
        ServerSignalUpdate)
        ensures
            u.name@ == name@,
            u.patch == diff_of(*old_doc, *new_doc),
            patch_result(*old_doc, u.patch) == Some(*new_doc),
    {
        ServerSignalUpdate { name: name.to_owned(), patch: diff_docs(old_doc, new_doc) }
    }

    /// Decodes a wire message, rejecting any text that does not hold the
    /// two-field update shape.
    pub fn decode(s: &str) -> (r: Result<ServerSignalUpdate, DecodeError>)
        ensures
            match r {
                Ok(u) => decode_spec(s@) == Ok::<(Seq<char>, json_patch::Patch), DecodeError>(
                    (u.name@, u.patch),
                ),
                Err(e) => decode_spec(s@) == Err::<(Seq<char>, json_patch::Patch), DecodeError>(e),
            },
    {
        let parsed = match parse_json(s) {
            Some(v) => v,
            None => {
                return Err(DecodeError::Malformed);
            },
        };
        let name_field = match get_field(&parsed, "name") {
            Some(f) => f,
            None => {
                return Err(DecodeError::MissingName);
            },
        };
        let name = match get_string(name_field) {
            Some(n) => n,
            None => {
                return Err(DecodeError::NameNotString);
            },
        };
        let patch_field = match get_field(&parsed, "patch") {
            Some(f) => f,
            None => {
                return Err(DecodeError::MissingPatch);
            },
        };
        let patch = match value_to_patch(clone_value(patch_field)) {
            Some(p) => p,
            None => {
                return Err(DecodeError::InvalidPatch);
            },
        };
        Ok(ServerSignalUpdate { name, patch })
    }
}

} // verus!
