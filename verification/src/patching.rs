//! How a replica's document evolves under a sequence of patches.
//!
//! A patch either applies, yielding the engine's result, or is rejected and
//! leaves the document in its last-good state; `apply_all` folds that step
//! over a sequence in order, and `all_ok` says that every step applied.

use crate::engine::apply_patch;
use crate::engine::patch_result;
use vstd::prelude::*;

verus! {

/// One patch applied to a document: the engine's result when the patch
/// applies, the unchanged document when it does not.
pub open spec fn step(doc: serde_json::Value, p: json_patch::Patch) -> serde_json::Value {
    match patch_result(doc, p) {
        Some(d) => d,
        None => doc,
    }
}

/// A sequence of patches applied to a document, in order.
pub open spec fn apply_all(doc: serde_json::Value, ps: Seq<json_patch::Patch>) -> serde_json::Value
    decreases ps.len(),
{
    if ps.len() == 0 {
        doc
    } else {
        step(apply_all(doc, ps.drop_last()), ps.last())
    }
}

/// Every patch of the sequence applies cleanly, each to the document the
/// previous ones produced.
pub open spec fn all_ok(doc: serde_json::Value, ps: Seq<json_patch::Patch>) -> bool
    decreases ps.len(),
{
    if ps.len() == 0 {
        true
    } else {
        all_ok(doc, ps.drop_last()) && patch_result(apply_all(doc, ps.drop_last()), ps.last())
            is Some
    }
}

/// Appending one patch to a sequence applies it after the sequence.
pub proof fn lemma_apply_all_push(doc: serde_json::Value, ps: Seq<json_patch::Patch>, p: json_patch::Patch)
    ensures
        apply_all(doc, ps.push(p)) == step(apply_all(doc, ps), p),
        all_ok(doc, ps.push(p)) == (all_ok(doc, ps) && patch_result(apply_all(doc, ps), p)
            is Some),
{
    assert(ps.push(p).drop_last() =~= ps);
}

/// A rejected patch leaves the document in its last-good state.
pub proof fn lemma_rejected_patch_keeps_doc(doc: serde_json::Value, p: json_patch::Patch)
    requires
        patch_result(doc, p) is None,
    ensures
        step(doc, p) == doc,
{
}

/// The diff/patch round-trip law: when each patch of a sequence rewrites one
/// value of a chain into the next — as the patch the codec emits for a server
/// mutation does — applying the whole sequence, in emission order, to the
/// first value of the chain yields the last, every application succeeding.
pub proof fn lemma_patch_chain(vals: Seq<serde_json::Value>, ps: Seq<json_patch::Patch>)
    requires
        vals.len() == ps.len() + 1,
        forall|i: int| 0 <= i < ps.len() ==> patch_result(vals[i], ps[i]) == Some(vals[i + 1]),
    ensures
        apply_all(vals[0], ps) == vals[ps.len() as int],
        all_ok(vals[0], ps),
    decreases ps.len(),
{
    if ps.len() > 0 {
        lemma_patch_chain(vals.drop_last(), ps.drop_last());
        assert(vals.drop_last()[0] == vals[0]);
        assert(patch_result(vals[ps.len() - 1], ps.last()) == Some(vals[ps.len() as int]));
    }
}

/// Applies each patch to the document, in order; reports whether every patch
/// applied cleanly (a rejected patch leaves the document as the previous
/// patches made it, and the rest are still attempted).
pub fn apply_patches(doc: &mut serde_json::Value, ps: &Vec<json_patch::Patch>) -> (clean: bool)
    ensures
        *final(doc) == apply_all(*old(doc), ps@),
        clean == all_ok(*old(doc), ps@),
{
    let ghost orig = *doc;
    let mut clean = true;
    let mut i: usize = 0;
    while i < ps.len()
        invariant
            0 <= i <= ps@.len(),
            *doc == apply_all(orig, ps@.take(i as int)),
            clean == all_ok(orig, ps@.take(i as int)),
        decreases ps@.len() - i,
    {
        let ok = apply_patch(doc, &ps[i]);
        proof {
            assert(ps@.take(i as int).push(ps@[i as int]) =~= ps@.take(i + 1));
            lemma_apply_all_push(orig, ps@.take(i as int), ps@[i as int]);
        }
        clean = clean && ok;
        i = i + 1;
    }
    proof {
        assert(ps@.take(ps@.len() as int) =~= ps@);
    }
    clean
}

} // verus!
