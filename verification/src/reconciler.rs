//! The reconciler: the client-side state machine that applies incoming
//! update messages to local replicas.
//!
//! For each message it either applies the patch directly (replica live),
//! draining any older buffered patches first, or buffers the patch (replica
//! not yet registered). Registration drains the buffer, so a late replica
//! still sees every patch for its name exactly once and in arrival order.

use crate::codec::decode_spec;
use crate::codec::DecodeError;
use crate::codec::ServerSignalUpdate;
use crate::engine::apply_patch;
use crate::patching::all_ok;
use crate::patching::apply_all;
use crate::patching::apply_patches;
use crate::patching::lemma_apply_all_push;
use crate::patching::step;
use crate::pending::PendingQueue;
use crate::registry::Registry;
use vstd::prelude::*;

verus! {

/// The reconciler's abstract state: the documents of the live replicas and
/// the buffered patches of the names not yet registered.
#[verifier::ext_equal]
pub struct SyncView {
    pub docs: Map<Seq<char>, serde_json::Value>,
    pub pending: Map<Seq<char>, Seq<json_patch::Patch>>,
}

/// The patches buffered under a name: its buffer, or empty where none is.
pub open spec fn pending_of(v: SyncView, name: Seq<char>) -> Seq<json_patch::Patch> {
    if v.pending.contains_key(name) {
        v.pending[name]
    } else {
        Seq::empty()
    }
}

/// Registering a name: idempotent on a live name; otherwise the replica is
/// created from the initial document with every buffered patch applied to it
/// in arrival order, and the buffer is removed.
pub open spec fn spec_register(v: SyncView, name: Seq<char>, init: serde_json::Value) -> SyncView {
    if v.docs.contains_key(name) {
        v
    } else {
        SyncView {
            docs: v.docs.insert(name, apply_all(init, pending_of(v, name))),
            pending: v.pending.remove(name),
        }
    }
}

/// One incoming update: applied to the live replica — any buffered patches
/// first, then the arriving patch — or buffered where no replica exists yet.
pub open spec fn spec_apply_update(
    v: SyncView,
    name: Seq<char>,
    p: json_patch::Patch,
) -> SyncView {
    if v.docs.contains_key(name) {
        SyncView {
            docs: v.docs.insert(name, apply_all(v.docs[name], pending_of(v, name).push(p))),
            pending: v.pending.remove(name),
        }
    } else {
        SyncView { docs: v.docs, pending: v.pending.insert(name, pending_of(v, name).push(p)) }
    }
}

/// What processing one update reports, and when.
pub open spec fn outcome_matches(
    v: SyncView,
    name: Seq<char>,
    p: json_patch::Patch,
    out: ApplyOutcome,
) -> bool {
    match out {
        ApplyOutcome::Applied { clean } => v.docs.contains_key(name) && clean == all_ok(
            v.docs[name],
            pending_of(v, name).push(p),
        ),
        ApplyOutcome::Queued => !v.docs.contains_key(name),
    }
}

/// How one update was handled.
#[derive(Clone, Copy, Debug, PartialEq, Eq, Structural)]
pub enum ApplyOutcome {
    /// The replica was live: the buffered patches, then the arriving patch,
    /// were applied; `clean` says every one of them applied.
    Applied { clean: bool },
    /// No replica was registered: the patch was buffered.
    Queued,
}

/// The client-side reconciler, owning the replica registry and the
/// pending-patch queue.
pub struct Reconciler {
    registry: Registry,
    pending: PendingQueue,
}

impl View for Reconciler {
    type V = SyncView;

    closed spec fn view(&self) -> SyncView {
        SyncView { docs: self.registry@, pending: self.pending@ }
    }
}

impl Reconciler {
    /// Each name has at most one replica and at most one buffer.
    pub closed spec fn wf(&self) -> bool {
        self.registry.wf() && self.pending.wf()
    }

    /// A reconciler with no replicas and nothing buffered.
    pub fn new() -> (r: Reconciler)
        ensures
            r.wf(),
            r@.docs == Map::<Seq<char>, serde_json::Value>::empty(),
            r@.pending == Map::<Seq<char>, Seq<json_patch::Patch>>::empty(),
    {
        Reconciler { registry: Registry::new(), pending: PendingQueue::new() }
    }

    /// Whether a replica is registered under this name.
    pub fn is_registered(&self, name: &String) -> (r: bool)
        requires
            self.wf(),
        ensures
            r == self@.docs.contains_key(name@),
    {
        self.registry.contains(name)
    }

    /// The current document of a name's replica; read-only to callers.
    pub fn lookup<'a>(&'a self, name: &String) -> (r: Option<&'a serde_json::Value>)
        requires
            self.wf(),
        ensures
            match r {
                Some(d) => self@.docs.contains_key(name@) && *d == self@.docs[name@],
                None => !self@.docs.contains_key(name@),
            },
    {
        self.registry.lookup(name)
    }

    /// How many patches are buffered for a name awaiting registration.
    pub fn pending_count(&self, name: &String) -> (n: usize)
        requires
            self.wf(),
        ensures
            n == pending_of(self@, name@).len(),
    {
        self.pending.count(name)
    }

    /// Registers a replica for a name, starting from the given initial
    /// document; idempotent on a name already registered. Every patch that
    /// arrived before registration is applied at once, in arrival order;
    /// `clean` reports whether all of them applied (vacuously true on a
    /// name already live).
    pub fn register(&mut self, name: &String, init: serde_json::Value) -> (clean: bool)
        requires
            old(self).wf(),
        ensures
            final(self).wf(),
            final(self)@ == spec_register(old(self)@, name@, init),
            clean == (old(self)@.docs.contains_key(name@) || all_ok(
                init,
                pending_of(old(self)@, name@),
            )),
    {
        if self.registry.contains(name) {
            return true;
        }
        let mut doc = init;
        let buffered = self.pending.drain(name);
        let clean = apply_patches(&mut doc, &buffered);
        self.registry.put(name.clone(), doc);
        proof {
            assert(self@ =~= spec_register(old(self)@, name@, init));
        }
        clean
    }

    /// Processes one already-decoded update: applies it to the live replica —
    /// buffered patches first — or buffers it where no replica exists.
    pub fn apply_update(&mut self, update: ServerSignalUpdate) -> (out: ApplyOutcome)
        requires
            old(self).wf(),
        ensures
            final(self).wf(),
            final(self)@ == spec_apply_update(old(self)@, update.name@, update.patch),
            outcome_matches(old(self)@, update.name@, update.patch, out),
    {
        let ghost name = update.name@;
        let ghost p = update.patch;
        match self.registry.take(&update.name) {
            Some(doc) => {
                let mut doc = doc;
                let ghost doc0 = doc;
                let buffered = self.pending.drain(&update.name);
                let drained_clean = apply_patches(&mut doc, &buffered);
                let applied = apply_patch(&mut doc, &update.patch);
                proof {
                    lemma_apply_all_push(doc0, buffered@, p);
                }
                self.registry.put(update.name, doc);
                proof {
                    assert(self@.docs =~= old(self)@.docs.insert(
                        name,
                        apply_all(doc0, pending_of(old(self)@, name).push(p)),
                    ));
                    assert(self@ =~= spec_apply_update(old(self)@, name, p));
                }
                ApplyOutcome::Applied { clean: drained_clean && applied }
            },
            None => {
                self.pending.enqueue(update.name, update.patch);
                proof {
                    assert(self@ =~= spec_apply_update(old(self)@, name, p));
                }
                ApplyOutcome::Queued
            },
        }
    }

    /// The transport's sole entry point: decodes one raw message and
    /// processes it. A message that does not decode is dropped whole — the
    /// reconciler's state is exactly what it was, so the next message is
    /// processed as if the bad one had never arrived.
    pub fn deliver(&mut self, raw: &str) -> (r: Result<ApplyOutcome, DecodeError>)
        requires
            old(self).wf(),
        ensures
            final(self).wf(),
            match r {
                Ok(out) => decode_spec(raw@) is Ok && {
                    let (name, p) = decode_spec(raw@)->Ok_0;
                    final(self)@ == spec_apply_update(old(self)@, name, p) && outcome_matches(
                        old(self)@,
                        name,
                        p,
                        out,
                    )
                },
                Err(e) => decode_spec(raw@) == Err::<
                    (Seq<char>, json_patch::Patch),
                    DecodeError,
                >(e) && final(self)@ == old(self)@,
            },
    {
        match ServerSignalUpdate::decode(raw) {
            Ok(update) => Ok(self.apply_update(update)),
            Err(e) => Err(e),
        }
    }
}

/// A whole inbound stream processed in arrival order, one update at a time.
pub open spec fn spec_run(v: SyncView, msgs: Seq<(Seq<char>, json_patch::Patch)>) -> SyncView
    decreases msgs.len(),
{
    if msgs.len() == 0 {
        v
    } else {
        spec_apply_update(spec_run(v, msgs.drop_last()), msgs.last().0, msgs.last().1)
    }
}

/// The patches a stream carries for one name, in arrival order.
pub open spec fn patches_for(
    msgs: Seq<(Seq<char>, json_patch::Patch)>,
    name: Seq<char>,
) -> Seq<json_patch::Patch>
    decreases msgs.len(),
{
    if msgs.len() == 0 {
        Seq::empty()
    } else if msgs.last().0 == name {
        patches_for(msgs.drop_last(), name).push(msgs.last().1)
    } else {
        patches_for(msgs.drop_last(), name)
    }
}

/// Per-name isolation: an update for one name leaves every other name's
/// replica document and pending buffer untouched — in particular, a patch
/// that fails to apply on one replica harms no other replica.
pub proof fn lemma_name_isolation(
    v: SyncView,
    name: Seq<char>,
    p: json_patch::Patch,
    other: Seq<char>,
)
    requires
        other != name,
    ensures
        spec_apply_update(v, name, p).docs.contains_key(other) == v.docs.contains_key(other),
        v.docs.contains_key(other) ==> spec_apply_update(v, name, p).docs[other] == v.docs[other],
        pending_of(spec_apply_update(v, name, p), other) == pending_of(v, other),
{
}

/// An update for a live name with an empty buffer is applied directly, and
/// the buffer stays empty.
pub proof fn lemma_live_update_direct(v: SyncView, name: Seq<char>, p: json_patch::Patch)
    requires
        v.docs.contains_key(name),
        pending_of(v, name).len() == 0,
    ensures
        spec_apply_update(v, name, p).docs.contains_key(name),
        spec_apply_update(v, name, p).docs[name] == step(v.docs[name], p),
        pending_of(spec_apply_update(v, name, p), name).len() == 0,
{
    let one = pending_of(v, name).push(p);
    assert(one.drop_last() =~= Seq::<json_patch::Patch>::empty());
    assert(apply_all(v.docs[name], Seq::<json_patch::Patch>::empty()) == v.docs[name]);
    assert(apply_all(v.docs[name], one) == step(v.docs[name], p));
}

/// A replica registered before any patch for its name arrives never buffers:
/// over any further inbound stream its pending buffer stays empty, and its
/// document is that stream's patches for the name applied directly, in
/// arrival order.
pub proof fn lemma_registered_first_never_buffers(
    v: SyncView,
    msgs: Seq<(Seq<char>, json_patch::Patch)>,
    name: Seq<char>,
)
    requires
        v.docs.contains_key(name),
        pending_of(v, name).len() == 0,
    ensures
        spec_run(v, msgs).docs.contains_key(name),
        pending_of(spec_run(v, msgs), name).len() == 0,
        spec_run(v, msgs).docs[name] == apply_all(v.docs[name], patches_for(msgs, name)),
    decreases msgs.len(),
{
    if msgs.len() > 0 {
        let prev = spec_run(v, msgs.drop_last());
        lemma_registered_first_never_buffers(v, msgs.drop_last(), name);
        let m = msgs.last();
        if m.0 == name {
            lemma_live_update_direct(prev, name, m.1);
            lemma_apply_all_push(v.docs[name], patches_for(msgs.drop_last(), name), m.1);
        } else {
            lemma_name_isolation(prev, m.0, m.1, name);
        }
    }
}

/// While a name is unregistered, every arriving patch for it is buffered and
/// none is applied: after any inbound stream the buffer holds the old buffer
/// followed by exactly that stream's patches for the name, in arrival order.
pub proof fn lemma_unregistered_buffers(
    v: SyncView,
    msgs: Seq<(Seq<char>, json_patch::Patch)>,
    name: Seq<char>,
)
    requires
        !v.docs.contains_key(name),
    ensures
        !spec_run(v, msgs).docs.contains_key(name),
        pending_of(spec_run(v, msgs), name) == pending_of(v, name) + patches_for(msgs, name),
    decreases msgs.len(),
{
    if msgs.len() == 0 {
        assert(pending_of(v, name) + patches_for(msgs, name) =~= pending_of(v, name));
    } else {
        let prev = spec_run(v, msgs.drop_last());
        lemma_unregistered_buffers(v, msgs.drop_last(), name);
        let m = msgs.last();
        if m.0 == name {
            assert(pending_of(spec_apply_update(prev, name, m.1), name) =~= pending_of(v, name)
                + patches_for(msgs, name));
        } else {
            lemma_name_isolation(prev, m.0, m.1, name);
            assert(pending_of(v, name) + patches_for(msgs, name) =~= pending_of(prev, name));
        }
    }
}

/// Late registration loses nothing and duplicates nothing: with patches
/// buffered for an unregistered name, registering applies exactly the
/// buffered patches, in arrival order, to the initial document and empties
/// the buffer; one further arriving patch is then applied directly, so the
/// replica has seen buffer-then-new — each patch once, in arrival order.
pub proof fn lemma_registration_drains(
    v: SyncView,
    name: Seq<char>,
    init: serde_json::Value,
    p: json_patch::Patch,
)
    requires
        !v.docs.contains_key(name),
    ensures
        spec_register(v, name, init).docs[name] == apply_all(init, pending_of(v, name)),
        pending_of(spec_register(v, name, init), name).len() == 0,
        spec_apply_update(spec_register(v, name, init), name, p).docs[name] == apply_all(
            init,
            pending_of(v, name).push(p),
        ),
{
    let reg = spec_register(v, name, init);
    lemma_live_update_direct(reg, name, p);
    lemma_apply_all_push(init, pending_of(v, name), p);
}

} // verus!
