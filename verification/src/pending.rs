//! The pending-patch queue: the per-name buffer of patches that arrived
//! before a replica for their name was registered.
//!
//! Each name's buffer is first-in-first-out; the whole buffer is removed the
//! moment it is drained for a newly registered replica.

use crate::kv::distinct_keys;
use crate::kv::kv_map;
use crate::kv::lemma_distinct_push;
use crate::kv::lemma_kv_contains;
use crate::kv::lemma_kv_index;
use crate::kv::lemma_kv_push;
use crate::kv::lemma_kv_remove;
use vstd::prelude::*;

verus! {

/// One name's buffer of not-yet-applied patches, oldest first.
struct Buffer {
    name: String,
    patches: Vec<json_patch::Patch>,
}

/// The queue of buffered patches, one buffer per name.
pub struct PendingQueue {
    entries: Vec<Buffer>,
}

impl View for PendingQueue {
    type V = Map<Seq<char>, Seq<json_patch::Patch>>;

    closed spec fn view(&self) -> Map<Seq<char>, Seq<json_patch::Patch>> {
        kv_map(self.pairs())
    }
}

impl PendingQueue {
    /// The buffers as name/patch-sequence pairs, in storage order.
    closed spec fn pairs(&self) -> Seq<(Seq<char>, Seq<json_patch::Patch>)> {
        self.entries@.map_values(|b: Buffer| (b.name@, b.patches@))
    }

    /// Each name has at most one buffer.
    pub closed spec fn wf(&self) -> bool {
        distinct_keys(self.pairs())
    }

    /// The buffered patches under a name: its buffer, or empty where none is.
    pub open spec fn buffered(m: Map<Seq<char>, Seq<json_patch::Patch>>, name: Seq<char>) -> Seq<
        json_patch::Patch,
    > {
        if m.contains_key(name) {
            m[name]
        } else {
            Seq::empty()
        }
    }

    /// An empty queue.
    pub fn new() -> (r: PendingQueue)
        ensures
            r.wf(),
            r@ == Map::<Seq<char>, Seq<json_patch::Patch>>::empty(),
    {
        let r = PendingQueue { entries: Vec::new() };
        proof {
            assert(r.pairs() =~= Seq::<(Seq<char>, Seq<json_patch::Patch>)>::empty());
        }
        r
    }

    /// The position of a name's buffer, if one exists.
    fn find(&self, name: &String) -> (r: Option<usize>)
        ensures
            match r {
                Some(i) => i < self.entries@.len() && self.pairs()[i as int].0 == name@,
                None => forall|j: int|
                    0 <= j < self.pairs().len() ==> self.pairs()[j].0 != name@,
            },
    {
        let mut i: usize = 0;
        while i < self.entries.len()
            invariant
                0 <= i <= self.entries@.len(),
                forall|j: int| 0 <= j < i ==> self.pairs()[j].0 != name@,
            decreases self.entries@.len() - i,
        {
            if self.entries[i].name == *name {
                return Some(i);
            }
            i = i + 1;
        }
        None
    }

    /// How many patches are buffered under a name.
    pub fn count(&self, name: &String) -> (n: usize)
        requires
            self.wf(),
        ensures
            n == PendingQueue::buffered(self@, name@).len(),
    {
        proof {
            lemma_kv_contains(self.pairs(), name@);
        }
        match self.find(name) {
            Some(i) => {
                proof {
                    lemma_kv_index(self.pairs(), i as int);
                }
                self.entries[i].patches.len()
            },
            None => 0,
        }
    }

    /// Appends a patch to a name's buffer, creating the buffer if absent.
    pub fn enqueue(&mut self, name: String, p: json_patch::Patch)
        requires
            old(self).wf(),
        ensures
            final(self).wf(),
            final(self)@ == old(self)@.insert(
                name@,
                PendingQueue::buffered(old(self)@, name@).push(p),
            ),
    {
        proof {
            lemma_kv_contains(self.pairs(), name@);
        }
        match self.find(&name) {
            Some(i) => {
                proof {
                    lemma_kv_index(self.pairs(), i as int);
                    lemma_kv_remove(self.pairs(), i as int);
                }
                let ghost before = self.pairs();
                let ghost whole = self@;
                let mut buffer = self.entries.remove(i);
                proof {
                    assert(self.pairs() =~= before.remove(i as int));
                    lemma_kv_contains(self.pairs(), name@);
                    assert forall|j: int| 0 <= j < self.pairs().len() implies self.pairs()[j].0
                        != name@ by {
                        let sj = if j < i {
                            j
                        } else {
                            j + 1
                        };
                        assert(before.remove(i as int)[j] == before[sj]);
                    }
                    lemma_kv_push(self.pairs(), name@, buffer.patches@.push(p));
                    lemma_distinct_push(self.pairs(), name@, buffer.patches@.push(p));
                }
                let ghost mid = self.pairs();
                buffer.patches.push(p);
                let ghost gname = buffer.name@;
                let ghost gpatches = buffer.patches@;
                self.entries.push(buffer);
                proof {
                    assert(self.pairs() =~= mid.push((gname, gpatches)));
                    assert(self@ =~= whole.insert(
                        name@,
                        PendingQueue::buffered(whole, name@).push(p),
                    ));
                }
            },
            None => {
                proof {
                    lemma_kv_push(self.pairs(), name@, seq![p]);
                    lemma_distinct_push(self.pairs(), name@, seq![p]);
                }
                let ghost before = self.pairs();
                let ghost whole = self@;
                let ghost gname = name@;
                let mut patches: Vec<json_patch::Patch> = Vec::new();
                patches.push(p);
                let ghost gpatches = patches@;
                self.entries.push(Buffer { name, patches });
                proof {
                    assert(gpatches =~= seq![p]);
                    assert(self.pairs() =~= before.push((gname, gpatches)));
                    assert(PendingQueue::buffered(whole, gname).push(p) =~= seq![p]);
                }
            },
        }
    }

    /// Removes and returns a name's buffer, oldest patch first; empty where
    /// nothing was buffered.
    pub fn drain(&mut self, name: &String) -> (r: Vec<json_patch::Patch>)
        requires
            old(self).wf(),
        ensures
            final(self).wf(),
            r@ == PendingQueue::buffered(old(self)@, name@),
            final(self)@ == old(self)@.remove(name@),
    {
        proof {
            lemma_kv_contains(self.pairs(), name@);
        }
        match self.find(name) {
            Some(i) => {
                proof {
                    lemma_kv_index(self.pairs(), i as int);
                    lemma_kv_remove(self.pairs(), i as int);
                }
                let ghost before = self.pairs();
                let buffer = self.entries.remove(i);
                proof {
                    assert(self.pairs() =~= before.remove(i as int));
                }
                buffer.patches
            },
            None => {
                proof {
                    assert(PendingQueue::buffered(self@, name@) =~= Seq::<
                        json_patch::Patch,
                    >::empty());
                    assert(self@.remove(name@) =~= self@);
                }
                Vec::new()
            },
        }
    }
}

} // verus!
