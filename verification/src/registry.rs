//! The replica registry: the client-side table from a name to the live local
//! replica of that name's server value.
//!
//! A replica holds the current document of one named value. Replicas are
//! created at registration and never removed; only the reconciler rewrites a
//! replica's document.

use crate::kv::distinct_keys;
use crate::kv::kv_map;
use crate::kv::lemma_distinct_push;
use crate::kv::lemma_kv_contains;
use crate::kv::lemma_kv_index;
use crate::kv::lemma_kv_push;
use crate::kv::lemma_kv_remove;
use vstd::prelude::*;

verus! {

/// One live replica: a name and its current document.
struct Replica {
    name: String,
    doc: serde_json::Value,
}

/// The table of live replicas, one per registered name.
pub struct Registry {
    entries: Vec<Replica>,
}

impl View for Registry {
    type V = Map<Seq<char>, serde_json::Value>;

    closed spec fn view(&self) -> Map<Seq<char>, serde_json::Value> {
        kv_map(self.pairs())
    }
}

impl Registry {
    /// The entries as name/document pairs, in storage order.
    closed spec fn pairs(&self) -> Seq<(Seq<char>, serde_json::Value)> {
        self.entries@.map_values(|r: Replica| (r.name@, r.doc))
    }

    /// Each name has at most one replica.
    pub closed spec fn wf(&self) -> bool {
        distinct_keys(self.pairs())
    }

    /// An empty registry.
    pub fn new() -> (r: Registry)
        ensures
            r.wf(),
            r@ == Map::<Seq<char>, serde_json::Value>::empty(),
    {
        let r = Registry { entries: Vec::new() };
        proof {
            assert(r.pairs() =~= Seq::<(Seq<char>, serde_json::Value)>::empty());
        }
        r
    }

    /// The position of a name's replica, if one is registered.
    fn find(&self, name: &String) -> (r: Option<usize>)
        ensures
            match r {
                Some(i) => i < self.entries@.len() && self.pairs()[i as int].0 == name@,
                None => forall|j: int|
                    0 <= j < self.pairs().len() ==> self.pairs()[j].0 != name@,
            },
    {
        let mut i: usize = 0;
        while i < self.entries.len()
            invariant
                0 <= i <= self.entries@.len(),
                forall|j: int| 0 <= j < i ==> self.pairs()[j].0 != name@,
            decreases self.entries@.len() - i,
        {
            if self.entries[i].name == *name {
                return Some(i);
            }
            i = i + 1;
        }
        None
    }

    /// Whether a replica is registered under this name.
    pub fn contains(&self, name: &String) -> (r: bool)
        ensures
            r == self@.contains_key(name@),
    {
        proof {
            lemma_kv_contains(self.pairs(), name@);
        }
        self.find(name).is_some()
    }

    /// The current document of a name's replica.
    pub fn lookup<'a>(&'a self, name: &String) -> (r: Option<&'a serde_json::Value>)
        requires
            self.wf(),
        ensures
            match r {
                Some(d) => self@.contains_key(name@) && *d == self@[name@],
                None => !self@.contains_key(name@),
            },
    {
        proof {
            lemma_kv_contains(self.pairs(), name@);
        }
        match self.find(name) {
            Some(i) => {
                proof {
                    lemma_kv_index(self.pairs(), i as int);
                }
                Some(&self.entries[i].doc)
            },
            None => None,
        }
    }

    /// Removes and returns a name's document, leaving the name unregistered.
    pub fn take(&mut self, name: &String) -> (r: Option<serde_json::Value>)
        requires
            old(self).wf(),
        ensures
            final(self).wf(),
            match r {
                Some(d) => old(self)@.contains_key(name@) && d == old(self)@[name@] && final(self)@
                    == old(self)@.remove(name@),
                None => !old(self)@.contains_key(name@) && final(self)@ == old(self)@,
            },
    {
        proof {
            lemma_kv_contains(self.pairs(), name@);
        }
        match self.find(name) {
            Some(i) => {
                proof {
                    lemma_kv_index(self.pairs(), i as int);
                    lemma_kv_remove(self.pairs(), i as int);
                }
                let ghost before = self.pairs();
                let replica = self.entries.remove(i);
                proof {
                    assert(self.pairs() =~= before.remove(i as int));
                }
                Some(replica.doc)
            },
            None => None,
        }
    }

    /// Registers a replica for a name not yet registered.
    pub fn put(&mut self, name: String, doc: serde_json::Value)
        requires
            old(self).wf(),
            !old(self)@.contains_key(name@),
        ensures
            final(self).wf(),
            final(self)@ == old(self)@.insert(name@, doc),
    {
        proof {
            lemma_kv_contains(self.pairs(), name@);
            lemma_kv_push(self.pairs(), name@, doc);
            lemma_distinct_push(self.pairs(), name@, doc);
        }
        let ghost before = self.pairs();
        let ghost gname = name@;
        let ghost gdoc = doc;
        self.entries.push(Replica { name, doc });
        proof {
            assert(self.pairs() =~= before.push((gname, gdoc)));
        }
    }
}

} // verus!
