//! The pipeline registry.
//!
//! Pipelines are compiled by the caller (shader binaries plus
//! fixed-function state) and registered here under a name as a pair of
//! opaque handles.  Entries are never removed; registering a name again
//! replaces its handles.  A `"default"` entry always exists, installed at
//! construction, and lookups of unknown names fall back to it at draw
//! time.

use vstd::prelude::*;

verus! {

/// One compiled pipeline: the pipeline object and its layout, as opaque
/// handles of the caller's handle table.
#[derive(Clone, Copy, Debug, PartialEq, Eq)]
pub struct Pipeline {
    pub pipeline: u64,
    pub layout: u64,
}

/// Name-keyed pipeline store; keys are unique.
pub struct PipelineRegistry {
    pub entries: Vec<(String, Pipeline)>,
}

impl PipelineRegistry {
    pub open spec fn wf(self) -> bool {
        forall|i: int, j: int|
            0 <= i < j < self.entries@.len() ==> (#[trigger] self.entries@[i]).0@ != (
            #[trigger] self.entries@[j]).0@
    }

    pub open spec fn spec_contains(self, name: Seq<char>) -> bool {
        exists|i: int| 0 <= i < self.entries@.len() && (#[trigger] self.entries@[i]).0@ == name
    }

    /// The pipeline registered under `name`; meaningful when
    /// `spec_contains` holds.
    pub open spec fn spec_get(self, name: Seq<char>) -> Option<Pipeline> {
        if self.spec_contains(name) {
            Some(
                (self.entries@[choose|i: int|
                    0 <= i < self.entries@.len() && (#[trigger] self.entries@[i]).0@ == name]).1,
            )
        } else {
            None
        }
    }

    /// An empty registry; the renderer installs the `"default"` entry
    /// before use.
    pub fn new() -> (r: PipelineRegistry)
        ensures
            r.wf(),
            r.entries@.len() == 0,
            forall|n: Seq<char>| !r.spec_contains(n),
    {
        PipelineRegistry { entries: Vec::new() }
    }

    /// Register `pipeline` under `name`, replacing any previous entry of
    /// that name; every other name keeps its pipeline.
    pub fn insert(&mut self, name: String, pipeline: Pipeline)
        requires
            old(self).wf(),
        ensures
            final(self).wf(),
            final(self).spec_contains(name@),
            final(self).spec_get(name@) == Some(pipeline),
            forall|n: Seq<char>|
                n != name@ ==> final(self).spec_contains(n) == old(self).spec_contains(n),
            forall|n: Seq<char>|
                n != name@ ==> final(self).spec_get(n) == old(self).spec_get(n),
    {
        let n = self.entries.len();
        let mut i: usize = 0;
        while i < n
            invariant
                self == old(self),
                old(self).wf(),
                n == self.entries@.len(),
                0 <= i <= n,
                forall|j: int| 0 <= j < i ==> (#[trigger] self.entries@[j]).0@ != name@,
            ensures
                self == old(self),
                0 <= i <= n,
                i == n || self.entries@[i as int].0@ == name@,
                forall|j: int| 0 <= j < i ==> (#[trigger] self.entries@[j]).0@ != name@,
            decreases n - i,
        {
            if self.entries[i].0.eq(&name) {
                break;
            }
            i = i + 1;
        }
        if i == n {
            self.entries.push((name, pipeline));
            proof {
                let ghost new_len = self.entries@.len();
                assert(self.entries@[new_len - 1].0@ == name@);
                assert forall|nm: Seq<char>|
                    nm != name@ implies final(self).spec_contains(nm) == old(self).spec_contains(
                    nm,
                ) by {
                    if old(self).spec_contains(nm) {
                        let k = choose|k: int|
                            0 <= k < old(self).entries@.len() && (#[trigger] old(
                                self,
                            ).entries@[k]).0@ == nm;
                        assert(self.entries@[k].0@ == nm);
                    }
                    if self.spec_contains(nm) {
                        let k = choose|k: int|
                            0 <= k < self.entries@.len() && (#[trigger] self.entries@[k]).0@ == nm;
                        assert(k < new_len - 1);
                        assert(old(self).entries@[k].0@ == nm);
                    }
                }
                assert forall|nm: Seq<char>|
                    nm != name@ implies final(self).spec_get(nm) == old(self).spec_get(nm) by {
                    if old(self).spec_contains(nm) {
                        let k1 = choose|k: int|
                            0 <= k < old(self).entries@.len() && (#[trigger] old(
                                self,
                            ).entries@[k]).0@ == nm;
                        let k2 = choose|k: int|
                            0 <= k < self.entries@.len() && (#[trigger] self.entries@[k]).0@ == nm;
                        assert(self.entries@[k1].0@ == nm);
                        assert(k2 < new_len - 1);
                        assert(old(self).entries@[k2].0@ == nm);
                        assert(k1 == k2);
                    }
                }
            }
        } else {
            self.entries.set(i, (name, pipeline));
            proof {
                assert(self.entries@[i as int].0@ == name@);
                assert forall|j: int, k: int|
                    0 <= j < k < self.entries@.len() implies (#[trigger] self.entries@[j]).0@ != (
                    #[trigger] self.entries@[k]).0@ by {
                    if j != i && k != i {
                        assert(self.entries@[j] == old(self).entries@[j]);
                        assert(self.entries@[k] == old(self).entries@[k]);
                    } else if j == i {
                        assert(old(self).entries@[i as int].0@ == name@);
                        assert(self.entries@[k] == old(self).entries@[k]);
                    } else {
                        assert(old(self).entries@[i as int].0@ == name@);
                        assert(self.entries@[j] == old(self).entries@[j]);
                    }
                }
                assert(final(self).spec_contains(name@));
                let c = choose|k: int|
                    0 <= k < self.entries@.len() && (#[trigger] self.entries@[k]).0@ == name@;
                assert(c == i as int);
                assert forall|nm: Seq<char>|
                    nm != name@ implies final(self).spec_contains(nm) == old(self).spec_contains(
                    nm,
                ) && final(self).spec_get(nm) == old(self).spec_get(nm) by {
                    if old(self).spec_contains(nm) {
                        let k = choose|k: int|
                            0 <= k < old(self).entries@.len() && (#[trigger] old(
                                self,
                            ).entries@[k]).0@ == nm;
                        assert(k != i);
                        assert(self.entries@[k].0@ == nm);
                        let k2 = choose|k2: int|
                            0 <= k2 < self.entries@.len() && (#[trigger] self.entries@[k2]).0@
                                == nm;
                        assert(k2 != i);
                        assert(old(self).entries@[k2].0@ == nm);
                        assert(k2 == k);
                    }
                    if self.spec_contains(nm) {
                        let k = choose|k: int|
                            0 <= k < self.entries@.len() && (#[trigger] self.entries@[k]).0@ == nm;
                        assert(k != i);
                        assert(old(self).entries@[k].0@ == nm);
                    }
                }
            }
        }
    }

    /// Look a name up; `None` when it was never registered.
    pub fn get(&self, name: &String) -> (r: Option<Pipeline>)
        requires
            self.wf(),
        ensures
            r == self.spec_get(name@),
    {
        let n = self.entries.len();
        let mut i: usize = 0;
        while i < n
            invariant
                self.wf(),
                n == self.entries@.len(),
                0 <= i <= n,
                forall|j: int| 0 <= j < i ==> (#[trigger] self.entries@[j]).0@ != name@,
            decreases n - i,
        {
            if self.entries[i].0.eq(name) {
                proof {
                    assert(self.spec_contains(name@));
                    let c = choose|k: int|
                        0 <= k < self.entries@.len() && (#[trigger] self.entries@[k]).0@ == name@;
                    assert(c == i as int);
                }
                return Some(self.entries[i].1);
            }
            i = i + 1;
        }
        proof {
            if self.spec_contains(name@) {
                let c = choose|k: int|
                    0 <= k < self.entries@.len() && (#[trigger] self.entries@[k]).0@ == name@;
                assert(false);
            }
        }
        None
    }

    /// Whether a pipeline of this name exists.
    pub fn contains(&self, name: &String) -> (r: bool)
        requires
            self.wf(),
        ensures
            r == self.spec_contains(name@),
    {
        self.get(name).is_some()
    }
}

} // verus!
