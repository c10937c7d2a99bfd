//! Workspace bookkeeping: every repository pipeline owns one isolated
//! workspace for its lifetime, and no two concurrently running pipelines
//! ever share one.
//!
//! The staging root hands out workspace identities: an identity is unique
//! among the live ones when allocated and leaves the live set exactly once,
//! when its pipeline completes. Creating and deleting the directory that an
//! identity names happens outside the library.

use vstd::prelude::*;

verus! {

/// The staging root's ledger of live workspaces.
pub struct Staging {
    next_id: u64,
    active: Vec<u64>,
}

impl Staging {
    /// The identities of the workspaces currently owned by some running
    /// pipeline.
    pub closed spec fn active_ids(self) -> Seq<u64> {
        self.active@
    }

    /// The ledger never repeats a live identity, and every live identity
    /// was allocated before the next one to be handed out.
    pub closed spec fn wf(self) -> bool {
        &&& forall|i: int| 0 <= i < self.active@.len() ==> self.active@[i] < self.next_id
        &&& forall|i: int, j: int|
            0 <= i < j < self.active@.len() ==> self.active@[i] != self.active@[j]
    }

    /// How many workspaces this staging root has handed out so far; the
    /// machine's word size bounds it.
    pub closed spec fn allocations(self) -> u64 {
        self.next_id
    }

    /// A fresh staging root with no live workspace.
    pub fn new() -> (s: Staging)
        ensures
            s.wf(),
            s.active_ids() == Seq::<u64>::empty(),
            s.allocations() == 0,
    {
        let s = Staging { next_id: 0, active: Vec::new() };
        proof {
            assert(s.active@ =~= Seq::<u64>::empty());
        }
        s
    }

    /// Allocates a workspace for one pipeline: its identity is live from
    /// here on and distinct from every other live identity.
    pub fn allocate(&mut self) -> (id: u64)
        requires
            old(self).wf(),
            old(self).allocations() < u64::MAX,
        ensures
            final (self).wf(),
            !old(self).active_ids().contains(id),
            final (self).active_ids() == old(self).active_ids().push(id),
            final (self).allocations() == old(self).allocations() + 1,
    {
        let id = self.next_id;
        self.next_id = self.next_id + 1;
        self.active.push(id);
        id
    }

    /// How many workspaces this staging root has handed out so far.
    pub fn allocation_count(&self) -> (n: u64)
        ensures
            n == self.allocations(),
    {
        self.next_id
    }

    /// How many workspaces are live right now.
    pub fn active_count(&self) -> (n: usize)
        ensures
            n == self.active_ids().len(),
    {
        self.active.len()
    }

    /// Whether the workspace with this identity is live.
    pub fn is_active(&self, id: u64) -> (r: bool)
        ensures
            r == self.active_ids().contains(id),
    {
        let mut i: usize = 0;
        while i < self.active.len()
            invariant
                i <= self.active@.len(),
                forall|k: int| 0 <= k < i ==> self.active@[k] != id,
            decreases self.active@.len() - i,
        {
            if self.active[i] == id {
                return true;
            }
            i = i + 1;
        }
        proof {
            assert forall|k: int| 0 <= k < self.active@.len() implies self.active@[k] != id by {}
        }
        false
    }

    /// Releases a pipeline's workspace when the pipeline completes,
    /// success or failure alike: its identity is no longer live, and every
    /// other live identity is untouched.
    pub fn release(&mut self, id: u64)
        requires
            old(self).wf(),
        ensures
            final (self).wf(),
            final (self).allocations() == old(self).allocations(),
            !final (self).active_ids().contains(id),
            forall|x: u64|
                x != id ==> (final (self).active_ids().contains(x) == old(
                    self,
                ).active_ids().contains(x)),
    {
        let mut out: Vec<u64> = Vec::new();
        let mut i: usize = 0;
        while i < self.active.len()
            invariant
                i <= self.active@.len(),
                old(self).wf(),
                self.next_id == old(self).next_id,
                self.active@ == old(self).active@,
                forall|k: int| 0 <= k < out@.len() ==> out@[k] < self.next_id,
                forall|k: int, l: int| 0 <= k < l < out@.len() ==> out@[k] != out@[l],
                !out@.contains(id),
                forall|x: u64|
                    out@.contains(x) == (self.active@.subrange(0, i as int).contains(x) && x
                        != id),
            decreases self.active@.len() - i,
        {
            let ghost pre = self.active@.subrange(0, i as int);
            let ghost old_out = out@;
            let x = self.active[i];
            if x != id {
                proof {
                    assert forall|k: int| 0 <= k < out@.len() implies out@[k] != x by {
                        assert(out@.contains(out@[k]));
                        let m = choose|m: int| 0 <= m < pre.len() && pre[m] == out@[k];
                        assert(self.active@[m] == out@[k]);
                    }
                }
                out.push(x);
            }
            proof {
                let cur = self.active@.subrange(0, i as int + 1);
                assert(cur =~= pre + seq![self.active@[i as int]]);
                assert forall|y: u64| #[trigger] out@.contains(y) implies (cur.contains(y) && y
                    != id) by {
                    let k = choose|k: int| 0 <= k < out@.len() && out@[k] == y;
                    if k < old_out.len() {
                        assert(old_out[k] == y);
                        assert(old_out.contains(y));
                        let m = choose|m: int| 0 <= m < pre.len() && pre[m] == y;
                        assert(cur[m] == y);
                    } else {
                        assert(y == x);
                        assert(cur[i as int] == y);
                    }
                }
                assert forall|y: u64| cur.contains(y) && y != id implies #[trigger] out@.contains(
                    y,
                ) by {
                    let m = choose|m: int| 0 <= m < cur.len() && cur[m] == y;
                    if m < i as int {
                        assert(pre[m] == y);
                        assert(pre.contains(y));
                        assert(old_out.contains(y));
                        let k = choose|k: int| 0 <= k < old_out.len() && old_out[k] == y;
                        assert(out@[k] == y);
                    } else {
                        assert(y == self.active@[i as int]);
                        assert(out@[old_out.len() as int] == y);
                    }
                }
            }
            i = i + 1;
        }
        proof {
            assert(self.active@.subrange(0, self.active@.len() as int) =~= self.active@);
        }
        self.active = out;
    }
}

/// Isolation law, at the ledger's level. Two live workspaces are always
/// distinct — no two concurrently running pipelines share one — and once a
/// pipeline's workspace is released it is live no more.
pub proof fn lemma_workspace_isolation(s: Staging, i: int, j: int)
    requires
        s.wf(),
        0 <= i < j < s.active_ids().len(),
    ensures
        s.active_ids()[i] != s.active_ids()[j],
{
}

} // verus!
