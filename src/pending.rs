use vstd::prelude::*;

use crate::error::LspError;

verus! {

/// The abstract state of the pending table: the next identifier to hand out
/// and the identifiers of the requests still awaiting a response.
pub struct PendingView {
    pub next: nat,
    pub ids: Set<u64>,
}

/// The largest identifier that can be handed out is `u64::MAX - 1`.
pub open spec fn pending_inv(p: PendingView) -> bool {
    &&& 1 <= p.next <= u64::MAX
    &&& forall|x: u64| p.ids.contains(x) ==> (x as nat) < p.next
}

/// Installing a pending entry for a fresh identifier.
pub open spec fn allocate_spec(p: PendingView) -> (PendingView, Result<u64, LspError>) {
    if p.next >= u64::MAX {
        (p, Err(LspError::IdsExhausted))
    } else {
        (PendingView { next: p.next + 1, ids: p.ids.insert(p.next as u64) }, Ok(p.next as u64))
    }
}

/// Completing the entry of `id` with a response (a result, an error, or the
/// acknowledgement of a cancellation).
pub open spec fn resolve_spec(p: PendingView, id: u64) -> (PendingView, Result<(), LspError>) {
    if p.ids.contains(id) {
        (PendingView { next: p.next, ids: p.ids.remove(id) }, Ok(()))
    } else {
        (p, Err(LspError::StrayResponse))
    }
}

/// Failing every entry because the transport closed: the table empties and
/// identifiers are still never reused.
pub open spec fn fail_all_spec(p: PendingView) -> PendingView {
    PendingView { next: p.next, ids: Set::empty() }
}

/// The table of outstanding requests, keyed by identifier.
pub struct PendingTable {
    next_id: u64,
    ids: Vec<u64>,
}

impl View for PendingTable {
    type V = PendingView;

    closed spec fn view(&self) -> PendingView {
        PendingView { next: self.next_id as nat, ids: Set::new(|x: u64| self.ids@.contains(x)) }
    }
}

impl PendingTable {
    /// Each identifier stands at most once in the table, and every one of
    /// them was handed out before.
    pub closed spec fn wf(&self) -> bool {
        &&& self.ids@.no_duplicates()
        &&& 1 <= self.next_id
        &&& forall|i: int| 0 <= i < self.ids@.len() ==> self.ids@[i] < self.next_id
    }

    /// The number of pending entries.
    pub closed spec fn count(&self) -> nat {
        self.ids@.len()
    }

    proof fn lemma_wf_view(&self)
        requires
            self.wf(),
        ensures
            pending_inv(self@),
            self@.ids.finite(),
            self@.ids.len() == self.count(),
    {
        assert forall|x: u64| self@.ids.contains(x) implies (x as nat) < self@.next by {
            let i = choose|i: int| 0 <= i < self.ids@.len() && self.ids@[i] == x;
        }
        assert(self@.ids =~= self.ids@.to_set());
        self.ids@.unique_seq_to_set();
    }

    /// An empty table whose first identifier is 1.
    pub fn new() -> (r: PendingTable)
        ensures
            r.wf(),
            r@ == (PendingView { next: 1, ids: Set::empty() }),
    {
        let r = PendingTable { next_id: 1, ids: Vec::new() };
        assert(r@.ids =~= Set::empty());
        r
    }

    /// Allocates a fresh identifier and installs its pending entry.
    pub fn allocate(&mut self) -> (r: Result<u64, LspError>)
        requires
            old(self).wf(),
        ensures
            final(self).wf(),
            (final(self)@, r) == allocate_spec(old(self)@),
    {
        if self.next_id == u64::MAX {
            return Err(LspError::IdsExhausted);
        }
        let id = self.next_id;
        self.ids.push(id);
        self.next_id = self.next_id + 1;
        assert(self@.ids =~= old(self)@.ids.insert(id)) by {
            assert(self.ids@ == old(self).ids@.push(id));
            assert(self.ids@[old(self).ids@.len() as int] == id);
            assert forall|x: u64| self.ids@.contains(x) <==> old(self).ids@.contains(x) || x == id by {
                if old(self).ids@.contains(x) {
                    let k = choose|k: int| 0 <= k < old(self).ids@.len() && old(self).ids@[k] == x;
                    assert(self.ids@[k] == x);
                }
                if self.ids@.contains(x) && x != id {
                    let k = choose|k: int| 0 <= k < self.ids@.len() && self.ids@[k] == x;
                    assert(old(self).ids@[k] == x);
                }
            }
        }
        assert(self.ids@.no_duplicates()) by {
            assert forall|i: int, j: int|
                0 <= i < self.ids@.len() && 0 <= j < self.ids@.len() && i != j implies
                self.ids@[i] != self.ids@[j] by {
                if i < old(self).ids@.len() && j < old(self).ids@.len() {
                    assert(old(self).ids@[i] != old(self).ids@[j]);
                }
            }
        }
        Ok(id)
    }

    /// Whether `id` has a pending entry.
    pub fn contains(&self, id: u64) -> (r: bool)
        requires
            self.wf(),
        ensures
            r == self@.ids.contains(id),
    {
        let mut i: usize = 0;
        while i < self.ids.len()
            invariant
                i <= self.ids@.len(),
                forall|k: int| 0 <= k < i ==> self.ids@[k] != id,
            decreases self.ids@.len() - i,
        {
            if self.ids[i] == id {
                assert(self.ids@.contains(id));
                return true;
            }
            i = i + 1;
        }
        false
    }

    /// Removes the entry of `id`, or reports a stray response.
    pub fn resolve(&mut self, id: u64) -> (r: Result<(), LspError>)
        requires
            old(self).wf(),
        ensures
            final(self).wf(),
            (final(self)@, r) == resolve_spec(old(self)@, id),
    {
        let mut i: usize = 0;
        while i < self.ids.len()
            invariant
                i <= self.ids@.len(),
                *self == *old(self),
                self.wf(),
                forall|k: int| 0 <= k < i ==> self.ids@[k] != id,
            decreases self.ids@.len() - i,
        {
            if self.ids[i] == id {
                let ghost before = self.ids@;
                assert(before[i as int] == id);
                self.ids.remove(i);
                assert(self.ids@ =~= before.remove(i as int));
                assert(self@.ids =~= old(self)@.ids.remove(id)) by {
                    assert forall|x: u64| self.ids@.contains(x) <==> before.contains(x) && x != id by {
                        if before.contains(x) && x != id {
                            let k = choose|k: int| 0 <= k < before.len() && before[k] == x;
                            if k < i {
                                assert(self.ids@[k] == x);
                            } else {
                                assert(self.ids@[k - 1] == x);
                            }
                        }
                        if self.ids@.contains(x) {
                            let k = choose|k: int| 0 <= k < self.ids@.len() && self.ids@[k] == x;
                            if k < i {
                                assert(before[k] == x);
                            } else {
                                assert(before[k + 1] == x);
                                assert(k + 1 != i);
                            }
                        }
                    }
                }
                assert(self.wf()) by {
                    assert forall|a: int, b: int|
                        0 <= a < self.ids@.len() && 0 <= b < self.ids@.len() && a != b implies
                        self.ids@[a] != self.ids@[b] by {
                        let a2 = if a < i { a } else { a + 1 };
                        let b2 = if b < i { b } else { b + 1 };
                        assert(before[a2] == self.ids@[a] && before[b2] == self.ids@[b]);
                    }
                    assert forall|k: int| 0 <= k < self.ids@.len() implies self.ids@[k] < self.next_id by {
                        let k2 = if k < i { k } else { k + 1 };
                        assert(before[k2] == self.ids@[k]);
                    }
                }
                return Ok(());
            }
            i = i + 1;
        }
        Err(LspError::StrayResponse)
    }

    /// Empties the table, handing back every identifier that was pending so
    /// that its caller can be failed.
    pub fn fail_all(&mut self) -> (r: Vec<u64>)
        requires
            old(self).wf(),
        ensures
            final(self).wf(),
            final(self)@ == fail_all_spec(old(self)@),
            r@.no_duplicates(),
            forall|x: u64| r@.contains(x) <==> old(self)@.ids.contains(x),
    {
        let r = self.ids.clone();
        self.ids = Vec::new();
        assert(self@.ids =~= Set::empty());
        r
    }

    /// Whether no entry is pending.
    pub fn is_empty(&self) -> (r: bool)
        requires
            self.wf(),
        ensures
            r == (self@.ids == Set::<u64>::empty()),
    {
        proof {
            self.lemma_wf_view();
        }
        if self.ids.len() == 0 {
            assert(self@.ids =~= Set::empty());
            true
        } else {
            assert(self@.ids.contains(self.ids@[0]));
            false
        }
    }
}

/// A freshly allocated identifier has no entry yet, and the table's invariant
/// is kept: no identifier ever has two pending entries.
pub proof fn lemma_allocate_fresh(p: PendingView)
    requires
        pending_inv(p),
    ensures
        pending_inv(allocate_spec(p).0),
        allocate_spec(p).1 is Ok ==> !p.ids.contains(allocate_spec(p).1->Ok_0),
{
}

/// A pending request is resolved exactly once: its response removes the entry,
/// after which a second response is stray and a closing transport no longer
/// fails it; a request failed by a closing transport takes no response after.
pub proof fn lemma_resolved_once(p: PendingView, id: u64)
    requires
        pending_inv(p),
        p.ids.contains(id),
    ensures
        resolve_spec(p, id).1 is Ok,
        resolve_spec(resolve_spec(p, id).0, id).1 == Err::<(), LspError>(LspError::StrayResponse),
        !fail_all_spec(resolve_spec(p, id).0).ids.contains(id),
        resolve_spec(fail_all_spec(p), id).1 == Err::<(), LspError>(LspError::StrayResponse),
        pending_inv(resolve_spec(p, id).0),
        pending_inv(fail_all_spec(p)),
{
}

} // verus!
