//! The participant side of the protocol: a per-resource two-phase-commit
//! lock table.
//!
//! Every resource a participant owns moves through a small lock machine:
//! absent (never locked), `Prepared(tid)` (reserved for one transaction),
//! `Aborted` or `Committed`. A resource whose state is `Aborted` or
//! `Committed` behaves like a free one for the next transaction. Whether a
//! prepare is acceptable at the application level is delegated to a
//! caller-supplied validator.

use vstd::prelude::*;

verus! {

use crate::TransactionId;

/// Name of a resource held by a participant.
pub type TokenName = String;

/// The lock state of one resource. The transaction holding the lock is
/// stored alongside `Prepared`.
#[derive(Debug, Copy, Clone, PartialEq, Eq, Structural)]
pub enum TransactionStatus {
    Prepared(TransactionId),
    Aborted,
    Committed,
}

/// The per-resource lock table of one participant.
pub struct LockTable {
    pub entries: Vec<(TokenName, TransactionStatus)>,
}

impl LockTable {
    /// Keys are unique, so each resource has one lock state.
    pub open spec fn wf(self) -> bool {
        forall|i: int, j: int|
            0 <= i < j < self.entries@.len() ==> self.entries@[i].0@ != self.entries@[j].0@
    }

    /// Some entry carries the resource `k`.
    pub open spec fn has_key(self, k: Seq<char>) -> bool {
        exists|i: int| 0 <= i < self.entries@.len() && self.entries@[i].0@ == k
    }

    /// The index of the entry for `k` (unique when the table is well-formed).
    pub open spec fn key_index(self, k: Seq<char>) -> int {
        choose|i: int| 0 <= i < self.entries@.len() && self.entries@[i].0@ == k
    }

    /// The lock state of resource `k`: `None` when it was never locked.
    pub open spec fn spec_lock(self, k: Seq<char>) -> Option<TransactionStatus> {
        if self.has_key(k) {
            Some(self.entries@[self.key_index(k)].1)
        } else {
            None
        }
    }

    /// An empty lock table: no resource was ever locked.
    pub fn new() -> (r: Self)
        ensures
            r.wf(),
            forall|k: Seq<char>| r.spec_lock(k) is None,
    {
        LockTable { entries: Vec::new() }
    }
}

/// With unique keys, any entry carrying `k` is the entry for `k`.
proof fn lemma_key_index_unique(t: LockTable, k: Seq<char>, i: int)
    requires
        t.wf(),
        0 <= i < t.entries@.len(),
        t.entries@[i].0@ == k,
    ensures
        t.has_key(k),
        t.key_index(k) == i,
{
    assert(t.has_key(k));
    let j = t.key_index(k);
    assert(0 <= j < t.entries@.len() && t.entries@[j].0@ == k);
    if i < j {
        assert(t.entries@[i].0@ != t.entries@[j].0@);
    } else if j < i {
        assert(t.entries@[j].0@ != t.entries@[i].0@);
    }
}

impl LockTable {
    /// The index of the entry for `resource`, or `None` if there is none.
    fn find_key(&self, resource: &TokenName) -> (r: Option<usize>)
        requires
            self.wf(),
        ensures
            match r {
                Some(i) => i < self.entries@.len() && self.entries@[i as int].0@ == resource@
                    && self.has_key(resource@) && self.key_index(resource@) == i,
                None => !self.has_key(resource@),
            },
    {
        let n = self.entries.len();
        let mut i: usize = 0;
        while i < n
            invariant
                self.wf(),
                n == self.entries@.len(),
                i <= n,
                forall|j: int| 0 <= j < i ==> self.entries@[j].0@ != resource@,
            decreases n - i,
        {
            let e = &self.entries[i];
            if e.0 == *resource {
                proof {
                    lemma_key_index_unique(*self, resource@, i as int);
                }
                return Some(i);
            }
            i = i + 1;
        }
        None
    }

    /// The current lock state of `resource`. Read-only.
    pub fn lock_state(&self, resource: &TokenName) -> (r: Option<TransactionStatus>)
        requires
            self.wf(),
        ensures
            r == self.spec_lock(resource@),
    {
        match self.find_key(resource) {
            Some(i) => {
                let e = &self.entries[i];
                Some(e.1)
            },
            None => None,
        }
    }

    /// Set the lock state of `resource`, keeping every other resource as it
    /// was.
    fn set_lock(&mut self, resource: &TokenName, status: TransactionStatus)
        requires
            old(self).wf(),
        ensures
            final(self).wf(),
            final(self).spec_lock(resource@) == Some(status),
            forall|k: Seq<char>|
                k != resource@ ==> #[trigger] final(self).spec_lock(k) == old(self).spec_lock(k),
    {
        let found = self.find_key(resource);
        match found {
            Some(i) => {
                let e = &mut self.entries[i];
                e.1 = status;
                proof {
                    assert forall|a: int, b: int|
                        0 <= a < b < self.entries@.len() implies self.entries@[a].0@ != self
                        .entries@[b].0@ by {
                        assert(old(self).entries@[a].0@ != old(self).entries@[b].0@);
                    }
                    lemma_key_index_unique(*self, resource@, i as int);
                    assert forall|k: Seq<char>| k != resource@ implies #[trigger] self.spec_lock(k)
                        == old(self).spec_lock(k) by {
                        assert forall|j: int|
                            0 <= j < self.entries@.len() implies self.entries@[j].0@ == old(
                            self,
                        ).entries@[j].0@ by {}
                        if old(self).has_key(k) {
                            let j = old(self).key_index(k);
                            lemma_key_index_unique(*old(self), k, j);
                            lemma_key_index_unique(*self, k, j);
                            assert(j != i as int);
                        } else {
                            if self.has_key(k) {
                                let j = self.key_index(k);
                                assert(old(self).entries@[j].0@ == k);
                                assert(old(self).has_key(k));
                            }
                        }
                    }
                }
            },
            None => {
                let entry = (resource.clone(), status);
                self.entries.push(entry);
                proof {
                    let n = old(self).entries@.len() as int;
                    assert forall|a: int, b: int|
                        0 <= a < b < self.entries@.len() implies self.entries@[a].0@ != self
                        .entries@[b].0@ by {
                        if b < n {
                            assert(old(self).entries@[a].0@ != old(self).entries@[b].0@);
                        } else {
                            assert(self.entries@[b].0@ == resource@);
                            assert(old(self).entries@[a].0@ != resource@);
                        }
                    }
                    lemma_key_index_unique(*self, resource@, n);
                    assert forall|k: Seq<char>| k != resource@ implies #[trigger] self.spec_lock(k)
                        == old(self).spec_lock(k) by {
                        if old(self).has_key(k) {
                            let j = old(self).key_index(k);
                            lemma_key_index_unique(*old(self), k, j);
                            lemma_key_index_unique(*self, k, j);
                        } else {
                            if self.has_key(k) {
                                let j = self.key_index(k);
                                assert(0 <= j < self.entries@.len() && self.entries@[j].0@ == k);
                                assert(j != n);
                                assert(old(self).entries@[j].0@ == k);
                            }
                        }
                    }
                }
            },
        }
    }
}

/// After a successful prepare, `resource` is locked for `tid` and every
/// other resource is untouched.
pub open spec fn lock_acquired(
    pre: LockTable,
    post: LockTable,
    resource: Seq<char>,
    tid: TransactionId,
) -> bool {
    &&& post.spec_lock(resource) == Some(TransactionStatus::Prepared(tid))
    &&& forall|k: Seq<char>| k != resource ==> #[trigger] post.spec_lock(k) == pre.spec_lock(k)
}

impl LockTable {
    /// Handle a prepare request for `(tid, resource)`, delegating the
    /// application-level question "may `balance_change` be applied?" to
    /// `prepare_func`.
    ///
    /// A re-prepare by the lock holder is accepted again without consulting
    /// the validator; a prepare against another transaction's lock is
    /// rejected; otherwise the validator decides, and on acceptance the lock
    /// is taken. Only an accepted prepare changes the table.
    pub fn prepare_transaction<T, F: FnOnce(&TokenName, T) -> bool>(
        &mut self,
        tid: TransactionId,
        resource: TokenName,
        balance_change: T,
        prepare_func: F,
    ) -> (r: bool)
        requires
            old(self).wf(),
            call_requires(prepare_func, (&resource, balance_change)),
        ensures
            final(self).wf(),
            old(self).spec_lock(resource@) matches Some(TransactionStatus::Prepared(t)) ==> r == (t
                == tid) && *final(self) == *old(self),
            !(old(self).spec_lock(resource@) matches Some(TransactionStatus::Prepared(t))) ==> {
                &&& call_ensures(prepare_func, (&resource, balance_change), r)
                &&& (r ==> lock_acquired(*old(self), *final(self), resource@, tid))
                &&& (!r ==> *final(self) == *old(self))
            },
    {
        let current = self.lock_state(&resource);
        match current {
            Some(TransactionStatus::Prepared(prepared_tid)) => {
                // Resource already in prepare state: accept only a retry of
                // the same transaction.
                prepared_tid == tid
            },
            _ => {
                let accepted = prepare_func(&resource, balance_change);
                if accepted {
                    self.set_lock(&resource, TransactionStatus::Prepared(tid));
                }
                accepted
            },
        }
    }

    /// Abort `(tid, resource)`: release the lock only if this very
    /// transaction holds it, and do nothing otherwise — in particular never
    /// release another transaction's lock. Unconditional for the caller and
    /// idempotent.
    pub fn abort_transaction(&mut self, tid: TransactionId, resource: TokenName)
        requires
            old(self).wf(),
        ensures
            final(self).wf(),
            old(self).spec_lock(resource@) == Some(TransactionStatus::Prepared(tid)) ==> {
                &&& final(self).spec_lock(resource@) == Some(TransactionStatus::Aborted)
                &&& forall|k: Seq<char>|
                    k != resource@ ==> #[trigger] final(self).spec_lock(k) == old(self).spec_lock(
                        k,
                    )
            },
            old(self).spec_lock(resource@) != Some(TransactionStatus::Prepared(tid)) ==> *final(self) == *old(self),
    {
        let current = self.lock_state(&resource);
        match current {
            Some(TransactionStatus::Prepared(prepared_tid)) => {
                if prepared_tid == tid {
                    self.set_lock(&resource, TransactionStatus::Aborted);
                }
            },
            _ => {},
        }
    }

    /// Mark `resource` committed if `tid` holds its lock. Returns whether it
    /// did; a `false` answer reports a protocol violation (a commit without a
    /// matching prepare) and leaves the table untouched.
    pub fn commit_lock(&mut self, tid: TransactionId, resource: &TokenName) -> (r: bool)
        requires
            old(self).wf(),
        ensures
            final(self).wf(),
            r == (old(self).spec_lock(resource@) == Some(TransactionStatus::Prepared(tid))),
            r ==> {
                &&& final(self).spec_lock(resource@) == Some(TransactionStatus::Committed)
                &&& forall|k: Seq<char>|
                    k != resource@ ==> #[trigger] final(self).spec_lock(k) == old(self).spec_lock(
                        k,
                    )
            },
            !r ==> *final(self) == *old(self),
    {
        let current = self.lock_state(resource);
        match current {
            Some(TransactionStatus::Prepared(prepared_tid)) => {
                if prepared_tid == tid {
                    self.set_lock(resource, TransactionStatus::Committed);
                    true
                } else {
                    false
                }
            },
            _ => false,
        }
    }

    /// Handle a commit request for `(tid, resource)`: if this transaction
    /// holds the prepare lock, run the caller-supplied mutation and mark the
    /// resource committed. A commit without a matching prepare is a protocol
    /// violation: it is reported by the `false` result and nothing is run or
    /// changed, rather than silently applying the change.
    pub fn commit_transaction<T, G: FnOnce(&TokenName, T)>(
        &mut self,
        tid: TransactionId,
        resource: TokenName,
        balance_change: T,
        commit_func: G,
    ) -> (r: bool)
        requires
            old(self).wf(),
            old(self).spec_lock(resource@) == Some(TransactionStatus::Prepared(tid))
                ==> call_requires(commit_func, (&resource, balance_change)),
        ensures
            final(self).wf(),
            r == (old(self).spec_lock(resource@) == Some(TransactionStatus::Prepared(tid))),
            r ==> {
                &&& call_ensures(commit_func, (&resource, balance_change), ())
                &&& final(self).spec_lock(resource@) == Some(TransactionStatus::Committed)
                &&& forall|k: Seq<char>|
                    k != resource@ ==> #[trigger] final(self).spec_lock(k) == old(self).spec_lock(
                        k,
                    )
            },
            !r ==> *final(self) == *old(self),
    {
        let current = self.lock_state(&resource);
        match current {
            Some(TransactionStatus::Prepared(prepared_tid)) => {
                if prepared_tid == tid {
                    commit_func(&resource, balance_change);
                    self.set_lock(&resource, TransactionStatus::Committed);
                    true
                } else {
                    false
                }
            },
            _ => false,
        }
    }
}

/// Law: at any point in time at most one transaction holds `Prepared` on a
/// given resource — the lock table gives each resource one state, so two
/// observed holders are the same transaction.
pub proof fn lemma_at_most_one_prepared(
    t: LockTable,
    k: Seq<char>,
    tid1: TransactionId,
    tid2: TransactionId,
)
    requires
        t.spec_lock(k) == Some(TransactionStatus::Prepared(tid1)),
        t.spec_lock(k) == Some(TransactionStatus::Prepared(tid2)),
    ensures
        tid1 == tid2,
{
}

} // verus!
