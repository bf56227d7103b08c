//! A demo participant: a token ledger whose balances are guarded by the
//! two-phase-commit lock table.
//!
//! The ledger supplies the application half of the protocol: its validator
//! accepts a prepare exactly when the token exists and the signed balance
//! change neither underflows nor overflows, and its mutator applies that
//! change. The [`Participant`] ties the two halves together into the three
//! protocol entry points a transport exposes.

use vstd::prelude::*;

verus! {

use crate::participant::lock_acquired;
use crate::participant::LockTable;
use crate::participant::TokenName;
use crate::participant::TransactionStatus;
use crate::TransactionId;

/// A token balance held by the ledger.
pub type TokenBalance = u64;

/// The balances of every token this ledger hosts.
pub struct Ledger {
    pub balances: Vec<(TokenName, TokenBalance)>,
}

impl Ledger {
    /// Keys are unique, so each token has one balance.
    pub open spec fn wf(self) -> bool {
        forall|i: int, j: int|
            0 <= i < j < self.balances@.len() ==> self.balances@[i].0@ != self.balances@[j].0@
    }

    /// Some entry carries the token `k`.
    pub open spec fn has_key(self, k: Seq<char>) -> bool {
        exists|i: int| 0 <= i < self.balances@.len() && self.balances@[i].0@ == k
    }

    /// The index of the entry for `k` (unique when the ledger is well-formed).
    pub open spec fn key_index(self, k: Seq<char>) -> int {
        choose|i: int| 0 <= i < self.balances@.len() && self.balances@[i].0@ == k
    }

    /// The balance of token `k`: `None` when the ledger does not host it.
    pub open spec fn spec_balance(self, k: Seq<char>) -> Option<TokenBalance> {
        if self.has_key(k) {
            Some(self.balances@[self.key_index(k)].1)
        } else {
            None
        }
    }

    /// Whether applying `delta` to token `k` is legal: the token exists and
    /// the checked signed addition succeeds.
    pub open spec fn can_apply(self, k: Seq<char>, delta: i64) -> bool {
        match self.spec_balance(k) {
            Some(b) => 0 <= b + delta <= u64::MAX,
            None => false,
        }
    }

    /// An empty ledger hosting no tokens.
    pub fn new() -> (r: Self)
        ensures
            r.wf(),
            forall|k: Seq<char>| r.spec_balance(k) is None,
    {
        Ledger { balances: Vec::new() }
    }
}

/// With unique keys, any entry carrying `k` is the entry for `k`.
proof fn lemma_balance_index_unique(l: Ledger, k: Seq<char>, i: int)
    requires
        l.wf(),
        0 <= i < l.balances@.len(),
        l.balances@[i].0@ == k,
    ensures
        l.has_key(k),
        l.key_index(k) == i,
{
    assert(l.has_key(k));
    let j = l.key_index(k);
    assert(0 <= j < l.balances@.len() && l.balances@[j].0@ == k);
    if i < j {
        assert(l.balances@[i].0@ != l.balances@[j].0@);
    } else if j < i {
        assert(l.balances@[j].0@ != l.balances@[i].0@);
    }
}

impl Ledger {
    /// The index of the entry for `resource`, or `None` if there is none.
    fn find_key(&self, resource: &TokenName) -> (r: Option<usize>)
        requires
            self.wf(),
        ensures
            match r {
                Some(i) => i < self.balances@.len() && self.balances@[i as int].0@ == resource@
                    && self.has_key(resource@) && self.key_index(resource@) == i,
                None => !self.has_key(resource@),
            },
    {
        let n = self.balances.len();
        let mut i: usize = 0;
        while i < n
            invariant
                self.wf(),
                n == self.balances@.len(),
                i <= n,
                forall|j: int| 0 <= j < i ==> self.balances@[j].0@ != resource@,
            decreases n - i,
        {
            let e = &self.balances[i];
            if e.0 == *resource {
                proof {
                    lemma_balance_index_unique(*self, resource@, i as int);
                }
                return Some(i);
            }
            i = i + 1;
        }
        None
    }

    /// The current balance of `resource`. Read-only.
    pub fn balance_of(&self, resource: &TokenName) -> (r: Option<TokenBalance>)
        requires
            self.wf(),
        ensures
            r == self.spec_balance(resource@),
    {
        match self.find_key(resource) {
            Some(i) => {
                let e = &self.balances[i];
                Some(e.1)
            },
            None => None,
        }
    }

    /// Set the balance of `resource`, keeping every other token as it was.
    fn set_balance(&mut self, resource: &TokenName, value: TokenBalance)
        requires
            old(self).wf(),
        ensures
            final(self).wf(),
            final(self).spec_balance(resource@) == Some(value),
            forall|k: Seq<char>|
                k != resource@ ==> #[trigger] final(self).spec_balance(k) == old(self).spec_balance(
                    k,
                ),
    {
        let found = self.find_key(resource);
        match found {
            Some(i) => {
                let e = &mut self.balances[i];
                e.1 = value;
                proof {
                    assert forall|a: int, b: int|
                        0 <= a < b < self.balances@.len() implies self.balances@[a].0@ != self
                        .balances@[b].0@ by {
                        assert(old(self).balances@[a].0@ != old(self).balances@[b].0@);
                    }
                    lemma_balance_index_unique(*self, resource@, i as int);
                    assert forall|k: Seq<char>| k != resource@ implies #[trigger] self.spec_balance(
                        k,
                    ) == old(self).spec_balance(k) by {
                        assert forall|j: int|
                            0 <= j < self.balances@.len() implies self.balances@[j].0@ == old(
                            self,
                        ).balances@[j].0@ by {}
                        if old(self).has_key(k) {
                            let j = old(self).key_index(k);
                            lemma_balance_index_unique(*old(self), k, j);
                            lemma_balance_index_unique(*self, k, j);
                            assert(j != i as int);
                        } else {
                            if self.has_key(k) {
                                let j = self.key_index(k);
                                assert(old(self).balances@[j].0@ == k);
                                assert(old(self).has_key(k));
                            }
                        }
                    }
                }
            },
            None => {
                let entry = (resource.clone(), value);
                self.balances.push(entry);
                proof {
                    let n = old(self).balances@.len() as int;
                    assert forall|a: int, b: int|
                        0 <= a < b < self.balances@.len() implies self.balances@[a].0@ != self
                        .balances@[b].0@ by {
                        if b < n {
                            assert(old(self).balances@[a].0@ != old(self).balances@[b].0@);
                        } else {
                            assert(self.balances@[b].0@ == resource@);
                            assert(old(self).balances@[a].0@ != resource@);
                        }
                    }
                    lemma_balance_index_unique(*self, resource@, n);
                    assert forall|k: Seq<char>| k != resource@ implies #[trigger] self.spec_balance(
                        k,
                    ) == old(self).spec_balance(k) by {
                        if old(self).has_key(k) {
                            let j = old(self).key_index(k);
                            lemma_balance_index_unique(*old(self), k, j);
                            lemma_balance_index_unique(*self, k, j);
                        } else {
                            if self.has_key(k) {
                                let j = self.key_index(k);
                                assert(0 <= j < self.balances@.len() && self.balances@[j].0@ == k);
                                assert(j != n);
                                assert(old(self).balances@[j].0@ == k);
                            }
                        }
                    }
                }
            },
        }
    }

    /// The ledger's validator: would applying `balance_change` to `resource`
    /// be legal? Accepts exactly when the token exists and the checked
    /// signed addition succeeds. Never writes.
    pub fn prepare_balance(&self, resource: &TokenName, balance_change: i64) -> (r: bool)
        requires
            self.wf(),
        ensures
            r == self.can_apply(resource@, balance_change),
    {
        match self.balance_of(resource) {
            Some(resource_balance) => resource_balance.checked_add_signed(balance_change).is_some(),
            None => false,
        }
    }

    /// The ledger's mutator: apply `balance_change` to `resource`. Called
    /// only once the validator accepted, so the checked addition cannot
    /// fail; every other token keeps its balance.
    pub fn commit_balance(&mut self, resource: &TokenName, balance_change: i64)
        requires
            old(self).wf(),
            old(self).can_apply(resource@, balance_change),
        ensures
            final(self).wf(),
            final(self).spec_balance(resource@) == Some(
                (old(self).spec_balance(resource@).unwrap() + balance_change) as u64,
            ),
            forall|k: Seq<char>|
                k != resource@ ==> #[trigger] final(self).spec_balance(k) == old(self).spec_balance(
                    k,
                ),
    {
        let current = match self.balance_of(resource) {
            Some(b) => b,
            None => {
                proof {
                    assert(false);
                }
                0
            },
        };
        let updated = match current.checked_add_signed(balance_change) {
            Some(b) => b,
            None => {
                proof {
                    assert(false);
                }
                0
            },
        };
        self.set_balance(resource, updated);
    }

    /// Initialise balances: give each named token its balance, leaving
    /// tokens not named untouched.
    pub fn init(&mut self, token_names: &Vec<TokenName>, token_balances: &Vec<TokenBalance>)
        requires
            old(self).wf(),
            token_names@.len() == token_balances@.len(),
            forall|i: int, j: int|
                0 <= i < j < token_names@.len() ==> token_names@[i]@ != token_names@[j]@,
        ensures
            final(self).wf(),
            forall|i: int|
                0 <= i < token_names@.len() ==> #[trigger] final(self).spec_balance(
                    token_names@[i]@,
                ) == Some(token_balances@[i]),
            forall|k: Seq<char>|
                (forall|i: int| 0 <= i < token_names@.len() ==> token_names@[i]@ != k)
                    ==> #[trigger] final(self).spec_balance(k) == old(self).spec_balance(k),
    {
        let n = token_names.len();
        let mut idx: usize = 0;
        while idx < n
            invariant
                self.wf(),
                n == token_names@.len(),
                n == token_balances@.len(),
                idx <= n,
                forall|i: int, j: int|
                    0 <= i < j < token_names@.len() ==> token_names@[i]@ != token_names@[j]@,
                forall|i: int|
                    0 <= i < idx ==> #[trigger] self.spec_balance(token_names@[i]@) == Some(
                        token_balances@[i],
                    ),
                forall|k: Seq<char>|
                    (forall|i: int| 0 <= i < token_names@.len() ==> token_names@[i]@ != k)
                        ==> #[trigger] self.spec_balance(k) == old(self).spec_balance(k),
            decreases n - idx,
        {
            self.set_balance(&token_names[idx], token_balances[idx]);
            idx = idx + 1;
        }
    }
}

/// Why a commit was refused: the resource was not prepared by this
/// transaction (a protocol violation — commit without matching prepare, or a
/// duplicate commit), or the requested change does not match what the
/// validator could have accepted, so applying it would fail.
#[derive(Debug, Copy, Clone, PartialEq, Eq, Structural)]
pub enum CommitError {
    NotPrepared,
    Unapplicable,
}

/// A full participant of the demo: the protocol lock table plus the token
/// ledger it guards.
pub struct Participant {
    pub locks: LockTable,
    pub ledger: Ledger,
}

/// The answer a participant gives to a prepare request: a retry by the lock
/// holder is accepted again, a foreign lock is refused, and otherwise the
/// ledger's validator decides.
pub open spec fn prepare_result(
    locks: LockTable,
    ledger: Ledger,
    tid: TransactionId,
    k: Seq<char>,
    delta: i64,
) -> bool {
    match locks.spec_lock(k) {
        Some(TransactionStatus::Prepared(t)) => t == tid,
        _ => ledger.can_apply(k, delta),
    }
}

/// How one prepare request carries the lock table from `pre` to `post`
/// against a fixed ledger: the answer is [`prepare_result`]; a fresh
/// acceptance takes the lock, everything else leaves the table as it was.
pub open spec fn prepare_transition(
    pre: LockTable,
    post: LockTable,
    ledger: Ledger,
    tid: TransactionId,
    k: Seq<char>,
    delta: i64,
    r: bool,
) -> bool {
    &&& r == prepare_result(pre, ledger, tid, k, delta)
    &&& match pre.spec_lock(k) {
        Some(TransactionStatus::Prepared(t)) => post == pre,
        _ => if r {
            lock_acquired(pre, post, k, tid)
        } else {
            post == pre
        },
    }
}

impl Participant {
    pub open spec fn wf(self) -> bool {
        self.locks.wf() && self.ledger.wf()
    }

    /// A participant with no balances and no locks.
    pub fn new() -> (r: Self)
        ensures
            r.wf(),
            forall|k: Seq<char>| r.ledger.spec_balance(k) is None,
            forall|k: Seq<char>| r.locks.spec_lock(k) is None,
    {
        Participant { locks: LockTable::new(), ledger: Ledger::new() }
    }

    /// Initialise the ledger's balances. Must be called before any prepare
    /// for the named tokens; the lock table is untouched.
    pub fn init(&mut self, token_names: &Vec<TokenName>, token_balances: &Vec<TokenBalance>)
        requires
            old(self).wf(),
            token_names@.len() == token_balances@.len(),
            forall|i: int, j: int|
                0 <= i < j < token_names@.len() ==> token_names@[i]@ != token_names@[j]@,
        ensures
            final(self).wf(),
            final(self).locks == old(self).locks,
            forall|i: int|
                0 <= i < token_names@.len() ==> #[trigger] final(self).ledger.spec_balance(
                    token_names@[i]@,
                ) == Some(token_balances@[i]),
            forall|k: Seq<char>|
                (forall|i: int| 0 <= i < token_names@.len() ==> token_names@[i]@ != k)
                    ==> #[trigger] final(self).ledger.spec_balance(k) == old(
                    self,
                ).ledger.spec_balance(k),
    {
        self.ledger.init(token_names, token_balances);
    }

    /// Answer a prepare request: accept exactly when this transaction
    /// already holds the lock, or the resource is unlocked and the balance
    /// change is legal — in which case the lock is taken. Idempotent per
    /// `(tid, resource)`; the ledger is never written.
    pub fn prepare_transaction(
        &mut self,
        tid: TransactionId,
        resource: TokenName,
        balance_change: i64,
    ) -> (r: bool)
        requires
            old(self).wf(),
        ensures
            final(self).wf(),
            final(self).ledger == old(self).ledger,
            prepare_transition(
                old(self).locks,
                final(self).locks,
                old(self).ledger,
                tid,
                resource@,
                balance_change,
                r,
            ),
    {
        let ledger_ref = &self.ledger;
        let validator = |res: &TokenName, delta: i64| -> (b: bool)
            ensures
                b == ledger_ref.can_apply(res@, delta),
            { ledger_ref.prepare_balance(res, delta) };
        self.locks.prepare_transaction(tid, resource, balance_change, validator)
    }

    /// Abort `(tid, resource)`: release the lock only if this transaction
    /// holds it; any other state — including a foreign lock — is left
    /// untouched. Always succeeds, and is idempotent.
    pub fn abort_transaction(
        &mut self,
        tid: TransactionId,
        resource: TokenName,
        _balance_change: i64,
    )
        requires
            old(self).wf(),
        ensures
            final(self).wf(),
            final(self).ledger == old(self).ledger,
            old(self).locks.spec_lock(resource@) == Some(TransactionStatus::Prepared(tid)) ==> {
                &&& final(self).locks.spec_lock(resource@) == Some(TransactionStatus::Aborted)
                &&& forall|k: Seq<char>|
                    k != resource@ ==> #[trigger] final(self).locks.spec_lock(k) == old(
                        self,
                    ).locks.spec_lock(k)
            },
            old(self).locks.spec_lock(resource@) != Some(TransactionStatus::Prepared(tid))
                ==> final(self).locks == old(self).locks,
    {
        self.locks.abort_transaction(tid, resource);
    }

    /// Apply a commit: requires that this transaction prepared the resource
    /// and that the change is the one the validator could accept; then the
    /// balance moves by `balance_change` and the lock becomes `Committed`.
    /// Anything else is refused with the reason, and nothing changes — a
    /// duplicate or stray commit is detected and reported, never silently
    /// re-applied.
    pub fn commit_transaction(
        &mut self,
        tid: TransactionId,
        resource: TokenName,
        balance_change: i64,
    ) -> (r: Result<(), CommitError>)
        requires
            old(self).wf(),
        ensures
            final(self).wf(),
            match r {
                Ok(u) => {
                    &&& old(self).locks.spec_lock(resource@) == Some(
                        TransactionStatus::Prepared(tid),
                    )
                    &&& old(self).ledger.can_apply(resource@, balance_change)
                    &&& final(self).locks.spec_lock(resource@) == Some(
                        TransactionStatus::Committed,
                    )
                    &&& forall|k: Seq<char>|
                        k != resource@ ==> #[trigger] final(self).locks.spec_lock(k) == old(
                            self,
                        ).locks.spec_lock(k)
                    &&& final(self).ledger.spec_balance(resource@) == Some(
                        (old(self).ledger.spec_balance(resource@).unwrap() + balance_change) as u64,
                    )
                    &&& forall|k: Seq<char>|
                        k != resource@ ==> #[trigger] final(self).ledger.spec_balance(k) == old(
                            self,
                        ).ledger.spec_balance(k)
                },
                Err(e) => {
                    &&& *final(self) == *old(self)
                    &&& (e == CommitError::NotPrepared <==> old(self).locks.spec_lock(resource@)
                        != Some(TransactionStatus::Prepared(tid)))
                    &&& (e == CommitError::Unapplicable ==> !old(self).ledger.can_apply(
                        resource@,
                        balance_change,
                    ))
                },
            },
            r is Ok <==> (old(self).locks.spec_lock(resource@) == Some(
                TransactionStatus::Prepared(tid),
            ) && old(self).ledger.can_apply(resource@, balance_change)),
    {
        let holds = match self.locks.lock_state(&resource) {
            Some(TransactionStatus::Prepared(t)) => t == tid,
            _ => false,
        };
        if !holds {
            return Err(CommitError::NotPrepared);
        }
        if !self.ledger.prepare_balance(&resource, balance_change) {
            return Err(CommitError::Unapplicable);
        }
        self.ledger.commit_balance(&resource, balance_change);
        let committed = self.locks.commit_lock(tid, &resource);
        proof {
            assert(committed);
        }
        Ok(())
    }
}

/// Law: prepare is idempotent per `(tid, resource)`. Two consecutive
/// prepares with identical arguments (the ledger is not written in between —
/// prepare itself never writes it) return the same answer, and the second
/// leaves the lock table exactly as the first left it.
pub proof fn lemma_prepare_idempotent(
    locks0: LockTable,
    locks1: LockTable,
    locks2: LockTable,
    ledger: Ledger,
    tid: TransactionId,
    k: Seq<char>,
    delta: i64,
    r1: bool,
    r2: bool,
)
    requires
        prepare_transition(locks0, locks1, ledger, tid, k, delta, r1),
        prepare_transition(locks1, locks2, ledger, tid, k, delta, r2),
    ensures
        r2 == r1,
        locks2 == locks1,
{
}

} // verus!
