//! The coordinator side of the two-phase-commit protocol.
//!
//! A [`TransactionState`] tracks one transaction: its phase, one
//! [`Call`] record per participant and phase, and the two timestamps that
//! drive rate limiting and the prepare deadline. A [`TransactionList`] owns
//! every transaction together with the next-id counter.
//!
//! The coordinator never performs a remote call itself: a driver (the caller)
//! asks it what to send ([`TransactionList::tick_start`]), performs the calls,
//! and feeds every reply back in ([`TransactionList::prepare_received`] and
//! friends). All decisions — phase transitions, retries, deadlines — are made
//! here and verified.

use vstd::prelude::*;

verus! {

use crate::TransactionId;

/// Address of a participant. The transport resolves it to an endpoint; the
/// coordinator only compares addresses for equality.
pub type CanisterId = u64;

/// Time in nanoseconds after which a transaction is aborted if its prepare
/// phase has not finished. This prevents a participant that never answers a
/// prepare from locking the transaction forever. Abort and commit have no
/// deadline: once decided they are retried until every participant confirms.
pub const ABORT_PREPARE_AFTER_NS: u64 = 10_000_000_000;

/// Minimum time in nanoseconds between consecutive bursts of outbound calls
/// on the same transaction.
pub const RATE_LIMIT_TIMEOUT_NS: u64 = 5_000_000_000;

/// Phase of a coordinator transaction. `Committed` and `Aborted` are terminal.
#[derive(Debug, Copy, Clone, PartialEq, Eq, Structural)]
pub enum TransactionStatus {
    Preparing,
    Aborting,
    Committing,
    Committed,
    Aborted,
}

impl TransactionStatus {
    /// A terminal phase is never left and its transaction is never mutated.
    pub open spec fn is_terminal(self) -> bool {
        self == TransactionStatus::Committed || self == TransactionStatus::Aborted
    }
}

/// One remote call the coordinator owes to one participant for one phase,
/// with its outcome counters. `num_success > 0` means the participant has
/// durably accepted this phase's step and need never be called again for it.
#[derive(Debug)]
pub struct Call {
    pub target: CanisterId,
    pub method: String,
    pub payload: Vec<u8>,
    pub num_tries: u64,
    pub num_success: u64,
    pub num_fail: u64,
}

impl Call {
    pub fn new(target: CanisterId, method: String, payload: Vec<u8>) -> (r: Self)
        ensures
            r.target == target,
            r.method == method,
            r.payload == payload,
            r.num_tries == 0,
            r.num_success == 0,
            r.num_fail == 0,
    {
        Self { target, method, payload, num_tries: 0, num_success: 0, num_fail: 0 }
    }
}

/// Every record has been confirmed at least once.
pub open spec fn all_success(calls: Seq<Call>) -> bool {
    forall|i: int| 0 <= i < calls.len() ==> calls[i].num_success > 0
}

/// Some record has seen an explicit failure.
pub open spec fn any_failure(calls: Seq<Call>) -> bool {
    exists|i: int| 0 <= i < calls.len() && calls[i].num_fail > 0
}

/// The record has never been tried, confirmed or failed.
pub open spec fn fresh_counters(c: Call) -> bool {
    c.num_tries == 0 && c.num_success == 0 && c.num_fail == 0
}

/// No record has ever been tried, confirmed or failed.
pub open spec fn untouched(calls: Seq<Call>) -> bool {
    forall|i: int| 0 <= i < calls.len() ==> fresh_counters(#[trigger] calls[i])
}

/// A round nobody has confirmed yet is not confirmed by everybody.
proof fn lemma_untouched_not_all_success(calls: Seq<Call>)
    requires
        untouched(calls),
        calls.len() >= 1,
    ensures
        !all_success(calls),
{
    assert(fresh_counters(calls[0]));
}

/// Some record for `target` exists.
pub open spec fn has_target(calls: Seq<Call>, target: CanisterId) -> bool {
    exists|i: int| 0 <= i < calls.len() && calls[i].target == target
}

/// The index of the record for `target` (unique when targets are distinct).
pub open spec fn target_index(calls: Seq<Call>, target: CanisterId) -> int {
    choose|i: int| 0 <= i < calls.len() && calls[i].target == target
}

/// All targets are distinct, so a reply is attributed to a unique record.
pub open spec fn distinct_targets(calls: Seq<Call>) -> bool {
    forall|i: int, j: int|
        0 <= i < j < calls.len() ==> calls[i].target != calls[j].target
}

/// The two call lists address the same participants in the same order.
pub open spec fn aligned(a: Seq<Call>, b: Seq<Call>) -> bool {
    a.len() == b.len() && (forall|i: int| 0 <= i < a.len() ==> a[i].target == b[i].target)
}

/// All counters are below their machine limit, so a reply or an attempt can
/// still be recorded.
pub open spec fn counters_in_range(calls: Seq<Call>) -> bool {
    forall|i: int|
        0 <= i < calls.len() ==> #[trigger] calls[i].num_tries < u64::MAX
            && calls[i].num_success < u64::MAX && calls[i].num_fail < u64::MAX
}

/// The records `a` and `b` address the same participant with the same request.
pub open spec fn same_request(a: Call, b: Call) -> bool {
    a.target == b.target && a.method == b.method && a.payload == b.payload
}

/// The state of one transaction on the coordinator.
#[derive(Debug)]
pub struct TransactionState {
    /// Total number of participants in the two-phase commit.
    pub total_number_of_children: u64,
    pub transaction_status: TransactionStatus,
    pub pending_prepare_calls: Vec<Call>,
    pub pending_abort_calls: Vec<Call>,
    pub pending_commit_calls: Vec<Call>,
    /// The time an outbound call was last started for this transaction.
    pub last_action_time: u64,
    /// The time at which the prepare phase started.
    pub prepare_start_time: u64,
}

impl TransactionState {
    /// Well-formedness: the shape invariants (one record per participant and
    /// phase, aligned and distinct targets) and the protocol invariants that
    /// tie the phase to the counters. In particular: while the outcome is not
    /// decided no commit call was ever issued; a committing or committed
    /// transaction was confirmed by every participant's prepare; a terminal
    /// phase was confirmed by every participant of its own round.
    pub open spec fn wf(self) -> bool {
        &&& self.total_number_of_children == self.pending_prepare_calls@.len()
        &&& self.total_number_of_children == self.pending_abort_calls@.len()
        &&& self.total_number_of_children == self.pending_commit_calls@.len()
        &&& self.total_number_of_children >= 1
        &&& distinct_targets(self.pending_prepare_calls@)
        &&& aligned(self.pending_prepare_calls@, self.pending_abort_calls@)
        &&& aligned(self.pending_prepare_calls@, self.pending_commit_calls@)
        &&& self.last_action_time + RATE_LIMIT_TIMEOUT_NS <= u64::MAX
        &&& self.prepare_start_time + ABORT_PREPARE_AFTER_NS <= u64::MAX
        &&& self.transaction_status == TransactionStatus::Preparing ==> untouched(
            self.pending_abort_calls@,
        ) && untouched(self.pending_commit_calls@) && !all_success(self.pending_prepare_calls@)
        &&& (self.transaction_status == TransactionStatus::Aborting
            || self.transaction_status == TransactionStatus::Aborted) ==> untouched(
            self.pending_commit_calls@,
        )
        &&& (self.transaction_status == TransactionStatus::Committing
            || self.transaction_status == TransactionStatus::Committed) ==> all_success(
            self.pending_prepare_calls@,
        )
        &&& self.transaction_status == TransactionStatus::Aborting ==> !all_success(
            self.pending_abort_calls@,
        )
        &&& self.transaction_status == TransactionStatus::Committing ==> !all_success(
            self.pending_commit_calls@,
        )
        &&& self.transaction_status == TransactionStatus::Aborted ==> all_success(
            self.pending_abort_calls@,
        )
        &&& self.transaction_status == TransactionStatus::Committed ==> all_success(
            self.pending_commit_calls@,
        )
    }

    /// Build the state for a fresh transaction: one prepare, one abort and one
    /// commit record per participant, all counters zero, phase `Preparing`,
    /// the prepare deadline armed at `now`.
    pub fn new(
        canisters: &Vec<CanisterId>,
        method_prepare: &str,
        method_abort: &str,
        method_commit: &str,
        prepare_payloads: &Vec<Vec<u8>>,
        abort_payloads: &Vec<Vec<u8>>,
        commit_payloads: &Vec<Vec<u8>>,
        now: u64,
    ) -> (r: Self)
        requires
            canisters@.len() >= 1,
            prepare_payloads@.len() == canisters@.len(),
            abort_payloads@.len() == canisters@.len(),
            commit_payloads@.len() == canisters@.len(),
            distinct_canisters(canisters@),
            now + ABORT_PREPARE_AFTER_NS <= u64::MAX,
        ensures
            r.wf(),
            fresh_transaction(
                r,
                canisters@,
                method_prepare@,
                method_abort@,
                method_commit@,
                prepare_payloads@,
                abort_payloads@,
                commit_payloads@,
                now,
            ),
    {
        let prepare_calls = build_calls(canisters, method_prepare, prepare_payloads);
        let abort_calls = build_calls(canisters, method_abort, abort_payloads);
        let commit_calls = build_calls(canisters, method_commit, commit_payloads);
        let r = TransactionState {
            total_number_of_children: canisters.len() as u64,
            transaction_status: TransactionStatus::Preparing,
            pending_prepare_calls: prepare_calls,
            pending_abort_calls: abort_calls,
            pending_commit_calls: commit_calls,
            last_action_time: 0,
            prepare_start_time: now,
        };
        proof {
            assert(untouched(r.pending_abort_calls@));
            assert(untouched(r.pending_commit_calls@));
            assert(r.pending_prepare_calls@[0].num_success == 0);
            assert(!all_success(r.pending_prepare_calls@));
        }
        r
    }
}

/// What became of an incoming reply: counted against its call record, dropped
/// because the phase no longer accepts it, or refused because no record of the
/// active phase names its sender (a protocol error, reported to the caller).
#[derive(Debug, Copy, Clone, PartialEq, Eq, Structural)]
pub enum ReplyOutcome {
    Applied,
    DroppedPhase,
    UnknownParticipant,
}

/// The index of the unique record for a target.
proof fn lemma_target_index_unique(calls: Seq<Call>, target: CanisterId, i: int)
    requires
        distinct_targets(calls),
        0 <= i < calls.len(),
        calls[i].target == target,
    ensures
        target_index(calls, target) == i,
{
    assert(has_target(calls, target));
    let j = target_index(calls, target);
    assert(0 <= j < calls.len() && calls[j].target == target);
    if i < j {
        assert(calls[i].target != calls[j].target);
    } else if j < i {
        assert(calls[j].target != calls[i].target);
    }
}

/// The index of the record for `target`, or `None` if no record names it.
fn find_target(calls: &Vec<Call>, target: CanisterId) -> (r: Option<usize>)
    ensures
        match r {
            Some(i) => 0 <= i < calls@.len() && calls@[i as int].target == target,
            None => !has_target(calls@, target),
        },
{
    let n = calls.len();
    let mut i: usize = 0;
    while i < n
        invariant
            n == calls@.len(),
            i <= n,
            forall|j: int| 0 <= j < i ==> calls@[j].target != target,
        decreases n - i,
    {
        if calls[i].target == target {
            return Some(i);
        }
        i = i + 1;
    }
    None
}

/// Whether every record has been confirmed at least once.
fn all_success_exec(calls: &Vec<Call>) -> (r: bool)
    ensures
        r == all_success(calls@),
{
    let n = calls.len();
    let mut i: usize = 0;
    while i < n
        invariant
            n == calls@.len(),
            i <= n,
            forall|j: int| 0 <= j < i ==> calls@[j].num_success > 0,
        decreases n - i,
    {
        if calls[i].num_success == 0 {
            return false;
        }
        i = i + 1;
    }
    true
}

/// Whether some record has seen an explicit failure.
fn any_failure_exec(calls: &Vec<Call>) -> (r: bool)
    ensures
        r == any_failure(calls@),
{
    let n = calls.len();
    let mut i: usize = 0;
    while i < n
        invariant
            n == calls@.len(),
            i <= n,
            forall|j: int| 0 <= j < i ==> calls@[j].num_fail == 0,
        decreases n - i,
    {
        if calls[i].num_fail > 0 {
            return true;
        }
        i = i + 1;
    }
    false
}

/// The record at `i` had `success` counted against it; everything else about
/// the list is unchanged.
pub open spec fn reply_counted(old_calls: Seq<Call>, new_calls: Seq<Call>, i: int, success: bool) -> bool {
    &&& new_calls.len() == old_calls.len()
    &&& (forall|j: int| 0 <= j < old_calls.len() && j != i ==> new_calls[j] == old_calls[j])
    &&& same_request(new_calls[i], old_calls[i])
    &&& new_calls[i].num_tries == old_calls[i].num_tries
    &&& (if success {
        new_calls[i].num_success == old_calls[i].num_success + 1 && new_calls[i].num_fail
            == old_calls[i].num_fail
    } else {
        new_calls[i].num_fail == old_calls[i].num_fail + 1 && new_calls[i].num_success
            == old_calls[i].num_success
    })
}

/// The record at `i` had one more try recorded; everything else is unchanged.
pub open spec fn try_counted(old_calls: Seq<Call>, new_calls: Seq<Call>, i: int) -> bool {
    &&& new_calls.len() == old_calls.len()
    &&& (forall|j: int| 0 <= j < old_calls.len() && j != i ==> new_calls[j] == old_calls[j])
    &&& same_request(new_calls[i], old_calls[i])
    &&& new_calls[i].num_tries == old_calls[i].num_tries + 1
    &&& new_calls[i].num_success == old_calls[i].num_success
    &&& new_calls[i].num_fail == old_calls[i].num_fail
}

/// A participant's answer to one prepare call, as the driver hands it in:
/// an explicit "yes", an explicit "no" (the application rejected), or a
/// transport failure — unreachable peer, timed-out delivery or a malformed
/// reply — which carries no vote at all.
#[derive(Debug, Copy, Clone, PartialEq, Eq, Structural)]
pub enum PrepareVote {
    Yes,
    No,
    Failed,
}

/// How one prepare reply carries a transaction from `pre` to `post`: dropped
/// outside `Preparing`/`Aborting`, refused for an unknown sender, otherwise
/// counted. A "yes" counts a success, a "no" and a transport failure count a
/// failure. Only an explicit "no" decides `Aborting` (negatives are sticky;
/// the other route there is the prepare deadline, decided in the tick); a
/// transport failure never advances the phase, it is retried on later ticks;
/// a confirmation from every participant decides `Committing`. The abort
/// decision is itself sticky: once `Aborting`, stragglers are counted but
/// the phase stays.
pub open spec fn prepare_reply_transition(
    pre: TransactionState,
    post: TransactionState,
    vote: PrepareVote,
    from: CanisterId,
    r: ReplyOutcome,
) -> bool {
    &&& post.total_number_of_children == pre.total_number_of_children
    &&& post.pending_abort_calls == pre.pending_abort_calls
    &&& post.pending_commit_calls == pre.pending_commit_calls
    &&& post.last_action_time == pre.last_action_time
    &&& post.prepare_start_time == pre.prepare_start_time
    &&& if pre.transaction_status != TransactionStatus::Preparing && pre.transaction_status
        != TransactionStatus::Aborting {
        r == ReplyOutcome::DroppedPhase && post == pre
    } else if !has_target(pre.pending_prepare_calls@, from) {
        r == ReplyOutcome::UnknownParticipant && post == pre
    } else {
        &&& r == ReplyOutcome::Applied
        &&& reply_counted(
            pre.pending_prepare_calls@,
            post.pending_prepare_calls@,
            target_index(pre.pending_prepare_calls@, from),
            vote == PrepareVote::Yes,
        )
        &&& post.transaction_status == (if pre.transaction_status == TransactionStatus::Aborting {
            TransactionStatus::Aborting
        } else if vote == PrepareVote::No {
            TransactionStatus::Aborting
        } else if all_success(post.pending_prepare_calls@) {
            TransactionStatus::Committing
        } else {
            TransactionStatus::Preparing
        })
    }
}

/// How one abort reply carries a transaction from `pre` to `post`: dropped
/// outside `Aborting`, refused for an unknown sender, otherwise counted —
/// and once every participant has confirmed, the transaction is `Aborted`.
pub open spec fn abort_reply_transition(
    pre: TransactionState,
    post: TransactionState,
    success: bool,
    from: CanisterId,
    r: ReplyOutcome,
) -> bool {
    &&& post.total_number_of_children == pre.total_number_of_children
    &&& post.pending_prepare_calls == pre.pending_prepare_calls
    &&& post.pending_commit_calls == pre.pending_commit_calls
    &&& post.last_action_time == pre.last_action_time
    &&& post.prepare_start_time == pre.prepare_start_time
    &&& if pre.transaction_status != TransactionStatus::Aborting {
        r == ReplyOutcome::DroppedPhase && post == pre
    } else if !has_target(pre.pending_abort_calls@, from) {
        r == ReplyOutcome::UnknownParticipant && post == pre
    } else {
        &&& r == ReplyOutcome::Applied
        &&& reply_counted(
            pre.pending_abort_calls@,
            post.pending_abort_calls@,
            target_index(pre.pending_abort_calls@, from),
            success,
        )
        &&& post.transaction_status == (if all_success(post.pending_abort_calls@) {
            TransactionStatus::Aborted
        } else {
            TransactionStatus::Aborting
        })
    }
}

/// How one commit reply carries a transaction from `pre` to `post`: dropped
/// outside `Committing`, refused for an unknown sender, otherwise counted —
/// and once every participant has confirmed, the transaction is `Committed`.
pub open spec fn commit_reply_transition(
    pre: TransactionState,
    post: TransactionState,
    success: bool,
    from: CanisterId,
    r: ReplyOutcome,
) -> bool {
    &&& post.total_number_of_children == pre.total_number_of_children
    &&& post.pending_prepare_calls == pre.pending_prepare_calls
    &&& post.pending_abort_calls == pre.pending_abort_calls
    &&& post.last_action_time == pre.last_action_time
    &&& post.prepare_start_time == pre.prepare_start_time
    &&& if pre.transaction_status != TransactionStatus::Committing {
        r == ReplyOutcome::DroppedPhase && post == pre
    } else if !has_target(pre.pending_commit_calls@, from) {
        r == ReplyOutcome::UnknownParticipant && post == pre
    } else {
        &&& r == ReplyOutcome::Applied
        &&& reply_counted(
            pre.pending_commit_calls@,
            post.pending_commit_calls@,
            target_index(pre.pending_commit_calls@, from),
            success,
        )
        &&& post.transaction_status == (if all_success(post.pending_commit_calls@) {
            TransactionStatus::Committed
        } else {
            TransactionStatus::Committing
        })
    }
}

impl TransactionState {
    /// Ingest one prepare reply from `canister_id`.
    ///
    /// Replies are accepted while the phase is `Preparing` or `Aborting` and
    /// dropped in any other phase, so a straggler can never disturb a decided
    /// outcome. While `Preparing`, an explicit "no" decides `Aborting`; a
    /// transport failure only counts against the record and the call is
    /// retried on a later tick; a "yes" from the last outstanding
    /// participant decides `Committing`. While `Aborting`, replies are only
    /// counted: the abort decision stands.
    pub fn prepare_received(&mut self, vote: PrepareVote, canister_id: CanisterId) -> (r:
        ReplyOutcome)
        requires
            old(self).wf(),
            old(self).transaction_status == TransactionStatus::Preparing || old(
                self,
            ).transaction_status == TransactionStatus::Aborting ==> counters_in_range(
                old(self).pending_prepare_calls@,
            ),
        ensures
            final(self).wf(),
            prepare_reply_transition(*old(self), *final(self), vote, canister_id, r),
    {
        if !(self.transaction_status == TransactionStatus::Preparing || self.transaction_status
            == TransactionStatus::Aborting) {
            return ReplyOutcome::DroppedPhase;
        }
        let found = find_target(&self.pending_prepare_calls, canister_id);
        match found {
            None => ReplyOutcome::UnknownParticipant,
            Some(i) => {
                proof {
                    lemma_target_index_unique(self.pending_prepare_calls@, canister_id, i as int);
                }
                let call = &mut self.pending_prepare_calls[i];
                if vote == PrepareVote::Yes {
                    call.num_success = call.num_success + 1;
                } else {
                    call.num_fail = call.num_fail + 1;
                }
                if self.transaction_status == TransactionStatus::Preparing {
                    if vote == PrepareVote::No {
                        // One peer rejected the prepare statement; negatives
                        // are sticky.
                        self.transaction_status = TransactionStatus::Aborting;
                    } else if all_success_exec(&self.pending_prepare_calls) {
                        // All peers approved the prepare statement.
                        self.transaction_status = TransactionStatus::Committing;
                    }
                }
                proof {
                    if untouched(self.pending_commit_calls@) {
                        lemma_untouched_not_all_success(self.pending_commit_calls@);
                    }
                    if untouched(self.pending_abort_calls@) {
                        lemma_untouched_not_all_success(self.pending_abort_calls@);
                    }
                }
                ReplyOutcome::Applied
            },
        }
    }

    /// Ingest one abort reply. Accepted only while `Aborting`; a reply in any
    /// other phase is dropped. When every participant has confirmed the abort
    /// the transaction becomes `Aborted`.
    pub fn abort_received(&mut self, success: bool, canister_id: CanisterId) -> (r: ReplyOutcome)
        requires
            old(self).wf(),
            old(self).transaction_status == TransactionStatus::Aborting ==> counters_in_range(
                old(self).pending_abort_calls@,
            ),
        ensures
            final(self).wf(),
            abort_reply_transition(*old(self), *final(self), success, canister_id, r),
    {
        if self.transaction_status != TransactionStatus::Aborting {
            return ReplyOutcome::DroppedPhase;
        }
        proof {
            lemma_aligned_distinct(
                self.pending_prepare_calls@,
                self.pending_abort_calls@,
            );
        }
        let found = find_target(&self.pending_abort_calls, canister_id);
        match found {
            None => ReplyOutcome::UnknownParticipant,
            Some(i) => {
                proof {
                    lemma_target_index_unique(self.pending_abort_calls@, canister_id, i as int);
                }
                let call = &mut self.pending_abort_calls[i];
                if success {
                    call.num_success = call.num_success + 1;
                } else {
                    call.num_fail = call.num_fail + 1;
                }
                if all_success_exec(&self.pending_abort_calls) {
                    self.transaction_status = TransactionStatus::Aborted;
                }
                ReplyOutcome::Applied
            },
        }
    }

    /// Ingest one commit reply. Accepted only while `Committing`; a reply in
    /// any other phase is dropped. When every participant has confirmed the
    /// commit the transaction becomes `Committed`.
    pub fn commit_received(&mut self, success: bool, canister_id: CanisterId) -> (r: ReplyOutcome)
        requires
            old(self).wf(),
            old(self).transaction_status == TransactionStatus::Committing ==> counters_in_range(
                old(self).pending_commit_calls@,
            ),
        ensures
            final(self).wf(),
            commit_reply_transition(*old(self), *final(self), success, canister_id, r),
    {
        if self.transaction_status != TransactionStatus::Committing {
            return ReplyOutcome::DroppedPhase;
        }
        proof {
            lemma_aligned_distinct(
                self.pending_prepare_calls@,
                self.pending_commit_calls@,
            );
        }
        let found = find_target(&self.pending_commit_calls, canister_id);
        match found {
            None => ReplyOutcome::UnknownParticipant,
            Some(i) => {
                proof {
                    lemma_target_index_unique(self.pending_commit_calls@, canister_id, i as int);
                }
                let call = &mut self.pending_commit_calls[i];
                if success {
                    call.num_success = call.num_success + 1;
                } else {
                    call.num_fail = call.num_fail + 1;
                }
                if all_success_exec(&self.pending_commit_calls) {
                    self.transaction_status = TransactionStatus::Committed;
                }
                ReplyOutcome::Applied
            },
        }
    }

    /// Record that a prepare call is being started towards `canister_id`.
    /// Issued while the transaction is still undecided (the burst that
    /// started in `Preparing` may overlap an abort decision).
    pub fn register_prepare_call(&mut self, canister_id: CanisterId)
        requires
            old(self).wf(),
            old(self).transaction_status == TransactionStatus::Preparing || old(
                self,
            ).transaction_status == TransactionStatus::Aborting,
            has_target(old(self).pending_prepare_calls@, canister_id),
            counters_in_range(old(self).pending_prepare_calls@),
        ensures
            final(self).wf(),
            try_counted(
                old(self).pending_prepare_calls@,
                final(self).pending_prepare_calls@,
                target_index(old(self).pending_prepare_calls@, canister_id),
            ),
            final(self).transaction_status == old(self).transaction_status,
            final(self).total_number_of_children == old(self).total_number_of_children,
            final(self).pending_abort_calls == old(self).pending_abort_calls,
            final(self).pending_commit_calls == old(self).pending_commit_calls,
            final(self).last_action_time == old(self).last_action_time,
            final(self).prepare_start_time == old(self).prepare_start_time,
    {
        let found = find_target(&self.pending_prepare_calls, canister_id);
        match found {
            None => {
                proof {
                    assert(false);
                }
            },
            Some(i) => {
                proof {
                    lemma_target_index_unique(self.pending_prepare_calls@, canister_id, i as int);
                }
                let call = &mut self.pending_prepare_calls[i];
                call.num_tries = call.num_tries + 1;
                proof {
                    assert forall|k: int|
                        0 <= k < self.pending_prepare_calls@.len() implies #[trigger] self
                        .pending_prepare_calls@[k].num_success == old(
                        self,
                    ).pending_prepare_calls@[k].num_success by {}
                    if old(self).transaction_status == TransactionStatus::Preparing {
                        assert(!all_success(old(self).pending_prepare_calls@));
                        let w = choose|k: int|
                            0 <= k < old(self).pending_prepare_calls@.len() && !(old(
                                self,
                            ).pending_prepare_calls@[k].num_success > 0);
                        assert(self.pending_prepare_calls@[w].num_success == 0);
                        assert(!all_success(self.pending_prepare_calls@));
                    }
                    assert(self.wf());
                }
            },
        }
    }

    /// Record that an abort call is being started towards `canister_id`.
    /// Issued once the abort round has begun (the burst may overlap the final
    /// `Aborted` decision).
    pub fn register_abort_call(&mut self, canister_id: CanisterId)
        requires
            old(self).wf(),
            old(self).transaction_status == TransactionStatus::Aborting || old(
                self,
            ).transaction_status == TransactionStatus::Aborted,
            has_target(old(self).pending_abort_calls@, canister_id),
            counters_in_range(old(self).pending_abort_calls@),
        ensures
            final(self).wf(),
            try_counted(
                old(self).pending_abort_calls@,
                final(self).pending_abort_calls@,
                target_index(old(self).pending_abort_calls@, canister_id),
            ),
            final(self).transaction_status == old(self).transaction_status,
            final(self).total_number_of_children == old(self).total_number_of_children,
            final(self).pending_prepare_calls == old(self).pending_prepare_calls,
            final(self).pending_commit_calls == old(self).pending_commit_calls,
            final(self).last_action_time == old(self).last_action_time,
            final(self).prepare_start_time == old(self).prepare_start_time,
    {
        proof {
            lemma_aligned_distinct(self.pending_prepare_calls@, self.pending_abort_calls@);
        }
        let found = find_target(&self.pending_abort_calls, canister_id);
        match found {
            None => {
                proof {
                    assert(false);
                }
            },
            Some(i) => {
                proof {
                    lemma_target_index_unique(self.pending_abort_calls@, canister_id, i as int);
                }
                let call = &mut self.pending_abort_calls[i];
                call.num_tries = call.num_tries + 1;
                proof {
                    assert forall|k: int|
                        0 <= k < self.pending_abort_calls@.len() implies #[trigger] self
                        .pending_abort_calls@[k].num_success == old(
                        self,
                    ).pending_abort_calls@[k].num_success by {}
                    if old(self).transaction_status == TransactionStatus::Aborting {
                        assert(!all_success(old(self).pending_abort_calls@));
                        let w = choose|k: int|
                            0 <= k < old(self).pending_abort_calls@.len() && !(old(
                                self,
                            ).pending_abort_calls@[k].num_success > 0);
                        assert(self.pending_abort_calls@[w].num_success == 0);
                        assert(!all_success(self.pending_abort_calls@));
                    }
                    assert(self.wf());
                }
            },
        }
    }

    /// Record that a commit call is being started towards `canister_id`.
    /// Issued once the commit round has begun (the burst may overlap the
    /// final `Committed` decision).
    pub fn register_commit_call(&mut self, canister_id: CanisterId)
        requires
            old(self).wf(),
            old(self).transaction_status == TransactionStatus::Committing || old(
                self,
            ).transaction_status == TransactionStatus::Committed,
            has_target(old(self).pending_commit_calls@, canister_id),
            counters_in_range(old(self).pending_commit_calls@),
        ensures
            final(self).wf(),
            try_counted(
                old(self).pending_commit_calls@,
                final(self).pending_commit_calls@,
                target_index(old(self).pending_commit_calls@, canister_id),
            ),
            final(self).transaction_status == old(self).transaction_status,
            final(self).total_number_of_children == old(self).total_number_of_children,
            final(self).pending_prepare_calls == old(self).pending_prepare_calls,
            final(self).pending_abort_calls == old(self).pending_abort_calls,
            final(self).last_action_time == old(self).last_action_time,
            final(self).prepare_start_time == old(self).prepare_start_time,
    {
        proof {
            lemma_aligned_distinct(self.pending_prepare_calls@, self.pending_commit_calls@);
        }
        let found = find_target(&self.pending_commit_calls, canister_id);
        match found {
            None => {
                proof {
                    assert(false);
                }
            },
            Some(i) => {
                proof {
                    lemma_target_index_unique(self.pending_commit_calls@, canister_id, i as int);
                }
                let call = &mut self.pending_commit_calls[i];
                call.num_tries = call.num_tries + 1;
                proof {
                    assert forall|k: int|
                        0 <= k < self.pending_commit_calls@.len() implies #[trigger] self
                        .pending_commit_calls@[k].num_success == old(
                        self,
                    ).pending_commit_calls@[k].num_success by {}
                    if old(self).transaction_status == TransactionStatus::Committing {
                        assert(!all_success(old(self).pending_commit_calls@));
                        let w = choose|k: int|
                            0 <= k < old(self).pending_commit_calls@.len() && !(old(
                                self,
                            ).pending_commit_calls@[k].num_success > 0);
                        assert(self.pending_commit_calls@[w].num_success == 0);
                        assert(!all_success(self.pending_commit_calls@));
                    }
                    assert(self.wf());
                }
            },
        }
    }
}

impl TransactionState {
    /// Stamp the time at which an outbound call is being started, so that the
    /// next burst for this transaction is rate limited against it.
    pub fn set_last_action_time(&mut self, now: u64)
        requires
            old(self).wf(),
            now + RATE_LIMIT_TIMEOUT_NS <= u64::MAX,
        ensures
            final(self).wf(),
            *final(self) == (TransactionState { last_action_time: now, ..*old(self) }),
    {
        self.last_action_time = now;
    }
}

/// Distinctness carries over from an aligned list.
proof fn lemma_aligned_distinct(a: Seq<Call>, b: Seq<Call>)
    requires
        distinct_targets(a),
        aligned(a, b),
    ensures
        distinct_targets(b),
{
}

/// The addresses are pairwise distinct.
pub open spec fn distinct_canisters(targets: Seq<CanisterId>) -> bool {
    forall|i: int, j: int| 0 <= i < j < targets.len() ==> targets[i] != targets[j]
}

/// `r` is the state of a freshly begun transaction: phase `Preparing`, one
/// untouched record per participant and round carrying that round's method
/// name and the participant's payload, the prepare deadline armed at `now`.
pub open spec fn fresh_transaction(
    r: TransactionState,
    canisters: Seq<CanisterId>,
    method_prepare: Seq<char>,
    method_abort: Seq<char>,
    method_commit: Seq<char>,
    prepare_payloads: Seq<Vec<u8>>,
    abort_payloads: Seq<Vec<u8>>,
    commit_payloads: Seq<Vec<u8>>,
    now: u64,
) -> bool {
    &&& r.transaction_status == TransactionStatus::Preparing
    &&& r.total_number_of_children == canisters.len()
    &&& r.last_action_time == 0
    &&& r.prepare_start_time == now
    &&& r.pending_prepare_calls@.len() == canisters.len()
    &&& r.pending_abort_calls@.len() == canisters.len()
    &&& r.pending_commit_calls@.len() == canisters.len()
    &&& forall|i: int|
        0 <= i < canisters.len() ==> call_built(
            #[trigger] r.pending_prepare_calls@[i],
            canisters[i],
            method_prepare,
            prepare_payloads[i]@,
        )
    &&& forall|i: int|
        0 <= i < canisters.len() ==> call_built(
            #[trigger] r.pending_abort_calls@[i],
            canisters[i],
            method_abort,
            abort_payloads[i]@,
        )
    &&& forall|i: int|
        0 <= i < canisters.len() ==> call_built(
            #[trigger] r.pending_commit_calls@[i],
            canisters[i],
            method_commit,
            commit_payloads[i]@,
        )
}

/// `c` is a fresh record for `target` carrying `method` and `payload`.
pub open spec fn call_built(c: Call, target: CanisterId, method: Seq<char>, payload: Seq<u8>) -> bool {
    &&& c.target == target
    &&& c.method@ == method
    &&& c.payload@ == payload
    &&& c.num_tries == 0
    &&& c.num_success == 0
    &&& c.num_fail == 0
}

/// One fresh call record per participant, with the given method name and the
/// participant's payload.
fn build_calls(canisters: &Vec<CanisterId>, method: &str, payloads: &Vec<Vec<u8>>) -> (r: Vec<Call>)
    requires
        payloads@.len() == canisters@.len(),
    ensures
        r@.len() == canisters@.len(),
        forall|i: int|
            0 <= i < canisters@.len() ==> call_built(
                #[trigger] r@[i],
                canisters@[i],
                method@,
                payloads@[i]@,
            ),
{
    let mut calls: Vec<Call> = Vec::new();
    let n = canisters.len();
    let mut i: usize = 0;
    while i < n
        invariant
            n == canisters@.len(),
            payloads@.len() == canisters@.len(),
            i <= n,
            calls@.len() == i,
            forall|j: int|
                0 <= j < i ==> call_built(
                    #[trigger] calls@[j],
                    canisters@[j],
                    method@,
                    payloads@[j]@,
                ),
        decreases n - i,
    {
        let payload = clone_bytes(&payloads[i]);
        calls.push(Call::new(canisters[i], method.to_owned(), payload));
        i = i + 1;
    }
    calls
}

/// A copy of a byte vector with the same contents.
pub(crate) fn clone_bytes(v: &Vec<u8>) -> (r: Vec<u8>)
    ensures
        r@ == v@,
{
    let r = v.clone();
    proof {
        assert(r@ =~= v@);
    }
    r
}

/// The records hold the same data (targets, requests and counters), compared
/// by contents rather than by identity.
pub open spec fn view_eq_call(a: Call, b: Call) -> bool {
    &&& a.target == b.target
    &&& a.method@ == b.method@
    &&& a.payload@ == b.payload@
    &&& a.num_tries == b.num_tries
    &&& a.num_success == b.num_success
    &&& a.num_fail == b.num_fail
}

/// Elementwise [`view_eq_call`] over two lists.
pub open spec fn calls_like(a: Seq<Call>, b: Seq<Call>) -> bool {
    a.len() == b.len() && (forall|i: int| 0 <= i < a.len() ==> view_eq_call(#[trigger] a[i], b[i]))
}

/// The records of a round that still await their first confirmation, in order.
pub open spec fn pending(calls: Seq<Call>) -> Seq<Call> {
    calls.filter(|c: Call| c.num_success == 0)
}

/// A copy of one call record with the same contents.
fn copy_call(c: &Call) -> (r: Call)
    ensures
        view_eq_call(r, *c),
{
    Call {
        target: c.target,
        method: c.method.clone(),
        payload: clone_bytes(&c.payload),
        num_tries: c.num_tries,
        num_success: c.num_success,
        num_fail: c.num_fail,
    }
}

/// Copies of the records that still await their first confirmation, in order:
/// the calls a driver must (re)issue for the current round.
fn snapshot_pending(calls: &Vec<Call>) -> (r: Vec<Call>)
    ensures
        calls_like(r@, pending(calls@)),
{
    let n = calls.len();
    let mut out: Vec<Call> = Vec::new();
    let mut i: usize = 0;
    proof {
        reveal(Seq::filter);
        assert(calls@.take(0) =~= Seq::<Call>::empty());
    }
    while i < n
        invariant
            n == calls@.len(),
            i <= n,
            calls_like(out@, pending(calls@.take(i as int))),
        decreases n - i,
    {
        let pending_now = calls[i].num_success == 0;
        if pending_now {
            out.push(copy_call(&calls[i]));
        }
        proof {
            reveal(Seq::filter);
            let pre = calls@.take(i as int);
            let post = calls@.take(i as int + 1);
            assert(post.drop_last() =~= pre);
            assert(post.last() == calls@[i as int]);
            if pending_now {
                assert(pending(post) =~= pending(pre).push(calls@[i as int]));
            } else {
                assert(pending(post) =~= pending(pre));
            }
        }
        i = i + 1;
    }
    proof {
        assert(calls@.take(n as int) =~= calls@);
    }
    out
}

/// The public, queryable view of one transaction: its id and current phase.
#[derive(Debug, Copy, Clone, PartialEq, Eq, Structural)]
pub struct TransactionResult {
    pub transaction_number: TransactionId,
    pub state: TransactionStatus,
}

/// What one driver tick asks of the caller: nothing (rate limited, already
/// finished, or the prepare deadline just fired), or a burst of calls to
/// issue for the current phase.
#[derive(Debug)]
pub enum TickStart {
    /// Too soon after the previous burst; come back later.
    RateLimited,
    /// The transaction is in a terminal phase; there is nothing left to do.
    Finished,
    /// The prepare deadline fired: the transaction has moved to `Aborting`.
    /// No calls are issued on this tick; the next tick starts the abort round.
    PrepareTimedOut,
    /// Issue each of these calls for `phase`, registering every attempt and
    /// feeding every reply back into the matching reply handler.
    Issue { phase: TransactionStatus, calls: Vec<Call> },
}

/// The transaction is too soon after its previous burst to act at `now`.
pub open spec fn rate_limited(tx: TransactionState, now: u64) -> bool {
    now <= tx.last_action_time + RATE_LIMIT_TIMEOUT_NS
}

/// The transaction's prepare deadline has expired at `now`.
pub open spec fn prepare_expired(tx: TransactionState, now: u64) -> bool {
    now > tx.prepare_start_time + ABORT_PREPARE_AFTER_NS
}

/// How one call of [`TransactionList::tick_start`] carries the table from
/// `pre` to `post`, and what it answers. Only the rate limit and the prepare
/// deadline are decided here; every phase change on a reply is decided in the
/// reply handlers.
pub open spec fn tick_start_transition(
    pre: TransactionList,
    post: TransactionList,
    tid: int,
    now: u64,
    r: TickStart,
) -> bool {
    let tx = pre.transactions@[tid];
    &&& post.next_transaction_number == pre.next_transaction_number
    &&& post.disable_timer == pre.disable_timer
    &&& post.transactions@.len() == pre.transactions@.len()
    &&& (forall|j: int|
        0 <= j < pre.transactions@.len() && j != tid ==> post.transactions@[j]
            == pre.transactions@[j])
    &&& if rate_limited(tx, now) {
        r == TickStart::RateLimited && post == pre
    } else if tx.transaction_status.is_terminal() {
        r == TickStart::Finished && post == pre
    } else if tx.transaction_status == TransactionStatus::Preparing && prepare_expired(tx, now) {
        &&& r == TickStart::PrepareTimedOut
        &&& post.transactions@[tid] == (TransactionState {
            transaction_status: TransactionStatus::Aborting,
            ..tx
        })
    } else {
        &&& post == pre
        &&& (r matches TickStart::Issue { phase, calls } && phase == tx.transaction_status
            && calls_like(
            calls@,
            pending(
                if tx.transaction_status == TransactionStatus::Preparing {
                    tx.pending_prepare_calls@
                } else if tx.transaction_status == TransactionStatus::Aborting {
                    tx.pending_abort_calls@
                } else {
                    tx.pending_commit_calls@
                },
            ),
        ))
    }
}

/// The coordinator's table of transactions: every transaction keyed by its
/// id, the next-id counter, and the switch for the periodic driver.
/// Transaction ids are allocated in order, so the id is the index.
pub struct TransactionList {
    pub next_transaction_number: TransactionId,
    pub transactions: Vec<TransactionState>,
    pub disable_timer: bool,
}

impl TransactionList {
    /// Every transaction is well-formed and every id handed out so far is at
    /// least as large as every registered one.
    pub open spec fn wf(self) -> bool {
        &&& self.transactions@.len() <= self.next_transaction_number
        &&& forall|i: int|
            0 <= i < self.transactions@.len() ==> (#[trigger] self.transactions@[i]).wf()
    }
}

impl Default for TransactionList {
    /// An empty table: no transactions, ids start at zero, driver enabled.
    fn default() -> (r: Self)
        ensures
            r.wf(),
            r.next_transaction_number == 0,
            r.transactions@.len() == 0,
            !r.disable_timer,
    {
        Self { next_transaction_number: 0, transactions: Vec::new(), disable_timer: false }
    }
}

impl TransactionList {
    /// Allocate the next transaction id. Ids strictly increase over the
    /// lifetime of the coordinator and are never reused.
    pub fn get_next_transaction_number(&mut self) -> (r: TransactionId)
        requires
            old(self).wf(),
            old(self).next_transaction_number < usize::MAX,
        ensures
            final(self).wf(),
            r == old(self).next_transaction_number,
            final(self).next_transaction_number == old(self).next_transaction_number + 1,
            final(self).transactions == old(self).transactions,
            final(self).disable_timer == old(self).disable_timer,
    {
        let transaction_number = self.next_transaction_number;
        self.next_transaction_number = self.next_transaction_number + 1;
        transaction_number
    }

    /// Register a freshly built transaction under its allocated id and return
    /// its queryable state. Ids are registered in allocation order.
    pub fn add_transaction(
        &mut self,
        transaction_state: TransactionState,
        transaction_number: TransactionId,
    ) -> (r: TransactionResult)
        requires
            old(self).wf(),
            transaction_state.wf(),
            transaction_number == old(self).transactions@.len(),
            transaction_number < old(self).next_transaction_number,
        ensures
            final(self).wf(),
            final(self).transactions@ == old(self).transactions@.push(transaction_state),
            final(self).next_transaction_number == old(self).next_transaction_number,
            final(self).disable_timer == old(self).disable_timer,
            r.transaction_number == transaction_number,
            r.state == transaction_state.transaction_status,
    {
        let r = TransactionResult {
            transaction_number,
            state: transaction_state.transaction_status,
        };
        self.transactions.push(transaction_state);
        r
    }

    /// Get the current state of a transaction. Read-only.
    pub fn get_transaction_state(&self, tid: TransactionId) -> (r: TransactionResult)
        requires
            self.wf(),
            tid < self.transactions@.len(),
        ensures
            r.transaction_number == tid,
            r.state == self.transactions@[tid as int].transaction_status,
    {
        let tx = &self.transactions[tid];
        TransactionResult { transaction_number: tid, state: tx.transaction_status }
    }

    /// The ids of every transaction not yet in a terminal phase, in ascending
    /// order, so that a driver makes deterministic progress.
    pub fn get_active_transactions(&self) -> (r: Vec<TransactionId>)
        requires
            self.wf(),
        ensures
            forall|k: int|
                0 <= k < r@.len() ==> #[trigger] r@[k] < self.transactions@.len() && !self
                    .transactions@[r@[k] as int].transaction_status.is_terminal(),
            forall|i: int|
                0 <= i < self.transactions@.len() && !(#[trigger] self.transactions@[i]
                    .transaction_status.is_terminal()) ==> exists|k: int|
                    0 <= k < r@.len() && r@[k] == i,
            forall|k1: int, k2: int| 0 <= k1 < k2 < r@.len() ==> r@[k1] < r@[k2],
    {
        let n = self.transactions.len();
        let mut out: Vec<TransactionId> = Vec::new();
        let mut i: usize = 0;
        while i < n
            invariant
                n == self.transactions@.len(),
                i <= n,
                forall|k: int|
                    0 <= k < out@.len() ==> #[trigger] out@[k] < i && !self
                        .transactions@[out@[k] as int].transaction_status.is_terminal(),
                forall|j: int|
                    0 <= j < i && !(#[trigger] self.transactions@[j]
                        .transaction_status.is_terminal()) ==> exists|k: int|
                        0 <= k < out@.len() && out@[k] == j,
                forall|k1: int, k2: int| 0 <= k1 < k2 < out@.len() ==> out@[k1] < out@[k2],
            decreases n - i,
        {
            let ghost out_pre = out@;
            let tx = &self.transactions[i];
            let active = !(tx.transaction_status == TransactionStatus::Committed
                || tx.transaction_status == TransactionStatus::Aborted);
            if active {
                out.push(i);
            }
            proof {
                assert forall|j: int|
                    0 <= j < i + 1 && !(#[trigger] self.transactions@[j]
                        .transaction_status.is_terminal()) implies exists|k: int|
                    0 <= k < out@.len() && out@[k] == j by {
                    if j == i as int {
                        assert(out@[out@.len() - 1] == i);
                    } else {
                        let k0 = choose|k: int| 0 <= k < out_pre.len() && out_pre[k] == j;
                        assert(out@[k0] == j);
                    }
                }
            }
            i = i + 1;
        }
        out
    }

    /// Turn the periodic driver off (or back on) for testing, without
    /// stopping timer scheduling itself.
    pub fn disable_timer(&mut self, disable: bool)
        requires
            old(self).wf(),
        ensures
            final(self).wf(),
            final(self).disable_timer == disable,
            final(self).next_transaction_number == old(self).next_transaction_number,
            final(self).transactions == old(self).transactions,
    {
        self.disable_timer = disable;
    }

    /// Whether every counter of the transaction can still be incremented:
    /// the precondition a driver must check before registering an attempt or
    /// a reply.
    pub fn counters_ok(&self, tid: TransactionId) -> (r: bool)
        requires
            self.wf(),
            tid < self.transactions@.len(),
        ensures
            r == {
                let tx = self.transactions@[tid as int];
                counters_in_range(tx.pending_prepare_calls@) && counters_in_range(
                    tx.pending_abort_calls@,
                ) && counters_in_range(tx.pending_commit_calls@)
            },
    {
        let tx = &self.transactions[tid];
        counters_in_range_exec(&tx.pending_prepare_calls) && counters_in_range_exec(
            &tx.pending_abort_calls,
        ) && counters_in_range_exec(&tx.pending_commit_calls)
    }

    /// Start one driver tick for a transaction: apply the rate limit, fire
    /// the prepare deadline if it expired, and otherwise hand back the burst
    /// of calls the driver owes for the current phase. At most one burst of
    /// work is asked for per tick; the call is idempotent between bursts.
    pub fn tick_start(&mut self, tid: TransactionId, now: u64) -> (r: TickStart)
        requires
            old(self).wf(),
            tid < old(self).transactions@.len(),
        ensures
            final(self).wf(),
            tick_start_transition(*old(self), *final(self), tid as int, now, r),
    {
        let rate_hit = {
            let tx = &self.transactions[tid];
            now <= tx.last_action_time + RATE_LIMIT_TIMEOUT_NS
        };
        if rate_hit {
            return TickStart::RateLimited;
        }
        let status = self.transactions[tid].transaction_status;
        match status {
            TransactionStatus::Preparing => {
                let expired = {
                    let tx = &self.transactions[tid];
                    now > tx.prepare_start_time + ABORT_PREPARE_AFTER_NS
                };
                if expired {
                    let tx = &mut self.transactions[tid];
                    tx.transaction_status = TransactionStatus::Aborting;
                    proof {
                        lemma_untouched_not_all_success(tx.pending_abort_calls@);
                        assert(tx.wf());
                    }
                    TickStart::PrepareTimedOut
                } else {
                    let tx = &self.transactions[tid];
                    TickStart::Issue {
                        phase: TransactionStatus::Preparing,
                        calls: snapshot_pending(&tx.pending_prepare_calls),
                    }
                }
            },
            TransactionStatus::Aborting => {
                let tx = &self.transactions[tid];
                TickStart::Issue {
                    phase: TransactionStatus::Aborting,
                    calls: snapshot_pending(&tx.pending_abort_calls),
                }
            },
            TransactionStatus::Committing => {
                let tx = &self.transactions[tid];
                TickStart::Issue {
                    phase: TransactionStatus::Committing,
                    calls: snapshot_pending(&tx.pending_commit_calls),
                }
            },
            TransactionStatus::Committed => TickStart::Finished,
            TransactionStatus::Aborted => TickStart::Finished,
        }
    }

    /// End one driver tick: if the phase changed since the tick started,
    /// clear the rate-limit stamp so the next tick proceeds immediately.
    pub fn finish_tick(&mut self, tid: TransactionId, initial_status: TransactionStatus)
        requires
            old(self).wf(),
            tid < old(self).transactions@.len(),
        ensures
            final(self).wf(),
            final(self).next_transaction_number == old(self).next_transaction_number,
            final(self).disable_timer == old(self).disable_timer,
            final(self).transactions@.len() == old(self).transactions@.len(),
            forall|j: int|
                0 <= j < old(self).transactions@.len() && j != tid ==> final(self).transactions@[j]
                    == old(self).transactions@[j],
            final(self).transactions@[tid as int] == (if old(self).transactions@[tid as int]
                .transaction_status != initial_status {
                TransactionState { last_action_time: 0, ..old(self).transactions@[tid as int] }
            } else {
                old(self).transactions@[tid as int]
            }),
    {
        let changed = self.transactions[tid].transaction_status != initial_status;
        if changed {
            let tx = &mut self.transactions[tid];
            tx.last_action_time = 0;
        }
    }

    /// Stamp the rate-limit clock of a transaction before starting a call.
    pub fn set_last_action_time(&mut self, tid: TransactionId, now: u64)
        requires
            old(self).wf(),
            tid < old(self).transactions@.len(),
            now + RATE_LIMIT_TIMEOUT_NS <= u64::MAX,
        ensures
            final(self).wf(),
            final(self).next_transaction_number == old(self).next_transaction_number,
            final(self).disable_timer == old(self).disable_timer,
            final(self).transactions@.len() == old(self).transactions@.len(),
            forall|j: int|
                0 <= j < old(self).transactions@.len() && j != tid ==> final(self).transactions@[j]
                    == old(self).transactions@[j],
            final(self).transactions@[tid as int] == (TransactionState {
                last_action_time: now,
                ..old(self).transactions@[tid as int]
            }),
    {
        let tx = &mut self.transactions[tid];
        tx.set_last_action_time(now);
    }

    /// Record that a prepare call towards `canister_id` is being started.
    pub fn register_prepare_call(&mut self, tid: TransactionId, canister_id: CanisterId)
        requires
            old(self).wf(),
            tid < old(self).transactions@.len(),
            old(self).transactions@[tid as int].transaction_status
                == TransactionStatus::Preparing || old(self).transactions@[tid as int]
                .transaction_status == TransactionStatus::Aborting,
            has_target(old(self).transactions@[tid as int].pending_prepare_calls@, canister_id),
            counters_in_range(old(self).transactions@[tid as int].pending_prepare_calls@),
        ensures
            final(self).wf(),
            final(self).next_transaction_number == old(self).next_transaction_number,
            final(self).disable_timer == old(self).disable_timer,
            final(self).transactions@.len() == old(self).transactions@.len(),
            forall|j: int|
                0 <= j < old(self).transactions@.len() && j != tid ==> final(self).transactions@[j]
                    == old(self).transactions@[j],
            try_counted(
                old(self).transactions@[tid as int].pending_prepare_calls@,
                final(self).transactions@[tid as int].pending_prepare_calls@,
                target_index(
                    old(self).transactions@[tid as int].pending_prepare_calls@,
                    canister_id,
                ),
            ),
            final(self).transactions@[tid as int] == (TransactionState {
                pending_prepare_calls: final(self).transactions@[tid as int].pending_prepare_calls,
                ..old(self).transactions@[tid as int]
            }),
    {
        let tx = &mut self.transactions[tid];
        tx.register_prepare_call(canister_id);
    }

    /// Record that an abort call towards `canister_id` is being started.
    pub fn register_abort_call(&mut self, tid: TransactionId, canister_id: CanisterId)
        requires
            old(self).wf(),
            tid < old(self).transactions@.len(),
            old(self).transactions@[tid as int].transaction_status == TransactionStatus::Aborting
                || old(self).transactions@[tid as int].transaction_status
                == TransactionStatus::Aborted,
            has_target(old(self).transactions@[tid as int].pending_abort_calls@, canister_id),
            counters_in_range(old(self).transactions@[tid as int].pending_abort_calls@),
        ensures
            final(self).wf(),
            final(self).next_transaction_number == old(self).next_transaction_number,
            final(self).disable_timer == old(self).disable_timer,
            final(self).transactions@.len() == old(self).transactions@.len(),
            forall|j: int|
                0 <= j < old(self).transactions@.len() && j != tid ==> final(self).transactions@[j]
                    == old(self).transactions@[j],
            try_counted(
                old(self).transactions@[tid as int].pending_abort_calls@,
                final(self).transactions@[tid as int].pending_abort_calls@,
                target_index(old(self).transactions@[tid as int].pending_abort_calls@, canister_id),
            ),
            final(self).transactions@[tid as int] == (TransactionState {
                pending_abort_calls: final(self).transactions@[tid as int].pending_abort_calls,
                ..old(self).transactions@[tid as int]
            }),
    {
        let tx = &mut self.transactions[tid];
        tx.register_abort_call(canister_id);
    }

    /// Record that a commit call towards `canister_id` is being started.
    pub fn register_commit_call(&mut self, tid: TransactionId, canister_id: CanisterId)
        requires
            old(self).wf(),
            tid < old(self).transactions@.len(),
            old(self).transactions@[tid as int].transaction_status
                == TransactionStatus::Committing || old(self).transactions@[tid as int]
                .transaction_status == TransactionStatus::Committed,
            has_target(old(self).transactions@[tid as int].pending_commit_calls@, canister_id),
            counters_in_range(old(self).transactions@[tid as int].pending_commit_calls@),
        ensures
            final(self).wf(),
            final(self).next_transaction_number == old(self).next_transaction_number,
            final(self).disable_timer == old(self).disable_timer,
            final(self).transactions@.len() == old(self).transactions@.len(),
            forall|j: int|
                0 <= j < old(self).transactions@.len() && j != tid ==> final(self).transactions@[j]
                    == old(self).transactions@[j],
            try_counted(
                old(self).transactions@[tid as int].pending_commit_calls@,
                final(self).transactions@[tid as int].pending_commit_calls@,
                target_index(
                    old(self).transactions@[tid as int].pending_commit_calls@,
                    canister_id,
                ),
            ),
            final(self).transactions@[tid as int] == (TransactionState {
                pending_commit_calls: final(self).transactions@[tid as int].pending_commit_calls,
                ..old(self).transactions@[tid as int]
            }),
    {
        let tx = &mut self.transactions[tid];
        tx.register_commit_call(canister_id);
    }

    /// Ingest one prepare reply for transaction `tid`.
    pub fn prepare_received(
        &mut self,
        tid: TransactionId,
        vote: PrepareVote,
        canister_id: CanisterId,
    ) -> (r: ReplyOutcome)
        requires
            old(self).wf(),
            tid < old(self).transactions@.len(),
            old(self).transactions@[tid as int].transaction_status == TransactionStatus::Preparing
                || old(self).transactions@[tid as int].transaction_status
                == TransactionStatus::Aborting ==> counters_in_range(
                old(self).transactions@[tid as int].pending_prepare_calls@,
            ),
        ensures
            final(self).wf(),
            final(self).next_transaction_number == old(self).next_transaction_number,
            final(self).disable_timer == old(self).disable_timer,
            final(self).transactions@.len() == old(self).transactions@.len(),
            forall|j: int|
                0 <= j < old(self).transactions@.len() && j != tid ==> final(self).transactions@[j]
                    == old(self).transactions@[j],
            prepare_reply_transition(
                old(self).transactions@[tid as int],
                final(self).transactions@[tid as int],
                vote,
                canister_id,
                r,
            ),
    {
        let tx = &mut self.transactions[tid];
        tx.prepare_received(vote, canister_id)
    }

    /// Ingest one abort reply for transaction `tid`.
    pub fn abort_received(
        &mut self,
        tid: TransactionId,
        success: bool,
        canister_id: CanisterId,
    ) -> (r: ReplyOutcome)
        requires
            old(self).wf(),
            tid < old(self).transactions@.len(),
            old(self).transactions@[tid as int].transaction_status == TransactionStatus::Aborting
                ==> counters_in_range(
                old(self).transactions@[tid as int].pending_abort_calls@,
            ),
        ensures
            final(self).wf(),
            final(self).next_transaction_number == old(self).next_transaction_number,
            final(self).disable_timer == old(self).disable_timer,
            final(self).transactions@.len() == old(self).transactions@.len(),
            forall|j: int|
                0 <= j < old(self).transactions@.len() && j != tid ==> final(self).transactions@[j]
                    == old(self).transactions@[j],
            abort_reply_transition(
                old(self).transactions@[tid as int],
                final(self).transactions@[tid as int],
                success,
                canister_id,
                r,
            ),
    {
        let tx = &mut self.transactions[tid];
        tx.abort_received(success, canister_id)
    }

    /// Ingest one commit reply for transaction `tid`.
    pub fn commit_received(
        &mut self,
        tid: TransactionId,
        success: bool,
        canister_id: CanisterId,
    ) -> (r: ReplyOutcome)
        requires
            old(self).wf(),
            tid < old(self).transactions@.len(),
            old(self).transactions@[tid as int].transaction_status == TransactionStatus::Committing
                ==> counters_in_range(
                old(self).transactions@[tid as int].pending_commit_calls@,
            ),
        ensures
            final(self).wf(),
            final(self).next_transaction_number == old(self).next_transaction_number,
            final(self).disable_timer == old(self).disable_timer,
            final(self).transactions@.len() == old(self).transactions@.len(),
            forall|j: int|
                0 <= j < old(self).transactions@.len() && j != tid ==> final(self).transactions@[j]
                    == old(self).transactions@[j],
            commit_reply_transition(
                old(self).transactions@[tid as int],
                final(self).transactions@[tid as int],
                success,
                canister_id,
                r,
            ),
    {
        let tx = &mut self.transactions[tid];
        tx.commit_received(success, canister_id)
    }
}

impl TransactionList {
    /// Begin a transaction: allocate the next id, build one prepare, abort
    /// and commit record per participant, register the transaction in phase
    /// `Preparing` with its prepare deadline armed at `now`, and return the
    /// new id. The id is strictly greater than every previously returned id.
    pub fn begin(
        &mut self,
        canisters: &Vec<CanisterId>,
        method_prepare: &str,
        method_abort: &str,
        method_commit: &str,
        prepare_payloads: &Vec<Vec<u8>>,
        abort_payloads: &Vec<Vec<u8>>,
        commit_payloads: &Vec<Vec<u8>>,
        now: u64,
    ) -> (tid: TransactionId)
        requires
            old(self).wf(),
            old(self).transactions@.len() == old(self).next_transaction_number,
            old(self).next_transaction_number < usize::MAX,
            canisters@.len() >= 1,
            prepare_payloads@.len() == canisters@.len(),
            abort_payloads@.len() == canisters@.len(),
            commit_payloads@.len() == canisters@.len(),
            distinct_canisters(canisters@),
            now + ABORT_PREPARE_AFTER_NS <= u64::MAX,
        ensures
            final(self).wf(),
            tid == old(self).next_transaction_number,
            final(self).next_transaction_number == tid + 1,
            final(self).disable_timer == old(self).disable_timer,
            final(self).transactions@.len() == old(self).transactions@.len() + 1,
            final(self).transactions@.len() == final(self).next_transaction_number,
            forall|j: int|
                0 <= j < old(self).transactions@.len() ==> final(self).transactions@[j] == old(
                    self,
                ).transactions@[j],
            fresh_transaction(
                final(self).transactions@[tid as int],
                canisters@,
                method_prepare@,
                method_abort@,
                method_commit@,
                prepare_payloads@,
                abort_payloads@,
                commit_payloads@,
                now,
            ),
    {
        let tid = self.get_next_transaction_number();
        let transaction_state = TransactionState::new(
            canisters,
            method_prepare,
            method_abort,
            method_commit,
            prepare_payloads,
            abort_payloads,
            commit_payloads,
            now,
        );
        self.add_transaction(transaction_state, tid);
        tid
    }
}

/// Law: once a transaction's phase is terminal (`Committed` or `Aborted`),
/// no incoming reply changes anything about it — every subsequent observation
/// returns the same phase.
pub proof fn lemma_terminal_stable_under_replies(
    pre: TransactionState,
    post: TransactionState,
    vote: PrepareVote,
    success: bool,
    from: CanisterId,
    r: ReplyOutcome,
)
    requires
        pre.transaction_status.is_terminal(),
        prepare_reply_transition(pre, post, vote, from, r) || abort_reply_transition(
            pre,
            post,
            success,
            from,
            r,
        ) || commit_reply_transition(pre, post, success, from, r),
    ensures
        post == pre,
        post.transaction_status == pre.transaction_status,
{
}

/// Law: a transport or remote failure never advances the phase on its own.
/// While `Preparing`, a reply that carries no vote only increments its
/// record's failure counter: the transaction stays `Preparing` and the call
/// is retried on a later tick. Only an explicit "no" — or, in the tick, the
/// expired prepare deadline — moves the transaction to `Aborting`.
pub proof fn lemma_transport_failure_never_advances(
    pre: TransactionState,
    post: TransactionState,
    from: CanisterId,
    r: ReplyOutcome,
)
    requires
        pre.wf(),
        pre.transaction_status == TransactionStatus::Preparing,
        prepare_reply_transition(pre, post, PrepareVote::Failed, from, r),
    ensures
        post.transaction_status == TransactionStatus::Preparing,
{
    if has_target(pre.pending_prepare_calls@, from) {
        assert(!all_success(pre.pending_prepare_calls@));
        let w = choose|k: int|
            0 <= k < pre.pending_prepare_calls@.len() && !(pre.pending_prepare_calls@[k]
                .num_success > 0);
        assert(post.pending_prepare_calls@[w].num_success == 0);
        assert(!all_success(post.pending_prepare_calls@));
    }
}

/// Law: the abort decision is sticky. Once a transaction is `Aborting` —
/// whether from an explicit negative or from the prepare deadline — no
/// straggler prepare reply moves it anywhere else: the reply is counted and
/// the phase stays `Aborting` until every participant confirms the abort.
pub proof fn lemma_abort_decision_sticky(
    pre: TransactionState,
    post: TransactionState,
    vote: PrepareVote,
    from: CanisterId,
    r: ReplyOutcome,
)
    requires
        pre.transaction_status == TransactionStatus::Aborting,
        prepare_reply_transition(pre, post, vote, from, r),
    ensures
        post.transaction_status == TransactionStatus::Aborting,
{
}

/// Law: once a transaction's phase is terminal, a driver tick leaves it
/// untouched — the tick answers `Finished` (or `RateLimited`) and the phase
/// observed afterwards is the same.
pub proof fn lemma_terminal_stable_under_ticks(
    pre: TransactionList,
    post: TransactionList,
    tid: int,
    now: u64,
    r: TickStart,
)
    requires
        0 <= tid < pre.transactions@.len(),
        pre.transactions@[tid].transaction_status.is_terminal(),
        tick_start_transition(pre, post, tid, now, r),
    ensures
        post == pre,
        r == TickStart::RateLimited || r == TickStart::Finished,
{
}

/// Law: a transaction that ended `Committed` was confirmed by every
/// participant: each prepare record and each commit record counts at least
/// one success, and a success presupposes the call was tried.
pub proof fn lemma_committed_confirmed_by_all(tx: TransactionState)
    requires
        tx.wf(),
        tx.transaction_status == TransactionStatus::Committed,
    ensures
        forall|i: int|
            0 <= i < tx.pending_prepare_calls@.len() ==> (#[trigger] tx.pending_prepare_calls@[i])
                .num_success > 0,
        forall|i: int|
            0 <= i < tx.pending_commit_calls@.len() ==> (#[trigger] tx.pending_commit_calls@[i])
                .num_success > 0,
{
}

/// Law: as long as a transaction is undecided, aborting or `Aborted`, no
/// commit call was ever started towards any participant: every commit record
/// is untouched. In particular a transaction that ends `Aborted` never
/// commits anywhere.
pub proof fn lemma_aborted_never_committed(tx: TransactionState)
    requires
        tx.wf(),
        tx.transaction_status == TransactionStatus::Preparing || tx.transaction_status
            == TransactionStatus::Aborting || tx.transaction_status == TransactionStatus::Aborted,
    ensures
        forall|i: int|
            0 <= i < tx.pending_commit_calls@.len() ==> (#[trigger] tx.pending_commit_calls@[i])
                .num_tries == 0 && tx.pending_commit_calls@[i].num_success == 0,
{
    assert(untouched(tx.pending_commit_calls@));
    assert forall|i: int| 0 <= i < tx.pending_commit_calls@.len() implies (
    #[trigger] tx.pending_commit_calls@[i]).num_tries == 0
        && tx.pending_commit_calls@[i].num_success == 0 by {
        assert(fresh_counters(tx.pending_commit_calls@[i]));
    }
}

/// Law: transaction ids are strictly monotone. The first hypothesis is the
/// allocator's postcondition for an id `t1` (the counter moved past it); the
/// second says the counter never decreased in between (no operation of the
/// table lowers it); the third is the allocator's postcondition for the next
/// allocated id `t2`.
pub proof fn lemma_transaction_ids_monotone(
    t1: TransactionId,
    after_first: TransactionList,
    before_second: TransactionList,
    t2: TransactionId,
)
    requires
        after_first.next_transaction_number == t1 + 1,
        before_second.next_transaction_number >= after_first.next_transaction_number,
        t2 == before_second.next_transaction_number,
    ensures
        t2 > t1,
{
}

/// Law: between two successive bursts of outbound calls on one transaction,
/// more than `RATE_LIMIT_TIMEOUT_NS` elapses. `now1` is the stamp of the
/// last started call; a burst at `now2` is only allowed once the rate gate
/// passes. The one exception is a phase change, which deliberately resets
/// the stamp to zero so the new round starts immediately.
pub proof fn lemma_rate_limit_between_bursts(tx: TransactionState, now1: u64, now2: u64)
    requires
        tx.last_action_time == now1,
        !rate_limited(tx, now2),
    ensures
        now2 > now1 + RATE_LIMIT_TIMEOUT_NS,
{
}

/// The status a transaction currently has; a read-only helper for drivers.
pub fn get_transaction_status(
    _tid: TransactionId,
    transaction_state: &TransactionState,
) -> (r: TransactionStatus)
    ensures
        r == transaction_state.transaction_status,
{
    transaction_state.transaction_status
}

/// Whether every counter of a round is below its machine limit.
fn counters_in_range_exec(calls: &Vec<Call>) -> (r: bool)
    ensures
        r == counters_in_range(calls@),
{
    let n = calls.len();
    let mut i: usize = 0;
    while i < n
        invariant
            n == calls@.len(),
            i <= n,
            forall|j: int|
                0 <= j < i ==> #[trigger] calls@[j].num_tries < u64::MAX && calls@[j].num_success
                    < u64::MAX && calls@[j].num_fail < u64::MAX,
        decreases n - i,
    {
        let c = &calls[i];
        if !(c.num_tries < u64::MAX && c.num_success < u64::MAX && c.num_fail < u64::MAX) {
            return false;
        }
        i = i + 1;
    }
    true
}

} // verus!
