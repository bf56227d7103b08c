use atomic_transactions::coordinator::{
    PrepareVote, ReplyOutcome, TickStart, TransactionList, TransactionState, TransactionStatus,
    ABORT_PREPARE_AFTER_NS, RATE_LIMIT_TIMEOUT_NS,
};

const T0: u64 = 100_000_000_000;

fn two_party_list(now: u64) -> TransactionList {
    let mut list = TransactionList::default();
    let tid = list.get_next_transaction_number();
    let tx = TransactionState::new(
        &vec![10, 20],
        "prepare_transaction",
        "abort_transaction",
        "commit_transaction",
        &vec![vec![1], vec![2]],
        &vec![vec![1], vec![2]],
        &vec![vec![1], vec![2]],
        now,
    );
    list.add_transaction(tx, tid);
    list
}

#[test]
fn transaction_numbers_strictly_increase() {
    let mut list = TransactionList::default();
    let a = list.get_next_transaction_number();
    let b = list.get_next_transaction_number();
    let c = list.get_next_transaction_number();
    assert_eq!(a, 0);
    assert_eq!(b, 1);
    assert_eq!(c, 2);
    assert!(a < b && b < c);
}

#[test]
fn add_and_query_transaction() {
    let list = two_party_list(T0);
    let res = list.get_transaction_state(0);
    assert_eq!(res.transaction_number, 0);
    assert_eq!(res.state, TransactionStatus::Preparing);
}

#[test]
fn fresh_transaction_has_untouched_records() {
    let list = two_party_list(T0);
    let tx = &list.transactions[0];
    assert_eq!(tx.total_number_of_children, 2);
    assert_eq!(tx.prepare_start_time, T0);
    assert_eq!(tx.last_action_time, 0);
    for calls in [
        &tx.pending_prepare_calls,
        &tx.pending_abort_calls,
        &tx.pending_commit_calls,
    ] {
        assert_eq!(calls.len(), 2);
        assert_eq!(calls[0].target, 10);
        assert_eq!(calls[1].target, 20);
        for c in calls.iter() {
            assert_eq!((c.num_tries, c.num_success, c.num_fail), (0, 0, 0));
        }
    }
    assert_eq!(tx.pending_prepare_calls[0].method, "prepare_transaction");
    assert_eq!(tx.pending_abort_calls[0].method, "abort_transaction");
    assert_eq!(tx.pending_commit_calls[0].method, "commit_transaction");
    assert_eq!(tx.pending_prepare_calls[0].payload, vec![1]);
    assert_eq!(tx.pending_prepare_calls[1].payload, vec![2]);
}

#[test]
fn tick_is_rate_limited_after_an_action() {
    let mut list = two_party_list(T0);
    list.set_last_action_time(0, T0);
    // Within the rate limit window: nothing happens.
    let r = list.tick_start(0, T0 + RATE_LIMIT_TIMEOUT_NS);
    assert!(matches!(r, TickStart::RateLimited));
    assert_eq!(list.transactions[0].pending_prepare_calls[0].num_tries, 0);
    // Just past the window: the prepare burst is issued.
    let r = list.tick_start(0, T0 + RATE_LIMIT_TIMEOUT_NS + 1);
    match r {
        TickStart::Issue { phase, calls } => {
            assert_eq!(phase, TransactionStatus::Preparing);
            assert_eq!(calls.len(), 2);
        }
        other => panic!("expected a prepare burst, got {:?}", other),
    }
}

#[test]
fn tick_snapshot_skips_confirmed_records() {
    let mut list = two_party_list(T0);
    assert_eq!(
        list.prepare_received(0, PrepareVote::Yes, 10),
        ReplyOutcome::Applied
    );
    let r = list.tick_start(0, T0 + 1);
    match r {
        TickStart::Issue { phase, calls } => {
            assert_eq!(phase, TransactionStatus::Preparing);
            // Only the unconfirmed participant is (re)called.
            assert_eq!(calls.len(), 1);
            assert_eq!(calls[0].target, 20);
        }
        other => panic!("expected a prepare burst, got {:?}", other),
    }
}

#[test]
fn prepare_timeout_moves_to_aborting() {
    let mut list = two_party_list(T0);
    let r = list.tick_start(0, T0 + ABORT_PREPARE_AFTER_NS + 1);
    assert!(matches!(r, TickStart::PrepareTimedOut));
    assert_eq!(
        list.get_transaction_state(0).state,
        TransactionStatus::Aborting
    );
    // The next tick issues the abort round.
    list.finish_tick(0, TransactionStatus::Preparing);
    let r = list.tick_start(0, T0 + ABORT_PREPARE_AFTER_NS + 2);
    match r {
        TickStart::Issue { phase, calls } => {
            assert_eq!(phase, TransactionStatus::Aborting);
            assert_eq!(calls.len(), 2);
            assert_eq!(calls[0].method, "abort_transaction");
        }
        other => panic!("expected an abort burst, got {:?}", other),
    }
}

#[test]
fn unanimous_prepare_moves_to_committing() {
    let mut list = two_party_list(T0);
    assert_eq!(list.prepare_received(0, PrepareVote::Yes, 10), ReplyOutcome::Applied);
    assert_eq!(
        list.get_transaction_state(0).state,
        TransactionStatus::Preparing
    );
    assert_eq!(list.prepare_received(0, PrepareVote::Yes, 20), ReplyOutcome::Applied);
    assert_eq!(
        list.get_transaction_state(0).state,
        TransactionStatus::Committing
    );
}

#[test]
fn one_negative_prepare_is_sticky() {
    let mut list = two_party_list(T0);
    assert_eq!(list.prepare_received(0, PrepareVote::No, 10), ReplyOutcome::Applied);
    assert_eq!(
        list.get_transaction_state(0).state,
        TransactionStatus::Aborting
    );
    // A straggler "yes" afterwards is counted but cannot outvote the "no".
    assert_eq!(list.prepare_received(0, PrepareVote::Yes, 20), ReplyOutcome::Applied);
    assert_eq!(
        list.get_transaction_state(0).state,
        TransactionStatus::Aborting
    );
}

#[test]
fn straggler_prepare_reply_is_dropped_after_committing() {
    let mut list = two_party_list(T0);
    assert_eq!(list.prepare_received(0, PrepareVote::Yes, 10), ReplyOutcome::Applied);
    assert_eq!(list.prepare_received(0, PrepareVote::Yes, 20), ReplyOutcome::Applied);
    assert_eq!(
        list.get_transaction_state(0).state,
        TransactionStatus::Committing
    );
    // A duplicate, stale negative arrives after the decision: dropped.
    assert_eq!(
        list.prepare_received(0, PrepareVote::No, 10),
        ReplyOutcome::DroppedPhase
    );
    assert_eq!(
        list.get_transaction_state(0).state,
        TransactionStatus::Committing
    );
    // Commit confirmations then finish the transaction.
    assert_eq!(list.commit_received(0, true, 10), ReplyOutcome::Applied);
    assert_eq!(list.commit_received(0, true, 20), ReplyOutcome::Applied);
    assert_eq!(
        list.get_transaction_state(0).state,
        TransactionStatus::Committed
    );
}

#[test]
fn transport_failure_on_prepare_is_retried_not_aborted() {
    let mut list = two_party_list(T0);
    // An unreachable peer (or a garbled reply) carries no vote: the failure
    // is counted against the record and nothing else moves.
    assert_eq!(
        list.prepare_received(0, PrepareVote::Failed, 10),
        ReplyOutcome::Applied
    );
    assert_eq!(
        list.get_transaction_state(0).state,
        TransactionStatus::Preparing
    );
    assert_eq!(list.transactions[0].pending_prepare_calls[0].num_fail, 1);
    assert_eq!(list.transactions[0].pending_prepare_calls[0].num_success, 0);
    // The next tick retries both still-unconfirmed participants.
    let r = list.tick_start(0, T0 + 1);
    match r {
        TickStart::Issue { phase, calls } => {
            assert_eq!(phase, TransactionStatus::Preparing);
            assert_eq!(calls.len(), 2);
        }
        other => panic!("expected a prepare burst, got {:?}", other),
    }
    // Once the retried peer answers yes (and the other does too), the
    // transaction commits as if nothing had happened.
    assert_eq!(
        list.prepare_received(0, PrepareVote::Yes, 10),
        ReplyOutcome::Applied
    );
    assert_eq!(
        list.prepare_received(0, PrepareVote::Yes, 20),
        ReplyOutcome::Applied
    );
    assert_eq!(
        list.get_transaction_state(0).state,
        TransactionStatus::Committing
    );
}

#[test]
fn straggler_yes_after_timeout_keeps_aborting() {
    let mut list = two_party_list(T0);
    assert_eq!(
        list.prepare_received(0, PrepareVote::Yes, 10),
        ReplyOutcome::Applied
    );
    // The prepare deadline fires before the second participant answers.
    let r = list.tick_start(0, T0 + ABORT_PREPARE_AFTER_NS + 1);
    assert!(matches!(r, TickStart::PrepareTimedOut));
    assert_eq!(
        list.get_transaction_state(0).state,
        TransactionStatus::Aborting
    );
    // The straggler's late "yes" completes unanimity on paper, but the
    // abort decision is sticky: the transaction keeps aborting.
    assert_eq!(
        list.prepare_received(0, PrepareVote::Yes, 20),
        ReplyOutcome::Applied
    );
    assert!(list.transactions[0]
        .pending_prepare_calls
        .iter()
        .all(|c| c.num_success > 0));
    assert_eq!(
        list.get_transaction_state(0).state,
        TransactionStatus::Aborting
    );
}

#[test]
fn replies_from_unknown_participants_are_reported() {
    let mut list = two_party_list(T0);
    assert_eq!(
        list.prepare_received(0, PrepareVote::Yes, 99),
        ReplyOutcome::UnknownParticipant
    );
    assert_eq!(
        list.get_transaction_state(0).state,
        TransactionStatus::Preparing
    );
}

#[test]
fn transport_failures_only_count_failures_for_abort_and_commit() {
    let mut list = two_party_list(T0);
    assert_eq!(list.prepare_received(0, PrepareVote::No, 10), ReplyOutcome::Applied);
    // Aborting now; a failed abort delivery leaves the phase alone.
    assert_eq!(list.abort_received(0, false, 10), ReplyOutcome::Applied);
    assert_eq!(
        list.get_transaction_state(0).state,
        TransactionStatus::Aborting
    );
    assert_eq!(list.transactions[0].pending_abort_calls[0].num_fail, 1);
    // Confirmations from everyone then finish the abort.
    assert_eq!(list.abort_received(0, true, 10), ReplyOutcome::Applied);
    assert_eq!(list.abort_received(0, true, 20), ReplyOutcome::Applied);
    assert_eq!(
        list.get_transaction_state(0).state,
        TransactionStatus::Aborted
    );
}

#[test]
fn replies_in_foreign_phases_are_dropped() {
    let mut list = two_party_list(T0);
    // Not aborting, not committing: those handlers drop.
    assert_eq!(list.abort_received(0, true, 10), ReplyOutcome::DroppedPhase);
    assert_eq!(
        list.commit_received(0, true, 10),
        ReplyOutcome::DroppedPhase
    );
    assert_eq!(
        list.get_transaction_state(0).state,
        TransactionStatus::Preparing
    );
}

#[test]
fn register_calls_count_tries() {
    let mut list = two_party_list(T0);
    assert!(list.counters_ok(0));
    list.register_prepare_call(0, 10);
    list.register_prepare_call(0, 10);
    list.register_prepare_call(0, 20);
    let tx = &list.transactions[0];
    assert_eq!(tx.pending_prepare_calls[0].num_tries, 2);
    assert_eq!(tx.pending_prepare_calls[1].num_tries, 1);
    assert_eq!(tx.pending_abort_calls[0].num_tries, 0);
}

#[test]
fn finish_tick_resets_rate_limit_only_on_phase_change() {
    let mut list = two_party_list(T0);
    list.set_last_action_time(0, T0);
    // No phase change: the stamp stays.
    list.finish_tick(0, TransactionStatus::Preparing);
    assert_eq!(list.transactions[0].last_action_time, T0);
    // Phase changed during the tick: the stamp is cleared so the next round
    // starts immediately.
    assert_eq!(list.prepare_received(0, PrepareVote::No, 10), ReplyOutcome::Applied);
    list.finish_tick(0, TransactionStatus::Preparing);
    assert_eq!(list.transactions[0].last_action_time, 0);
}

#[test]
fn terminal_transactions_are_finished_and_stable() {
    let mut list = two_party_list(T0);
    assert_eq!(list.prepare_received(0, PrepareVote::No, 10), ReplyOutcome::Applied);
    assert_eq!(list.abort_received(0, true, 10), ReplyOutcome::Applied);
    assert_eq!(list.abort_received(0, true, 20), ReplyOutcome::Applied);
    assert_eq!(
        list.get_transaction_state(0).state,
        TransactionStatus::Aborted
    );
    // Ticks do nothing and replies are dropped: the outcome is final.
    let r = list.tick_start(0, T0 + RATE_LIMIT_TIMEOUT_NS + 1);
    assert!(matches!(r, TickStart::Finished));
    assert_eq!(list.prepare_received(0, PrepareVote::Yes, 10), ReplyOutcome::DroppedPhase);
    assert_eq!(list.abort_received(0, true, 10), ReplyOutcome::DroppedPhase);
    assert_eq!(
        list.get_transaction_state(0).state,
        TransactionStatus::Aborted
    );
}

#[test]
fn active_transactions_are_listed_in_ascending_id_order() {
    let mut list = TransactionList::default();
    for _ in 0..3 {
        let tid = list.get_next_transaction_number();
        let tx = TransactionState::new(
            &vec![10, 20],
            "prepare_transaction",
            "abort_transaction",
            "commit_transaction",
            &vec![vec![1], vec![2]],
            &vec![vec![1], vec![2]],
            &vec![vec![1], vec![2]],
            T0,
        );
        list.add_transaction(tx, tid);
    }
    assert_eq!(list.get_active_transactions(), vec![0, 1, 2]);
    // Abort the middle one and finish it: it drops out of the active list.
    assert_eq!(list.prepare_received(1, PrepareVote::No, 10), ReplyOutcome::Applied);
    assert_eq!(list.abort_received(1, true, 10), ReplyOutcome::Applied);
    assert_eq!(list.abort_received(1, true, 20), ReplyOutcome::Applied);
    assert_eq!(list.get_active_transactions(), vec![0, 2]);
}

#[test]
fn disable_timer_flag_round_trips() {
    let mut list = TransactionList::default();
    assert!(!list.disable_timer);
    list.disable_timer(true);
    assert!(list.disable_timer);
    list.disable_timer(false);
    assert!(!list.disable_timer);
}
