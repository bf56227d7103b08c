//! End-to-end runs of the protocol: the coordinator and two ledger
//! participants, joined by a simulated transport that decodes each call's
//! candid payload and delivers it, with controllable failure modes.

use atomic_transactions::codec::prepare_vote_of_reply;
use atomic_transactions::coordinator::{PrepareVote, TickStart, TransactionList, TransactionStatus};
use atomic_transactions::dex::{swap_token1_to_token2, swap_tokens};
use atomic_transactions::ledger::Participant;
use atomic_transactions::participant::TransactionStatus as LockState;

const T0: u64 = 100_000_000_000;
const STEP: u64 = 6_000_000_000;

/// How one participant treats one incoming call.
#[derive(Copy, Clone, PartialEq, Eq)]
enum Mode {
    /// Deliver the call and return its reply.
    Deliver,
    /// Deliver the call but lose the reply: the coordinator sees a failure.
    LoseReply,
    /// Do not deliver at all: the coordinator sees a failure.
    Unreachable,
    /// Deliver the call, but the reply never arrives: the coordinator keeps
    /// waiting and learns nothing this tick.
    Silent,
}

/// Apply one decoded protocol call to a participant, answering as the demo
/// ledger canister would.
fn handle_call(p: &mut Participant, method: &str, payload: &[u8]) -> Vec<u8> {
    let (tid, token, delta): (u64, String, i64) = candid::utils::decode_args(payload).unwrap();
    match method {
        "prepare_transaction" => {
            let vote = p.prepare_transaction(tid as usize, token, delta);
            candid::utils::encode_one(vote).unwrap()
        }
        "abort_transaction" => {
            p.abort_transaction(tid as usize, token, delta);
            candid::utils::encode_args(()).unwrap()
        }
        "commit_transaction" => {
            p.commit_transaction(tid as usize, token, delta).unwrap();
            candid::utils::encode_args(()).unwrap()
        }
        other => panic!("unknown method {}", other),
    }
}

/// One driver tick for `tid` at time `now`, as the canister's update method
/// would run it: start the tick, issue every pending call of the burst, feed
/// each reply back, and close the tick.
fn run_tick(
    list: &mut TransactionList,
    parts: &mut [Participant],
    modes: &[Mode],
    tid: usize,
    now: u64,
) {
    let initial = list.get_transaction_state(tid).state;
    let start = list.tick_start(tid, now);
    if let TickStart::Issue { phase, calls } = start {
        for call in &calls {
            assert!(list.counters_ok(tid));
            list.set_last_action_time(tid, now);
            match phase {
                TransactionStatus::Preparing => list.register_prepare_call(tid, call.target),
                TransactionStatus::Aborting => list.register_abort_call(tid, call.target),
                TransactionStatus::Committing => list.register_commit_call(tid, call.target),
                _ => unreachable!(),
            }
            let idx = call.target as usize;
            let mode = modes[idx];
            let reply: Option<Vec<u8>> = match mode {
                Mode::Deliver => Some(handle_call(&mut parts[idx], &call.method, &call.payload)),
                Mode::LoseReply => {
                    handle_call(&mut parts[idx], &call.method, &call.payload);
                    None
                }
                Mode::Unreachable => None,
                Mode::Silent => {
                    handle_call(&mut parts[idx], &call.method, &call.payload);
                    continue;
                }
            };
            match phase {
                TransactionStatus::Preparing => {
                    let vote = prepare_vote_of_reply(&reply);
                    list.prepare_received(tid, vote, call.target);
                }
                TransactionStatus::Aborting => {
                    list.abort_received(tid, reply.is_some(), call.target);
                }
                TransactionStatus::Committing => {
                    list.commit_received(tid, reply.is_some(), call.target);
                }
                _ => unreachable!(),
            }
        }
    }
    list.finish_tick(tid, initial);
}

/// Two participants: the first hosts ICP, the second hosts USD and EUR, as
/// in the demo's bootstrap.
fn demo_setup(icp: u64, usd: u64) -> (TransactionList, Vec<Participant>) {
    let list = TransactionList::default();
    let mut p1 = Participant::new();
    p1.init(&vec!["ICP".to_string()], &vec![icp]);
    let mut p2 = Participant::new();
    p2.init(&vec!["USD".to_string(), "EUR".to_string()], &vec![usd, 10000]);
    (list, vec![p1, p2])
}

fn balance(parts: &[Participant], idx: usize, token: &str) -> Option<u64> {
    parts[idx].ledger.balance_of(&token.to_string())
}

fn lock(parts: &[Participant], idx: usize, token: &str) -> Option<LockState> {
    parts[idx].locks.lock_state(&token.to_string())
}

#[test]
fn happy_path_swap() {
    let (mut list, mut parts) = demo_setup(10000, 10000);
    let modes = [Mode::Deliver, Mode::Deliver];
    let res = swap_token1_to_token2(&mut list, &vec![0, 1], T0);
    let tid = res.transaction_number;
    assert_eq!(res.state, TransactionStatus::Preparing);

    run_tick(&mut list, &mut parts, &modes, tid, T0 + STEP);
    assert_eq!(
        list.get_transaction_state(tid).state,
        TransactionStatus::Committing
    );
    run_tick(&mut list, &mut parts, &modes, tid, T0 + STEP + 1);
    assert_eq!(
        list.get_transaction_state(tid).state,
        TransactionStatus::Committed
    );
    assert_eq!(balance(&parts, 0, "ICP"), Some(8663));
    assert_eq!(balance(&parts, 1, "USD"), Some(10042));
    assert_eq!(lock(&parts, 0, "ICP"), Some(LockState::Committed));
    assert_eq!(lock(&parts, 1, "USD"), Some(LockState::Committed));
}

#[test]
fn prepare_rejection_aborts_and_leaves_values_unchanged() {
    let (mut list, mut parts) = demo_setup(100, 10000);
    let modes = [Mode::Deliver, Mode::Deliver];
    let res = swap_tokens(
        &mut list,
        &vec![0, 1],
        "ICP".to_string(),
        "USD".to_string(),
        -1337,
        42,
        T0,
    );
    let tid = res.transaction_number;

    // First participant's validator rejects (underflow): the negative is
    // sticky, the second may still pass through Prepared.
    run_tick(&mut list, &mut parts, &modes, tid, T0 + STEP);
    assert_eq!(
        list.get_transaction_state(tid).state,
        TransactionStatus::Aborting
    );
    run_tick(&mut list, &mut parts, &modes, tid, T0 + STEP + 1);
    assert_eq!(
        list.get_transaction_state(tid).state,
        TransactionStatus::Aborted
    );
    assert_eq!(balance(&parts, 0, "ICP"), Some(100));
    assert_eq!(balance(&parts, 1, "USD"), Some(10000));
    // The rejecting participant never took the lock; the other held it and
    // released it on abort.
    assert_eq!(lock(&parts, 0, "ICP"), None);
    assert_eq!(lock(&parts, 1, "USD"), Some(LockState::Aborted));
}

#[test]
fn prepare_timeout_aborts_and_retries_the_silent_participant() {
    let (mut list, mut parts) = demo_setup(10000, 10000);
    let res = swap_tokens(
        &mut list,
        &vec![0, 1],
        "ICP".to_string(),
        "USD".to_string(),
        -1337,
        42,
        T0,
    );
    let tid = res.transaction_number;

    // The first participant answers promptly; the second never does.
    run_tick(
        &mut list,
        &mut parts,
        &[Mode::Deliver, Mode::Silent],
        tid,
        T0 + STEP,
    );
    assert_eq!(
        list.get_transaction_state(tid).state,
        TransactionStatus::Preparing
    );
    // Past the prepare deadline the coordinator forces the abort round.
    run_tick(
        &mut list,
        &mut parts,
        &[Mode::Deliver, Mode::Silent],
        tid,
        T0 + 2 * STEP,
    );
    assert_eq!(
        list.get_transaction_state(tid).state,
        TransactionStatus::Aborting
    );
    // The first participant confirms its abort and releases its lock; the
    // second stays unreachable, so the transaction keeps aborting.
    run_tick(
        &mut list,
        &mut parts,
        &[Mode::Deliver, Mode::Unreachable],
        tid,
        T0 + 3 * STEP,
    );
    assert_eq!(
        list.get_transaction_state(tid).state,
        TransactionStatus::Aborting
    );
    assert_eq!(lock(&parts, 0, "ICP"), Some(LockState::Aborted));
    // Abort calls are retried until the second participant finally replies.
    run_tick(
        &mut list,
        &mut parts,
        &[Mode::Deliver, Mode::Deliver],
        tid,
        T0 + 4 * STEP,
    );
    assert_eq!(
        list.get_transaction_state(tid).state,
        TransactionStatus::Aborted
    );
    assert_eq!(lock(&parts, 1, "USD"), Some(LockState::Aborted));
    assert_eq!(balance(&parts, 0, "ICP"), Some(10000));
    assert_eq!(balance(&parts, 1, "USD"), Some(10000));
}

#[test]
fn prepare_conflict_on_resource_aborts_the_second_transaction() {
    let (mut list, mut parts) = demo_setup(10000, 10000);
    let modes = [Mode::Deliver, Mode::Deliver];
    let a = swap_tokens(
        &mut list,
        &vec![0, 1],
        "ICP".to_string(),
        "USD".to_string(),
        -10,
        5,
        T0,
    )
    .transaction_number;
    // A prepares successfully on both resources.
    run_tick(&mut list, &mut parts, &modes, a, T0 + STEP);
    assert_eq!(
        list.get_transaction_state(a).state,
        TransactionStatus::Committing
    );
    // B now wants the same resources while A still holds the locks.
    let b = swap_tokens(
        &mut list,
        &vec![0, 1],
        "ICP".to_string(),
        "USD".to_string(),
        -5,
        1,
        T0 + STEP,
    )
    .transaction_number;
    run_tick(&mut list, &mut parts, &modes, b, T0 + 2 * STEP);
    assert_eq!(
        list.get_transaction_state(b).state,
        TransactionStatus::Aborting
    );
    run_tick(&mut list, &mut parts, &modes, b, T0 + 2 * STEP + 1);
    assert_eq!(
        list.get_transaction_state(b).state,
        TransactionStatus::Aborted
    );
    // A proceeds unaffected and commits its own deltas.
    run_tick(&mut list, &mut parts, &modes, a, T0 + 3 * STEP);
    assert_eq!(
        list.get_transaction_state(a).state,
        TransactionStatus::Committed
    );
    assert_eq!(balance(&parts, 0, "ICP"), Some(9990));
    assert_eq!(balance(&parts, 1, "USD"), Some(10005));
}

#[test]
fn idempotent_reprepare_after_lost_reply() {
    let (mut list, mut parts) = demo_setup(10000, 10000);
    let res = swap_tokens(
        &mut list,
        &vec![0, 1],
        "ICP".to_string(),
        "USD".to_string(),
        -10,
        5,
        T0,
    );
    let tid = res.transaction_number;

    // The first participant takes its lock, but its reply is lost in
    // transit: the coordinator counts a transport failure and stays in the
    // prepare round; the second votes yes normally.
    run_tick(
        &mut list,
        &mut parts,
        &[Mode::LoseReply, Mode::Deliver],
        tid,
        T0 + 1,
    );
    assert_eq!(
        list.get_transaction_state(tid).state,
        TransactionStatus::Preparing
    );
    assert_eq!(
        list.transactions[tid].pending_prepare_calls[0].num_fail,
        1
    );
    assert_eq!(lock(&parts, 0, "ICP"), Some(LockState::Prepared(tid)));
    // The retry — past the rate limit, before the prepare deadline — hits
    // the already-prepared resource: the participant answers yes again
    // (idempotent), and only the unconfirmed participant is called.
    run_tick(
        &mut list,
        &mut parts,
        &[Mode::Deliver, Mode::Deliver],
        tid,
        T0 + 5_000_000_002,
    );
    assert_eq!(
        list.get_transaction_state(tid).state,
        TransactionStatus::Committing
    );
    run_tick(
        &mut list,
        &mut parts,
        &[Mode::Deliver, Mode::Deliver],
        tid,
        T0 + 5_000_000_003,
    );
    assert_eq!(
        list.get_transaction_state(tid).state,
        TransactionStatus::Committed
    );
    // The delta was applied exactly once.
    assert_eq!(balance(&parts, 0, "ICP"), Some(9990));
    assert_eq!(balance(&parts, 1, "USD"), Some(10005));
}

#[test]
fn swap_payloads_decode_to_the_request_triples() {
    let mut list = TransactionList::default();
    let res = swap_tokens(
        &mut list,
        &vec![0, 1],
        "ICP".to_string(),
        "USD".to_string(),
        -1337,
        42,
        T0,
    );
    let tid = res.transaction_number;
    let tx = &list.transactions[tid];
    let (t, token, delta): (u64, String, i64) =
        candid::utils::decode_args(&tx.pending_prepare_calls[0].payload).unwrap();
    assert_eq!((t as usize, token.as_str(), delta), (tid, "ICP", -1337));
    let (t, token, delta): (u64, String, i64) =
        candid::utils::decode_args(&tx.pending_commit_calls[1].payload).unwrap();
    assert_eq!((t as usize, token.as_str(), delta), (tid, "USD", 42));
    // All three rounds carry the same payload per participant.
    assert_eq!(
        tx.pending_prepare_calls[0].payload,
        tx.pending_abort_calls[0].payload
    );
    assert_eq!(
        tx.pending_prepare_calls[1].payload,
        tx.pending_commit_calls[1].payload
    );
}

#[test]
fn prepare_votes_decode_through_the_codec() {
    let yes = candid::utils::encode_one(true).unwrap();
    let no = candid::utils::encode_one(false).unwrap();
    assert_eq!(prepare_vote_of_reply(&Some(yes)), PrepareVote::Yes);
    assert_eq!(prepare_vote_of_reply(&Some(no)), PrepareVote::No);
    // A transport failure and a malformed reply carry no vote: they are
    // counted as failures and retried, never as an explicit "no".
    assert_eq!(prepare_vote_of_reply(&None), PrepareVote::Failed);
    assert_eq!(
        prepare_vote_of_reply(&Some(vec![0xde, 0xad, 0xbe, 0xef])),
        PrepareVote::Failed
    );
    assert_eq!(prepare_vote_of_reply(&Some(Vec::new())), PrepareVote::Failed);
}
