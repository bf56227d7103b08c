//! The initiator side of the demo: begin a token swap between two ledger
//! participants. One participant is debited `amount1` of `token1`, the other
//! is credited `amount2` of `token2`, atomically: both changes happen on
//! commit or neither does.

use vstd::prelude::*;

verus! {

use crate::codec::encode_request;
use crate::codec::request_encoding;
use crate::coordinator::call_built;
use crate::coordinator::clone_bytes;
use crate::coordinator::distinct_canisters;
use crate::coordinator::CanisterId;
use crate::coordinator::TransactionList;
use crate::coordinator::TransactionResult;
use crate::coordinator::TransactionStatus;
use crate::coordinator::ABORT_PREPARE_AFTER_NS;

/// A swap transaction for `(token1, amount1)` at the first participant and
/// `(token2, amount2)` at the second was begun: the new transaction is
/// registered under the freshly allocated id, is `Preparing` with its
/// deadline armed at `now`, and every round's record carries its
/// participant's encoded `(tid, token, amount)` request.
pub open spec fn swap_begun(
    pre: TransactionList,
    post: TransactionList,
    canisters: Seq<CanisterId>,
    token1: Seq<char>,
    token2: Seq<char>,
    amount1: i64,
    amount2: i64,
    now: u64,
    res: TransactionResult,
) -> bool {
    let tid = pre.next_transaction_number;
    let tx = post.transactions@[tid as int];
    let payload1 = request_encoding(tid, token1, amount1);
    let payload2 = request_encoding(tid, token2, amount2);
    &&& res.transaction_number == tid
    &&& res.state == TransactionStatus::Preparing
    &&& post.next_transaction_number == tid + 1
    &&& post.transactions@.len() == pre.transactions@.len() + 1
    &&& (forall|j: int|
        0 <= j < pre.transactions@.len() ==> post.transactions@[j] == pre.transactions@[j])
    &&& post.disable_timer == pre.disable_timer
    &&& tx.wf()
    &&& tx.transaction_status == TransactionStatus::Preparing
    &&& tx.total_number_of_children == 2
    &&& tx.prepare_start_time == now
    &&& tx.last_action_time == 0
    &&& tx.pending_prepare_calls@.len() == 2
    &&& call_built(tx.pending_prepare_calls@[0], canisters[0], "prepare_transaction"@, payload1)
    &&& call_built(tx.pending_prepare_calls@[1], canisters[1], "prepare_transaction"@, payload2)
    &&& call_built(tx.pending_abort_calls@[0], canisters[0], "abort_transaction"@, payload1)
    &&& call_built(tx.pending_abort_calls@[1], canisters[1], "abort_transaction"@, payload2)
    &&& call_built(tx.pending_commit_calls@[0], canisters[0], "commit_transaction"@, payload1)
    &&& call_built(tx.pending_commit_calls@[1], canisters[1], "commit_transaction"@, payload2)
}

/// Begin a transaction that swaps arbitrary tokens between the two given
/// participants. Each participant receives the same encoded `(tid, token,
/// amount)` request in all three rounds.
pub fn swap_tokens(
    list: &mut TransactionList,
    canisters: &Vec<CanisterId>,
    token1: String,
    token2: String,
    amount1: i64,
    amount2: i64,
    now: u64,
) -> (r: TransactionResult)
    requires
        old(list).wf(),
        old(list).transactions@.len() == old(list).next_transaction_number,
        old(list).next_transaction_number < usize::MAX,
        canisters@.len() == 2,
        canisters@[0] != canisters@[1],
        now + ABORT_PREPARE_AFTER_NS <= u64::MAX,
    ensures
        final(list).wf(),
        swap_begun(
            *old(list),
            *final(list),
            canisters@,
            token1@,
            token2@,
            amount1,
            amount2,
            now,
            r,
        ),
        final(list).transactions@.len() == final(list).next_transaction_number,
    {
        let tid = list.next_transaction_number;
        let payload1 = encode_request(tid, &token1, amount1);
        let payload2 = encode_request(tid, &token2, amount2);
        let mut prepare_payloads: Vec<Vec<u8>> = Vec::new();
        let mut abort_payloads: Vec<Vec<u8>> = Vec::new();
        let mut commit_payloads: Vec<Vec<u8>> = Vec::new();
        abort_payloads.push(clone_bytes(&payload1));
        abort_payloads.push(clone_bytes(&payload2));
        commit_payloads.push(clone_bytes(&payload1));
        commit_payloads.push(clone_bytes(&payload2));
        prepare_payloads.push(payload1);
        prepare_payloads.push(payload2);
        proof {
            assert(distinct_canisters(canisters@));
        }
        let allocated = list.begin(
            canisters,
            "prepare_transaction",
            "abort_transaction",
            "commit_transaction",
            &prepare_payloads,
            &abort_payloads,
            &commit_payloads,
            now,
        );
        list.get_transaction_state(allocated)
    }

/// Begin the demo swap: 1337 units of ICP are debited at the first
/// participant and 42 units of USD are credited at the second.
pub fn swap_token1_to_token2(
    list: &mut TransactionList,
    canisters: &Vec<CanisterId>,
    now: u64,
) -> (r: TransactionResult)
    requires
        old(list).wf(),
        old(list).transactions@.len() == old(list).next_transaction_number,
        old(list).next_transaction_number < usize::MAX,
        canisters@.len() == 2,
        canisters@[0] != canisters@[1],
        now + ABORT_PREPARE_AFTER_NS <= u64::MAX,
    ensures
        final(list).wf(),
        swap_begun(
            *old(list),
            *final(list),
            canisters@,
            "ICP"@,
            "USD"@,
            -1337i64,
            42i64,
            now,
            r,
        ),
        final(list).transactions@.len() == final(list).next_transaction_number,
    {
        swap_tokens(list, canisters, token1_name(), token2_name(), -1337i64, 42i64, now)
    }

/// The demo's first token.
pub fn token1_name() -> (r: String)
    ensures
        r@ == "ICP"@,
{
    "ICP".to_owned()
}

/// The demo's second token.
pub fn token2_name() -> (r: String)
    ensures
        r@ == "USD"@,
{
    "USD".to_owned()
}

} // verus!
