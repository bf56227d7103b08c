//! Candid framing at the coordinator's wire boundary.
//!
//! The coordinator treats request payloads as opaque bytes: the initiator
//! encodes one `(tid, resource, delta)` triple per participant at begin time,
//! and each record carries its already-encoded payload. The only reply whose
//! content the coordinator reads is the prepare vote, a candid boolean.

use vstd::prelude::*;

verus! {

use crate::coordinator::PrepareVote;
use crate::TransactionId;

/// The candid encoding of one protocol request `(tid, resource, delta)`.
/// The encoding is a function of the three values alone.
pub uninterp spec fn request_encoding(tid: TransactionId, resource: Seq<char>, delta: i64) -> Seq<u8>;

/// The boolean a candid message decodes to, if it is a well-formed encoding
/// of a single boolean; decoding is a function of the bytes alone.
pub uninterp spec fn decoded_bool(bytes: Seq<u8>) -> Option<bool>;

/// Relies on candid::utils::encode_args: deterministically serializes the
/// argument tuple, so the encoding of `(tid, resource, delta)` is the one
/// encoding of those values. For this argument shape — two 64-bit integers
/// and a text — the serializer writes a fixed header, an empty type table
/// and the three values, with no failure path, so encoding always succeeds.
#[verifier::external_body]
pub fn encode_request(tid: TransactionId, resource: &String, delta: i64) -> (r: Vec<u8>)
    ensures
        r@ == request_encoding(tid, resource@, delta),
{
    candid::utils::encode_args((&tid, resource, &delta)).unwrap()
}

/// Relies on candid::utils::decode_one: a successful decode of a message at
/// type `bool` returns the unique boolean the message encodes. Decoding can
/// also fail — on malformed bytes, or if the decoder runs out of resources —
/// and then yields `None`.
#[verifier::external_body]
pub fn decode_bool_reply(bytes: &Vec<u8>) -> (r: Option<bool>)
    ensures
        r matches Some(b) ==> decoded_bool(bytes@) == Some(b),
{
    match candid::utils::decode_one::<bool>(bytes.as_slice()) {
        Ok(b) => Some(b),
        Err(_) => None,
    }
}

/// The coordinator's rule for classifying a prepare reply, on plain values:
/// a delivered, decodable `true` is an explicit "yes"; a delivered,
/// decodable `false` is an explicit "no"; anything else — no delivery, or a
/// reply that does not decode to a boolean — is a transport failure, which
/// carries no vote.
pub fn prepare_vote(delivered: bool, decoded: Option<bool>) -> (v: PrepareVote)
    ensures
        v == (if !delivered {
            PrepareVote::Failed
        } else {
            match decoded {
                Some(b) => if b {
                    PrepareVote::Yes
                } else {
                    PrepareVote::No
                },
                None => PrepareVote::Failed,
            }
        }),
{
    if !delivered {
        PrepareVote::Failed
    } else {
        match decoded {
            Some(b) => if b {
                PrepareVote::Yes
            } else {
                PrepareVote::No
            },
            None => PrepareVote::Failed,
        }
    }
}

/// Turn a raw prepare reply (`None` for a transport failure) into the vote
/// the reply handler counts. `Yes` and `No` guarantee the participant's
/// explicit boolean answer; everything else — including a reply the decoder
/// could not read — is `Failed`, to be retried, never treated as a "no".
pub fn prepare_vote_of_reply(reply: &Option<Vec<u8>>) -> (v: PrepareVote)
    ensures
        v == PrepareVote::Yes ==> (reply matches Some(bytes) && decoded_bool(bytes@) == Some(true)),
        v == PrepareVote::No ==> (reply matches Some(bytes) && decoded_bool(bytes@) == Some(false)),
        reply is None ==> v == PrepareVote::Failed,
{
    match reply {
        None => prepare_vote(false, None),
        Some(bytes) => {
            let decoded = decode_bool_reply(bytes);
            prepare_vote(true, decoded)
        },
    }
}

} // verus!
