//! A two-phase-commit (2PC) library for atomic multi-party state changes.
//!
//! A *coordinator* drives each transaction through a prepare phase and then
//! either a commit or an abort phase against a set of *participants*. Each
//! participant owns named resources, gates modifications through a per-resource
//! lock, and applies a signed balance change on commit.
//!
//! The transport that carries the calls, the clock and the timer scheduler are
//! outside collaborators: the caller passes the current time in and performs
//! the remote calls that the coordinator asks for.

use vstd::prelude::*;

pub mod codec;
pub mod coordinator;
pub mod dex;
pub mod ledger;
pub mod participant;

verus! {

/// Identifier of a transaction: allocated by the coordinator, monotonically
/// increasing, never reused within a coordinator lifetime.
pub type TransactionId = usize;

/// Ledger-level configuration used by the demo participant canisters to
/// simulate misbehaviour (never replying to a prepare, or stopping on one).
/// The misbehaviour itself is remote-call plumbing and lives with the caller;
/// the library only carries the flags.
#[derive(Copy, Clone, Debug, PartialEq, Eq, Structural)]
pub struct Configuration {
    pub infinite_prepare: bool,
    pub stop_on_prepare: bool,
}

impl Default for Configuration {
    /// Both misbehaviour modes are off by default.
    fn default() -> (r: Self)
        ensures
            !r.infinite_prepare,
            !r.stop_on_prepare,
    {
        Configuration { infinite_prepare: false, stop_on_prepare: false }
    }
}

} // verus!
