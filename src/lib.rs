//! A verified bounty escrow engine: depositors lock funds against a bounty id,
//! funds are released to a contributor or refunded to the depositor, one at a
//! time or in all-or-nothing batches, behind a reentrancy guard and a
//! per-actor sliding-window rate limiter.
//!
//! Every mutating entry point names who authorized the call. A lock must be
//! authorized by its depositor (a batch of locks by every depositor in it);
//! releases by the admin. `Full` and `Partial` refunds, which only ever pay
//! the depositor, may be invoked by anyone once the deadline has passed; a
//! `Custom` refund needs the bounty to be approved beforehand
//! (`set_refund_approval`). The custody account can neither deposit nor be
//! paid, and always holds at least what the records still hold. The rate
//! limiter counts the depositor of a lock and the invoker of anything else.
//!
//! Token balances and the ledger clock live in the same state as the escrow
//! records, so that every contract can speak of the funds an operation moves.

pub mod bytes;
pub mod guard;
pub mod types;
pub mod limiter;
pub mod storage;
pub mod escrow;
pub mod laws;
pub mod harness;
