//! Plain data shared by the escrow engine: identities, records, batch items
//! and the error kinds that every entry point reports.

use vstd::prelude::*;

verus! {

/// An account identity on the ledger.
#[derive(Clone, Copy, Debug, PartialEq, Eq, Hash, Structural)]
pub struct Address {
    pub id: u64,
}

impl Address {
    pub fn new(id: u64) -> (r: Address)
        ensures
            r.id == id,
    {
        Address { id }
    }
}

/// How a refund is computed and to whom it goes.
#[derive(Clone, Copy, Debug, PartialEq, Eq, Structural)]
pub enum RefundMode {
    /// The whole remaining amount, back to the depositor, after the deadline.
    Full,
    /// A given amount, back to the depositor, after the deadline.
    Partial,
    /// A given amount, to a given recipient, with explicit approval.
    Custom,
}

#[derive(Clone, Copy, Debug, PartialEq, Eq, Structural)]
pub enum EscrowStatus {
    Locked,
    Released,
    PartiallyRefunded,
    Refunded,
}

/// The record kept for one bounty id.
#[derive(Clone, Copy, Debug, PartialEq, Eq, Structural)]
pub struct Escrow {
    pub depositor: Address,
    /// The amount locked when the record was created; never changes.
    pub amount: i128,
    /// What is still held for this bounty.
    pub remaining_amount: i128,
    pub status: EscrowStatus,
    pub deadline: u64,
    pub created_at: u64,
}

impl Escrow {
    /// The record invariant: `0 <= remaining <= amount`, and the status
    /// agrees with what remains.
    pub open spec fn wf(self) -> bool {
        &&& 0 < self.amount
        &&& 0 <= self.remaining_amount <= self.amount
        &&& self.status == EscrowStatus::Locked ==> self.remaining_amount == self.amount
        &&& self.status == EscrowStatus::Released ==> self.remaining_amount == 0
        &&& self.status == EscrowStatus::Refunded ==> self.remaining_amount == 0
        &&& self.status == EscrowStatus::PartiallyRefunded ==> 0 < self.remaining_amount
            < self.amount
    }
}

/// One entry of a bounty's refund history.
#[derive(Clone, Copy, Debug, PartialEq, Eq, Structural)]
pub struct RefundRecord {
    pub mode: RefundMode,
    pub amount: i128,
    pub recipient: Address,
    pub timestamp: u64,
}

/// One lock of a batch.
#[derive(Clone, Copy, Debug, PartialEq, Eq, Structural)]
pub struct LockFundsItem {
    pub bounty_id: u64,
    pub depositor: Address,
    pub amount: i128,
    pub deadline: u64,
}

/// One release of a batch.
#[derive(Clone, Copy, Debug, PartialEq, Eq, Structural)]
pub struct ReleaseFundsItem {
    pub bounty_id: u64,
    pub contributor: Address,
}

/// Why an operation was rejected.
#[derive(Clone, Copy, Debug, PartialEq, Eq, Structural)]
pub enum Error {
    ReentrantCall,
    RateLimited,
    AlreadyLocked,
    BountyNotFound,
    InvalidState,
    InvalidAmount,
    InvalidDeadline,
    DeadlineNotPassed,
    RefundNotApproved,
    MissingParameter,
    InsufficientBalance,
    AuthorizationFailed,
    EmptyBatch,
    DuplicateBountyId,
    TransferFailed,
    /// The custody account cannot deposit into escrow or be paid out of it.
    CustodyAccount,
}

} // verus!
