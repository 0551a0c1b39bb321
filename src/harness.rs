//! A ready-made escrow with an admin, a funded depositor and a contributor,
//! for driving the engine from generated input, with the checks that every
//! run must pass.

use crate::bytes::{bytes_to_u64, le_nat};
use crate::escrow::BountyEscrowContract;
use crate::limiter::AntiAbuseConfig;
use crate::storage::{bal, lock_spec, release_spec, StorageModel};
use crate::types::{Address, Error, LockFundsItem};
use vstd::prelude::*;

verus! {

/// What the depositor of a fresh setup is credited with.
pub const INITIAL_MINT: i128 = 1_000_000_000;

pub const DEFAULT_WINDOW_SIZE: u64 = 3600;

pub const DEFAULT_MAX_OPERATIONS: u64 = 10;

pub const DEFAULT_COOLDOWN_PERIOD: u64 = 60;

/// The identity read from a 32-byte key at `offset` (its first eight bytes,
/// little-endian, so keys that share them give the same identity), or `fallback` when the buffer holds fewer than 32 bytes
/// there.
pub fn address_from_bytes(bytes: &[u8], offset: usize, fallback: Address) -> (r: Address)
    ensures
        offset + 32 <= bytes@.len() ==> r.id == le_nat(bytes@, offset as int, 8),
        offset + 32 > bytes@.len() ==> r == fallback,
{
    if offset <= bytes.len() && bytes.len() - offset >= 32 {
        Address::new(bytes_to_u64(bytes, offset))
    } else {
        fallback
    }
}

/// The store after the depositor `a` has been credited up to `amount`.
pub open spec fn topped_up(m: StorageModel, a: u64, amount: i128) -> StorageModel {
    if bal(m.balances, a) < amount {
        StorageModel { balances: m.balances.insert(a, amount), ..m }
    } else {
        m
    }
}

/// The lowest id of 0 to 3 that none of the three parties has, for the
/// custody account, so that it is never one of them.
fn custody_for(admin: Address, depositor: Address, contributor: Address) -> (r: Address)
    ensures
        r != admin && r != depositor && r != contributor,
        r.id <= 3,
        admin.id != 0 && depositor.id != 0 && contributor.id != 0 ==> r.id == 0,
{
    let taken = |id: u64| -> (b: bool)
        ensures
            b == (admin.id == id || depositor.id == id || contributor.id == id),
        { admin.id == id || depositor.id == id || contributor.id == id };
    if !taken(0) {
        Address::new(0)
    } else if !taken(1) {
        Address::new(1)
    } else if !taken(2) {
        Address::new(2)
    } else {
        Address::new(3)
    }
}

pub struct FuzzTestSetup {
    pub escrow: BountyEscrowContract,
    pub admin: Address,
    pub depositor: Address,
    pub contributor: Address,
}

impl FuzzTestSetup {
    pub open spec fn wf(&self) -> bool {
        self.escrow.wf()
    }

    fn with_addresses(admin: Address, depositor: Address, contributor: Address) -> (r: FuzzTestSetup)
        ensures
            r.wf(),
            !r.escrow.guard.locked,
            r.admin == admin,
            r.depositor == depositor,
            r.contributor == contributor,
            r.escrow.settings.admin == admin,
            r.escrow.settings.custody != admin,
            r.escrow.settings.custody != depositor,
            r.escrow.settings.custody != contributor,
            admin.id != 0 && depositor.id != 0 && contributor.id != 0 ==> r.escrow.settings.custody.id
                == 0,
            r.escrow.settings.now == 0,
            r.escrow.storage@.escrows == Map::<u64, crate::types::Escrow>::empty(),
            r.escrow.storage@.balances == Map::<u64, i128>::empty().insert(
                depositor.id,
                INITIAL_MINT,
            ),
    {
        let config = AntiAbuseConfig {
            window_size: DEFAULT_WINDOW_SIZE,
            max_operations: DEFAULT_MAX_OPERATIONS,
            cooldown_period: DEFAULT_COOLDOWN_PERIOD,
        };
        let custody = custody_for(admin, depositor, contributor);
        let mut escrow = BountyEscrowContract::new(admin, custody, config, 0);
        let _ = escrow.mint(depositor, INITIAL_MINT);
        FuzzTestSetup { escrow, admin, depositor, contributor }
    }

    /// An escrow at time zero, kept at address 0, administered by address 1,
    /// with depositor 2 holding `INITIAL_MINT` and contributor 3.
    pub fn new() -> (r: FuzzTestSetup)
        ensures
            r.wf(),
            !r.escrow.guard.locked,
            r.admin.id == 1,
            r.depositor.id == 2,
            r.contributor.id == 3,
            r.escrow.settings.custody.id == 0,
            r.escrow.settings.now == 0,
            r.escrow.storage@.escrows == Map::<u64, crate::types::Escrow>::empty(),
            r.escrow.storage@.balances == Map::<u64, i128>::empty().insert(2, INITIAL_MINT),
    {
        FuzzTestSetup::with_addresses(Address::new(1), Address::new(2), Address::new(3))
    }

    /// As `new`, with the admin, depositor and contributor read from the
    /// first, second and third 32-byte keys of `data` where it holds them.
    pub fn new_with_fuzz_data(data: &[u8]) -> (r: FuzzTestSetup)
        ensures
            r.wf(),
            !r.escrow.guard.locked,
            data@.len() >= 32 ==> r.admin.id == le_nat(data@, 0, 8),
            data@.len() < 32 ==> r.admin.id == 1,
            data@.len() >= 64 ==> r.depositor.id == le_nat(data@, 32, 8),
            data@.len() < 64 ==> r.depositor.id == 2,
            data@.len() >= 96 ==> r.contributor.id == le_nat(data@, 64, 8),
            data@.len() < 96 ==> r.contributor.id == 3,
            r.escrow.settings.custody != r.admin,
            r.escrow.settings.custody != r.depositor,
            r.escrow.settings.custody != r.contributor,
            r.escrow.settings.now == 0,
            r.escrow.storage@.escrows == Map::<u64, crate::types::Escrow>::empty(),
            r.escrow.storage@.balances == Map::<u64, i128>::empty().insert(
                r.depositor.id,
                INITIAL_MINT,
            ),
    {
        let admin = address_from_bytes(data, 0, Address::new(1));
        let depositor = address_from_bytes(data, 32, Address::new(2));
        let contributor = address_from_bytes(data, 64, Address::new(3));
        FuzzTestSetup::with_addresses(admin, depositor, contributor)
    }

    /// Moves the ledger clock forward by `seconds`.
    pub fn advance_time(&mut self, seconds: u64)
        requires
            old(self).escrow.settings.now + seconds <= u64::MAX,
        ensures
            final(self).escrow.settings.now == old(self).escrow.settings.now + seconds,
            final(self).escrow.settings.admin == old(self).escrow.settings.admin,
            final(self).escrow.settings.custody == old(self).escrow.settings.custody,
            final(self).escrow.storage@ == old(self).escrow.storage@,
            final(self).escrow.guard == old(self).escrow.guard,
            final(self).admin == old(self).admin,
            final(self).depositor == old(self).depositor,
            final(self).contributor == old(self).contributor,
    {
        let now = self.escrow.settings.now + seconds;
        self.escrow.set_timestamp(now);
    }

    /// Sets the ledger clock.
    pub fn set_time(&mut self, timestamp: u64)
        ensures
            final(self).escrow.settings.now == timestamp,
            final(self).escrow.settings.admin == old(self).escrow.settings.admin,
            final(self).escrow.settings.custody == old(self).escrow.settings.custody,
            final(self).escrow.storage@ == old(self).escrow.storage@,
            final(self).escrow.guard == old(self).escrow.guard,
            final(self).admin == old(self).admin,
            final(self).depositor == old(self).depositor,
            final(self).contributor == old(self).contributor,
    {
        self.escrow.set_timestamp(timestamp);
    }
}

/// Credits the depositor up to `amount` if needed, then locks `amount` for
/// `bounty_id` until `deadline_offset` from now.
pub fn setup_locked_escrow(
    setup: &mut FuzzTestSetup,
    bounty_id: u64,
    amount: i128,
    deadline_offset: u64,
) -> (r: Result<(), Error>)
    requires
        old(setup).wf(),
        old(setup).escrow.settings.now + deadline_offset <= u64::MAX,
    ensures
        final(setup).wf(),
        final(setup).escrow.settings == old(setup).escrow.settings,
        final(setup).escrow.guard.locked == old(setup).escrow.guard.locked,
        final(setup).depositor == old(setup).depositor,
        old(setup).escrow.guard.locked ==> r == Err::<(), Error>(Error::ReentrantCall),
        !old(setup).escrow.guard.locked ==> ({
            let m = topped_up(old(setup).escrow.storage@, old(setup).depositor.id, amount);
            let item = LockFundsItem {
                bounty_id,
                depositor: old(setup).depositor,
                amount,
                deadline: (old(setup).escrow.settings.now + deadline_offset) as u64,
            };
            match lock_spec(&old(setup).escrow.settings, m, true, item) {
                Ok(after) => r is Ok && final(setup).escrow.storage@ == after,
                Err(e) => r == Err::<(), Error>(e) && final(setup).escrow.storage@ == m,
            }
        }),
{
    let deadline = setup.escrow.settings.now + deadline_offset;
    let depositor = setup.depositor;
    let current = setup.escrow.balance(depositor);
    if current < amount {
        let _ = setup.escrow.mint(depositor, amount - current);
        assert(setup.escrow.storage@.balances =~= old(setup).escrow.storage@.balances.insert(
            depositor.id,
            amount,
        ));
    }
    assert(setup.escrow.storage@ == topped_up(old(setup).escrow.storage@, depositor.id, amount));
    setup.escrow.lock_funds(depositor, depositor, bounty_id, amount, deadline)
}

/// Locks `amount` for `bounty_id` and checks the balances: on success the
/// depositor is down by `amount` and custody up by `amount`; on refusal
/// neither moved.
pub fn verify_lock_funds_invariant(setup: &mut FuzzTestSetup, bounty_id: u64, amount: i128) -> (r:
    bool)
    requires
        old(setup).wf(),
        old(setup).escrow.settings.now + 1000 <= u64::MAX,
    ensures
        final(setup).wf(),
        final(setup).escrow.settings == old(setup).escrow.settings,
        final(setup).escrow.guard.locked == old(setup).escrow.guard.locked,
        final(setup).depositor == old(setup).depositor,
        !old(setup).escrow.guard.locked ==> match lock_spec(
            &old(setup).escrow.settings,
            old(setup).escrow.storage@,
            true,
            LockFundsItem {
                bounty_id,
                depositor: old(setup).depositor,
                amount,
                deadline: (old(setup).escrow.settings.now + 1000) as u64,
            },
        ) {
            Ok(after) => final(setup).escrow.storage@ == after,
            Err(_) => final(setup).escrow.storage@ == old(setup).escrow.storage@,
        },
        old(setup).escrow.guard.locked ==> final(setup).escrow.storage@ == old(
            setup,
        ).escrow.storage@,
        r,
{
    let depositor = setup.depositor;
    let custody = setup.escrow.settings.custody;
    let d0 = setup.escrow.balance(depositor);
    let c0 = setup.escrow.balance(custody);
    let deadline = setup.escrow.settings.now + 1000;
    let res = setup.escrow.lock_funds(depositor, depositor, bounty_id, amount, deadline);
    let d1 = setup.escrow.balance(depositor);
    let c1 = setup.escrow.balance(custody);
    match res {
        Ok(()) => d0 >= d1 && d0 - d1 == amount && c1 >= c0 && c1 - c0 == amount,
        Err(_) => d1 == d0 && c1 == c0,
    }
}

/// Releases `bounty_id` to `contributor` as the admin and checks the
/// balances: on success custody is down and the contributor up by exactly
/// what was held; on refusal neither moved.
pub fn verify_release_funds_invariant(
    setup: &mut FuzzTestSetup,
    bounty_id: u64,
    contributor: Address,
) -> (r: bool)
    requires
        old(setup).wf(),
    ensures
        final(setup).wf(),
        final(setup).escrow.settings == old(setup).escrow.settings,
        final(setup).escrow.guard.locked == old(setup).escrow.guard.locked,
        final(setup).admin == old(setup).admin,
        !old(setup).escrow.guard.locked ==> match release_spec(
            &old(setup).escrow.settings,
            old(setup).escrow.storage@,
            old(setup).admin,
            bounty_id,
            contributor,
        ) {
            Ok(after) => final(setup).escrow.storage@ == after,
            Err(_) => final(setup).escrow.storage@ == old(setup).escrow.storage@,
        },
        old(setup).escrow.guard.locked ==> final(setup).escrow.storage@ == old(
            setup,
        ).escrow.storage@,
        r,
{
    let custody = setup.escrow.settings.custody;
    let c0 = setup.escrow.balance(custody);
    let r0 = setup.escrow.balance(contributor);
    let held = match setup.escrow.get_balance(bounty_id) {
        Ok(h) => h,
        Err(_) => 0,
    };
    let res = setup.escrow.release_funds(setup.admin, bounty_id, contributor);
    let c1 = setup.escrow.balance(custody);
    let r1 = setup.escrow.balance(contributor);
    match res {
        Ok(()) => c0 >= c1 && c0 - c1 == held && r1 >= r0 && r1 - r0 == held,
        Err(_) => c1 == c0 && r1 == r0,
    }
}

/// No account of the setup holds a negative balance.
pub fn verify_fund_conservation(setup: &FuzzTestSetup) -> (r: bool)
    requires
        setup.wf(),
    ensures
        r,
{
    let contract_balance = setup.escrow.balance(setup.escrow.settings.custody);
    let depositor_balance = setup.escrow.balance(setup.depositor);
    let contributor_balance = setup.escrow.balance(setup.contributor);
    let admin_balance = setup.escrow.balance(setup.admin);
    contract_balance >= 0 && depositor_balance >= 0 && contributor_balance >= 0 && admin_balance
        >= 0
}

/// A collaborator that calls back into the escrow while it may still be in
/// the middle of a guarded call.
pub struct ReentrancyAttacker {
    pub identity: Address,
}

impl ReentrancyAttacker {
    /// Tries to release `bounty_id` to itself; refused with `ReentrantCall`
    /// whenever the guard is held.
    pub fn attack(&self, target: &mut BountyEscrowContract, bounty_id: u64) -> (r: Result<(), Error>)
        requires
            old(target).wf(),
        ensures
            final(target).wf(),
            final(target).settings == old(target).settings,
            final(target).guard.locked == old(target).guard.locked,
            old(target).guard.locked ==> r == Err::<(), Error>(Error::ReentrantCall)
                && final(target).storage@ == old(target).storage@,
            !old(target).guard.locked ==> match release_spec(
                &old(target).settings,
                old(target).storage@,
                self.identity,
                bounty_id,
                self.identity,
            ) {
                Ok(m) => r is Ok && final(target).storage@ == m,
                Err(e) => r == Err::<(), Error>(e) && final(target).storage@ == old(
                    target,
                ).storage@,
            },
    {
        target.release_funds(self.identity, bounty_id, self.identity)
    }
}

} // verus!
