//! The escrow contract: guarded single and batch entry points over the
//! store, and the read-only queries.

use crate::guard::ReentrancyGuard;
use crate::limiter::{AntiAbuse, AntiAbuseConfig};
use crate::storage::{
    bal, history_of, lock_spec, refund_spec, release_spec, Settings, Storage, StorageModel,
};
use crate::types::{Address, Error, Escrow, LockFundsItem, RefundMode, RefundRecord, ReleaseFundsItem};
use std::collections::HashSet;
use crate::storage::lemma_mint_keeps_wf;
use vstd::prelude::*;

verus! {

broadcast use vstd::std_specs::hash::group_hash_axioms;

/// Whether two items of the batch name the same bounty.
pub open spec fn has_duplicate_ids(ids: Seq<u64>) -> bool {
    exists|i: int, j: int| 0 <= i < j < ids.len() && ids[i] == ids[j]
}

pub open spec fn lock_ids(items: Seq<LockFundsItem>) -> Seq<u64> {
    items.map_values(|it: LockFundsItem| it.bounty_id)
}

pub open spec fn release_ids(items: Seq<ReleaseFundsItem>) -> Seq<u64> {
    items.map_values(|it: ReleaseFundsItem| it.bounty_id)
}

/// The locks of a batch run one after another: the first refusal, or the
/// store after all of them.
pub open spec fn lock_all(s: &Settings, m: StorageModel, signers: Seq<Address>, items: Seq<LockFundsItem>) -> Result<
    StorageModel,
    Error,
>
    decreases items.len(),
{
    if items.len() == 0 {
        Ok(m)
    } else {
        match lock_all(s, m, signers, items.drop_last()) {
            Err(e) => Err(e),
            Ok(m2) => lock_spec(s, m2, signers.contains(items.last().depositor), items.last()),
        }
    }
}

/// The releases of a batch run one after another: the first refusal, or the
/// store after all of them.
pub open spec fn release_all(
    s: &Settings,
    m: StorageModel,
    invoker: Address,
    items: Seq<ReleaseFundsItem>,
) -> Result<StorageModel, Error>
    decreases items.len(),
{
    if items.len() == 0 {
        Ok(m)
    } else {
        match release_all(s, m, invoker, items.drop_last()) {
            Err(e) => Err(e),
            Ok(m2) => release_spec(s, m2, invoker, items.last().bounty_id, items.last().contributor),
        }
    }
}

/// Finds whether an id occurs twice.
fn find_duplicate(ids: &Vec<u64>) -> (r: bool)
    ensures
        r == has_duplicate_ids(ids@),
{
    let mut seen: HashSet<u64> = HashSet::new();
    let mut k: usize = 0;
    while k < ids.len()
        invariant
            k <= ids.len(),
            forall|x: u64| #[trigger]
                seen@.contains(x) <==> exists|i: int| 0 <= i < k && ids@[i] == x,
            !has_duplicate_ids(ids@.subrange(0, k as int)),
        decreases ids.len() - k,
    {
        let id = ids[k];
        if seen.contains(&id) {
            proof {
                let i = choose|i: int| 0 <= i < k && ids@[i] == id;
                assert(ids@[i] == ids@[k as int]);
            }
            return true;
        }
        let ghost old_seen = seen@;
        seen.insert(id);
        proof {
            let p = ids@.subrange(0, k + 1);
            assert forall|i: int, j: int| 0 <= i < j < p.len() implies p[i] != p[j] by {
                if j < k {
                    assert(ids@.subrange(0, k as int)[i] == p[i]);
                    assert(ids@.subrange(0, k as int)[j] == p[j]);
                } else {
                    assert(!seen@.contains(ids@[j]) || ids@[i] != ids@[j]) by {
                        if ids@[i] == ids@[j] {
                            assert(ids@[i] == id);
                        }
                    }
                }
            }
            assert forall|x: u64| #[trigger]
                seen@.contains(x) <==> exists|i: int| 0 <= i < k + 1 && ids@[i] == x by {
                if x == id {
                    assert(ids@[k as int] == x);
                }
                if exists|i: int| 0 <= i < k + 1 && ids@[i] == x {
                    let i = choose|i: int| 0 <= i < k + 1 && ids@[i] == x;
                    if i < k {
                        assert(old_seen.contains(x));
                    }
                }
            }
        }
        k = k + 1;
    }
    assert(ids@.subrange(0, k as int) =~= ids@);
    false
}

/// A whole batch of locks: `EmptyBatch`, `DuplicateBountyId`, the first
/// refusal of an item, or the store after every item.
pub open spec fn batch_lock_spec(
    s: &Settings,
    m: StorageModel,
    signers: Seq<Address>,
    items: Seq<LockFundsItem>,
) -> Result<StorageModel, Error> {
    if items.len() == 0 {
        Err(Error::EmptyBatch)
    } else if has_duplicate_ids(lock_ids(items)) {
        Err(Error::DuplicateBountyId)
    } else {
        lock_all(s, m, signers, items)
    }
}

/// A whole batch of releases, in the same way.
pub open spec fn batch_release_spec(
    s: &Settings,
    m: StorageModel,
    invoker: Address,
    items: Seq<ReleaseFundsItem>,
) -> Result<StorageModel, Error> {
    if items.len() == 0 {
        Err(Error::EmptyBatch)
    } else if has_duplicate_ids(release_ids(items)) {
        Err(Error::DuplicateBountyId)
    } else {
        release_all(s, m, invoker, items)
    }
}

/// Once a prefix of a batch of locks is refused, the whole batch is refused
/// with the same error.
pub proof fn lemma_lock_all_refusal_stays(
    s: &Settings,
    m: StorageModel,
    signers: Seq<Address>,
    items: Seq<LockFundsItem>,
    k: int,
)
    requires
        0 <= k <= items.len(),
        lock_all(s, m, signers, items.subrange(0, k)) is Err,
    ensures
        lock_all(s, m, signers, items) == lock_all(s, m, signers, items.subrange(0, k)),
    decreases items.len(),
{
    if k == items.len() {
        assert(items.subrange(0, k) =~= items);
    } else {
        let init = items.drop_last();
        assert(items.subrange(0, k) =~= init.subrange(0, k));
        lemma_lock_all_refusal_stays(s, m, signers, init, k);
    }
}

/// Once a prefix of a batch of releases is refused, the whole batch is
/// refused with the same error.
pub proof fn lemma_release_all_refusal_stays(
    s: &Settings,
    m: StorageModel,
    invoker: Address,
    items: Seq<ReleaseFundsItem>,
    k: int,
)
    requires
        0 <= k <= items.len(),
        release_all(s, m, invoker, items.subrange(0, k)) is Err,
    ensures
        release_all(s, m, invoker, items) == release_all(s, m, invoker, items.subrange(0, k)),
    decreases items.len(),
{
    if k == items.len() {
        assert(items.subrange(0, k) =~= items);
    } else {
        let init = items.drop_last();
        assert(items.subrange(0, k) =~= init.subrange(0, k));
        lemma_release_all_refusal_stays(s, m, invoker, init, k);
    }
}

fn contains_address(v: &Vec<Address>, a: Address) -> (r: bool)
    ensures
        r == v@.contains(a),
{
    let mut k: usize = 0;
    while k < v.len()
        invariant
            k <= v.len(),
            forall|i: int| 0 <= i < k ==> v@[i] != a,
        decreases v.len() - k,
    {
        if v[k] == a {
            assert(v@[k as int] == a);
            return true;
        }
        k = k + 1;
    }
    false
}

/// Runs a batch of locks against a private copy of the store, and installs
/// the copy only when every item went through.
fn stage_locks(storage: &mut Storage, s: &Settings, signers: &Vec<Address>, items: &Vec<LockFundsItem>) -> (r:
    Result<usize, Error>)
    requires
        old(storage)@.wf(s.custody.id),
    ensures
        final(storage)@.wf(s.custody.id),
        match batch_lock_spec(s, old(storage)@, signers@, items@) {
            Ok(m) => r == Ok::<usize, Error>(items.len()) && final(storage)@ == m,
            Err(e) => r == Err::<usize, Error>(e) && final(storage)@ == old(storage)@,
        },
{
    if items.len() == 0 {
        return Err(Error::EmptyBatch);
    }
    let mut ids: Vec<u64> = Vec::new();
    let mut k: usize = 0;
    while k < items.len()
        invariant
            k <= items.len(),
            ids@.len() == k,
            forall|i: int| 0 <= i < k ==> ids@[i] == #[trigger] items@[i].bounty_id,
        decreases items.len() - k,
    {
        ids.push(items[k].bounty_id);
        k = k + 1;
    }
    assert(ids@ =~= lock_ids(items@));
    if find_duplicate(&ids) {
        return Err(Error::DuplicateBountyId);
    }
    let mut staged = storage.snapshot();
    let mut k: usize = 0;
    assert(items@.subrange(0, 0) =~= Seq::<LockFundsItem>::empty());
    while k < items.len()
        invariant
            k <= items.len(),
            staged@.wf(s.custody.id),
            storage@.wf(s.custody.id),
            storage@ == old(storage)@,
            items.len() > 0,
            !has_duplicate_ids(lock_ids(items@)),
            lock_all(s, storage@, signers@, items@.subrange(0, k as int)) == Ok::<
                StorageModel,
                Error,
            >(staged@),
        decreases items.len() - k,
    {
        let item = items[k];
        let ghost before = staged@;
        let authorized = contains_address(signers, item.depositor);
        let r = staged.lock_step(s, authorized, item);
        proof {
            let p = items@.subrange(0, k + 1);
            assert(p.drop_last() =~= items@.subrange(0, k as int));
            assert(p.last() == item);
        }
        match r {
            Err(e) => {
                proof {
                    let p = items@.subrange(0, k + 1);
                    assert(lock_all(s, storage@, signers@, p.drop_last()) == Ok::<StorageModel, Error>(
                        before,
                    ));
                    assert(lock_all(s, storage@, signers@, p) == Err::<StorageModel, Error>(e));
                    lemma_lock_all_refusal_stays(s, storage@, signers@, items@, k + 1);

                }
                return Err(e);
            },
            Ok(()) => {},
        }
        k = k + 1;
    }
    assert(items@.subrange(0, k as int) =~= items@);
    *storage = staged;
    Ok(items.len())
}

/// Runs a batch of releases against a private copy of the store, and
/// installs the copy only when every item went through.
fn stage_releases(
    storage: &mut Storage,
    s: &Settings,
    invoker: Address,
    items: &Vec<ReleaseFundsItem>,
) -> (r: Result<usize, Error>)
    requires
        old(storage)@.wf(s.custody.id),
    ensures
        final(storage)@.wf(s.custody.id),
        match batch_release_spec(s, old(storage)@, invoker, items@) {
            Ok(m) => r == Ok::<usize, Error>(items.len()) && final(storage)@ == m,
            Err(e) => r == Err::<usize, Error>(e) && final(storage)@ == old(storage)@,
        },
{
    if items.len() == 0 {
        return Err(Error::EmptyBatch);
    }
    let mut ids: Vec<u64> = Vec::new();
    let mut k: usize = 0;
    while k < items.len()
        invariant
            k <= items.len(),
            ids@.len() == k,
            forall|i: int| 0 <= i < k ==> ids@[i] == #[trigger] items@[i].bounty_id,
        decreases items.len() - k,
    {
        ids.push(items[k].bounty_id);
        k = k + 1;
    }
    assert(ids@ =~= release_ids(items@));
    if find_duplicate(&ids) {
        return Err(Error::DuplicateBountyId);
    }
    let mut staged = storage.snapshot();
    let mut k: usize = 0;
    assert(items@.subrange(0, 0) =~= Seq::<ReleaseFundsItem>::empty());
    while k < items.len()
        invariant
            k <= items.len(),
            staged@.wf(s.custody.id),
            storage@.wf(s.custody.id),
            storage@ == old(storage)@,
            items.len() > 0,
            !has_duplicate_ids(release_ids(items@)),
            release_all(s, storage@, invoker, items@.subrange(0, k as int)) == Ok::<
                StorageModel,
                Error,
            >(staged@),
        decreases items.len() - k,
    {
        let item = items[k];
        let ghost before = staged@;
        let r = staged.release_step(s, invoker, item.bounty_id, item.contributor);
        proof {
            let p = items@.subrange(0, k + 1);
            assert(p.drop_last() =~= items@.subrange(0, k as int));
            assert(p.last() == item);
        }
        match r {
            Err(e) => {
                proof {
                    let p = items@.subrange(0, k + 1);
                    assert(release_all(s, storage@, invoker, p.drop_last()) == Ok::<StorageModel, Error>(
                        before,
                    ));
                    assert(release_all(s, storage@, invoker, p) == Err::<StorageModel, Error>(e));
                    lemma_release_all_refusal_stays(s, storage@, invoker, items@, k + 1);
                }
                return Err(e);
            },
            Ok(()) => {},
        }
        k = k + 1;
    }
    assert(items@.subrange(0, k as int) =~= items@);
    *storage = staged;
    Ok(items.len())
}

/// The escrow contract's whole state: fixed settings, the reentrancy guard,
/// and the store.
pub struct BountyEscrowContract {
    pub settings: Settings,
    pub guard: ReentrancyGuard,
    pub storage: Storage,
}

impl BountyEscrowContract {
    pub open spec fn wf(&self) -> bool {
        self.storage@.wf(self.settings.custody.id)
    }

    /// A contract administered by `admin`, keeping escrowed funds at
    /// `custody`, at ledger time `now`.
    pub fn new(admin: Address, custody: Address, config: AntiAbuseConfig, now: u64) -> (r:
        BountyEscrowContract)
        ensures
            r.wf(),
            !r.guard.locked,
            r.settings.admin == admin,
            r.settings.custody == custody,
            r.settings.now == now,
            r.settings.limiter.config == config,
            r.settings.limiter.whitelist@ == Set::<u64>::empty(),
            r.settings.approved_refunds@ == Set::<u64>::empty(),
            r.storage@.escrows == Map::<u64, Escrow>::empty(),
            r.storage@.balances == Map::<u64, i128>::empty(),
            r.storage@.actors == Map::<u64, crate::limiter::ActorState>::empty(),
            r.storage@.history == Map::<u64, Seq<RefundRecord>>::empty(),
            r.storage@.ids == Seq::<u64>::empty(),
    {
        BountyEscrowContract {
            settings: Settings {
                admin,
                custody,
                now,
                limiter: AntiAbuse::new(config),
                approved_refunds: HashSet::new(),
            },
            guard: ReentrancyGuard::new(),
            storage: Storage::new(),
        }
    }

    /// Sets the ledger clock.
    pub fn set_timestamp(&mut self, now: u64)
        ensures
            final(self).settings.now == now,
            final(self).settings.admin == old(self).settings.admin,
            final(self).settings.custody == old(self).settings.custody,
            final(self).settings.limiter.config == old(self).settings.limiter.config,
            final(self).settings.limiter.whitelist@ == old(self).settings.limiter.whitelist@,
            final(self).settings.approved_refunds@ == old(self).settings.approved_refunds@,
            final(self).guard == old(self).guard,
            final(self).storage@ == old(self).storage@,
    {
        self.settings.now = now;
    }

    /// Locks `amount` of `depositor`'s tokens against `bounty_id` until
    /// `deadline`. `invoker` is the identity that authorized the call.
    pub fn lock_funds(
        &mut self,
        invoker: Address,
        depositor: Address,
        bounty_id: u64,
        amount: i128,
        deadline: u64,
    ) -> (r: Result<(), Error>)
        requires
            old(self).wf(),
        ensures
            final(self).wf(),
            final(self).settings == old(self).settings,
            final(self).guard.locked == old(self).guard.locked,
            old(self).guard.locked ==> r == Err::<(), Error>(Error::ReentrantCall)
                && final(self).storage@ == old(self).storage@,
            !old(self).guard.locked ==> match lock_spec(
                &old(self).settings,
                old(self).storage@,
                invoker == depositor,
                LockFundsItem { bounty_id, depositor, amount, deadline },
            ) {
                Ok(m) => r is Ok && final(self).storage@ == m,
                Err(e) => r == Err::<(), Error>(e) && final(self).storage@ == old(self).storage@,
            },
    {
        if self.guard.enter().is_err() {
            return Err(Error::ReentrantCall);
        }
        let item = LockFundsItem { bounty_id, depositor, amount, deadline };
        let r = self.storage.lock_step(&self.settings, invoker == depositor, item);
        self.guard.exit();
        r
    }

    /// Pays everything held for `bounty_id` to `recipient`; only the admin
    /// may do so.
    pub fn release_funds(&mut self, invoker: Address, bounty_id: u64, recipient: Address) -> (r:
        Result<(), Error>)
        requires
            old(self).wf(),
        ensures
            final(self).wf(),
            final(self).settings == old(self).settings,
            final(self).guard.locked == old(self).guard.locked,
            old(self).guard.locked ==> r == Err::<(), Error>(Error::ReentrantCall)
                && final(self).storage@ == old(self).storage@,
            !old(self).guard.locked ==> match release_spec(
                &old(self).settings,
                old(self).storage@,
                invoker,
                bounty_id,
                recipient,
            ) {
                Ok(m) => r is Ok && final(self).storage@ == m,
                Err(e) => r == Err::<(), Error>(e) && final(self).storage@ == old(self).storage@,
            },
    {
        if self.guard.enter().is_err() {
            return Err(Error::ReentrantCall);
        }
        let r = self.storage.release_step(&self.settings, invoker, bounty_id, recipient);
        self.guard.exit();
        r
    }

    /// Refunds part or all of what is held for `bounty_id`, as `mode` says:
    /// `Full` and `Partial` pay the depositor once the deadline has passed;
    /// `Custom` pays `recipient` at any time, once the bounty is approved.
    pub fn refund(
        &mut self,
        invoker: Address,
        bounty_id: u64,
        amount: Option<i128>,
        recipient: Option<Address>,
        mode: RefundMode,
    ) -> (r: Result<(), Error>)
        requires
            old(self).wf(),
        ensures
            final(self).wf(),
            final(self).settings == old(self).settings,
            final(self).guard.locked == old(self).guard.locked,
            old(self).guard.locked ==> r == Err::<(), Error>(Error::ReentrantCall)
                && final(self).storage@ == old(self).storage@,
            !old(self).guard.locked ==> match refund_spec(
                &old(self).settings,
                old(self).storage@,
                invoker,
                bounty_id,
                amount,
                recipient,
                mode,
            ) {
                Ok(m) => r is Ok && final(self).storage@ == m,
                Err(e) => r == Err::<(), Error>(e) && final(self).storage@ == old(self).storage@,
            },
    {
        if self.guard.enter().is_err() {
            return Err(Error::ReentrantCall);
        }
        let r = self.storage.refund_step(&self.settings, invoker, bounty_id, amount, recipient, mode);
        self.guard.exit();
        r
    }
    /// Locks every item of `items`, or none of them. `signers` are the
    /// identities that authorized the call; each item's depositor must be
    /// among them.
    pub fn batch_lock_funds(&mut self, signers: &Vec<Address>, items: &Vec<LockFundsItem>) -> (r: Result<
        usize,
        Error,
    >)
        requires
            old(self).wf(),
        ensures
            final(self).wf(),
            final(self).settings == old(self).settings,
            final(self).guard.locked == old(self).guard.locked,
            old(self).guard.locked ==> r == Err::<usize, Error>(Error::ReentrantCall)
                && final(self).storage@ == old(self).storage@,
            !old(self).guard.locked ==> match batch_lock_spec(
                &old(self).settings,
                old(self).storage@,
                signers@,
                items@,
            ) {
                Ok(m) => r == Ok::<usize, Error>(items.len()) && final(self).storage@ == m,
                Err(e) => r == Err::<usize, Error>(e) && final(self).storage@ == old(self).storage@,
            },
    {
        if self.guard.enter().is_err() {
            return Err(Error::ReentrantCall);
        }
        let r = stage_locks(&mut self.storage, &self.settings, signers, items);
        self.guard.exit();
        r
    }

    /// Releases every item of `items`, or none of them; only the admin may
    /// do so.
    pub fn batch_release_funds(&mut self, invoker: Address, items: &Vec<ReleaseFundsItem>) -> (r:
        Result<usize, Error>)
        requires
            old(self).wf(),
        ensures
            final(self).wf(),
            final(self).settings == old(self).settings,
            final(self).guard.locked == old(self).guard.locked,
            old(self).guard.locked ==> r == Err::<usize, Error>(Error::ReentrantCall)
                && final(self).storage@ == old(self).storage@,
            !old(self).guard.locked ==> match batch_release_spec(
                &old(self).settings,
                old(self).storage@,
                invoker,
                items@,
            ) {
                Ok(m) => r == Ok::<usize, Error>(items.len()) && final(self).storage@ == m,
                Err(e) => r == Err::<usize, Error>(e) && final(self).storage@ == old(self).storage@,
            },
    {
        if self.guard.enter().is_err() {
            return Err(Error::ReentrantCall);
        }
        let r = stage_releases(&mut self.storage, &self.settings, invoker, items);
        self.guard.exit();
        r
    }

    /// The record of `bounty_id`.
    pub fn get_escrow_info(&self, bounty_id: u64) -> (r: Result<Escrow, Error>)
        ensures
            self.storage@.escrows.contains_key(bounty_id) ==> r == Ok::<Escrow, Error>(
                self.storage@.escrows[bounty_id],
            ),
            !self.storage@.escrows.contains_key(bounty_id) ==> r == Err::<Escrow, Error>(
                Error::BountyNotFound,
            ),
    {
        match self.storage.escrows.get(&bounty_id) {
            Some(e) => Ok(*e),
            None => Err(Error::BountyNotFound),
        }
    }

    /// What is still held for `bounty_id`.
    pub fn get_balance(&self, bounty_id: u64) -> (r: Result<i128, Error>)
        ensures
            self.storage@.escrows.contains_key(bounty_id) ==> r == Ok::<i128, Error>(
                self.storage@.escrows[bounty_id].remaining_amount,
            ),
            !self.storage@.escrows.contains_key(bounty_id) ==> r == Err::<i128, Error>(
                Error::BountyNotFound,
            ),
    {
        match self.storage.escrows.get(&bounty_id) {
            Some(e) => Ok(e.remaining_amount),
            None => Err(Error::BountyNotFound),
        }
    }

    /// The refunds made on `bounty_id`, oldest first; empty when there are none.
    pub fn get_refund_history(&self, bounty_id: u64) -> (r: Vec<RefundRecord>)
        ensures
            r@ == history_of(self.storage@.history, bounty_id),
    {
        let mut out: Vec<RefundRecord> = Vec::new();
        match self.storage.history.get(&bounty_id) {
            None => {},
            Some(entries) => {
                let mut k: usize = 0;
                while k < entries.len()
                    invariant
                        k <= entries.len(),
                        out@ =~= entries@.subrange(0, k as int),
                    decreases entries.len() - k,
                {
                    out.push(entries[k]);
                    k = k + 1;
                }
                assert(entries@.subrange(0, k as int) =~= entries@);
            },
        }
        out
    }

    /// The token balance of `a`.
    pub fn balance(&self, a: Address) -> (r: i128)
        ensures
            r as int == bal(self.storage@.balances, a.id),
    {
        self.storage.balance(a)
    }

    /// Credits `amount` new tokens to `to`, as the token's issuer.
    pub fn mint(&mut self, to: Address, amount: i128) -> (r: Result<(), Error>)
        requires
            old(self).wf(),
        ensures
            final(self).wf(),
            final(self).settings == old(self).settings,
            final(self).guard == old(self).guard,
            final(self).storage@.escrows == old(self).storage@.escrows,
            final(self).storage@.history == old(self).storage@.history,
            final(self).storage@.actors == old(self).storage@.actors,
            final(self).storage@.ids == old(self).storage@.ids,
            r is Ok <==> (0 <= amount && bal(old(self).storage@.balances, to.id) + amount
                <= i128::MAX),
            r is Ok ==> final(self).storage@.balances == old(self).storage@.balances.insert(
                to.id,
                (bal(old(self).storage@.balances, to.id) + amount) as i128,
            ),
            r is Err ==> final(self).storage@.balances == old(self).storage@.balances,
    {
        proof {
            if 0 <= amount && bal(self.storage@.balances, to.id) + amount <= i128::MAX {
                lemma_mint_keeps_wf(self.storage@, self.settings.custody.id, to.id, amount);
            }
        }
        let r = self.storage.mint(to, amount);
        assert(r is Ok ==> self.storage@ == (StorageModel {
            balances: old(self).storage@.balances.insert(
                to.id,
                (bal(old(self).storage@.balances, to.id) + amount) as i128,
            ),
            ..old(self).storage@
        }));
        r
    }

    /// Grants or withdraws approval for a `Custom` refund of `bounty_id`.
    pub fn set_refund_approval(&mut self, bounty_id: u64, approved: bool)
        requires
            old(self).wf(),
        ensures
            final(self).wf(),
            final(self).settings.admin == old(self).settings.admin,
            final(self).settings.custody == old(self).settings.custody,
            final(self).settings.now == old(self).settings.now,
            final(self).settings.limiter.config == old(self).settings.limiter.config,
            final(self).settings.limiter.whitelist@ == old(self).settings.limiter.whitelist@,
            approved ==> final(self).settings.approved_refunds@ == old(
                self,
            ).settings.approved_refunds@.insert(bounty_id),
            !approved ==> final(self).settings.approved_refunds@ == old(
                self,
            ).settings.approved_refunds@.remove(bounty_id),
            final(self).guard == old(self).guard,
            final(self).storage@ == old(self).storage@,
    {
        if approved {
            self.settings.approved_refunds.insert(bounty_id);
        } else {
            self.settings.approved_refunds.remove(&bounty_id);
        }
    }

    /// Exempts `actor` from rate limiting, or ends the exemption.
    pub fn set_whitelisted(&mut self, actor: Address, whitelisted: bool)
        ensures
            final(self).settings.admin == old(self).settings.admin,
            final(self).settings.custody == old(self).settings.custody,
            final(self).settings.now == old(self).settings.now,
            final(self).settings.limiter.config == old(self).settings.limiter.config,
            whitelisted ==> final(self).settings.limiter.whitelist@ == old(
                self,
            ).settings.limiter.whitelist@.insert(actor.id),
            !whitelisted ==> final(self).settings.limiter.whitelist@ == old(
                self,
            ).settings.limiter.whitelist@.remove(actor.id),
            final(self).settings.approved_refunds@ == old(self).settings.approved_refunds@,
            final(self).guard == old(self).guard,
            final(self).storage@ == old(self).storage@,
    {
        self.settings.limiter.set_whitelisted(actor, whitelisted);
    }
}

} // verus!
