//! The escrow store: token balances, escrow records, refund histories and
//! rate-limit counters, with one step function per single-item operation.
//! Each step checks everything before it writes, so a refused step leaves the
//! store as it was.

use crate::limiter::{record_op, ActorState, AntiAbuse};
use crate::types::{Address, Error, Escrow, EscrowStatus, LockFundsItem, RefundMode, RefundRecord};
use std::collections::{HashMap, HashSet};
use vstd::prelude::*;

verus! {

broadcast use vstd::std_specs::hash::group_hash_axioms;

/// What stays fixed while operations run: who administers the escrow, the
/// address that holds escrowed funds, the ledger time, the limiter policy and
/// the bounties approved for a `Custom` refund.
pub struct Settings {
    pub admin: Address,
    pub custody: Address,
    pub now: u64,
    pub limiter: AntiAbuse,
    pub approved_refunds: HashSet<u64>,
}

/// The mathematical contents of a `Storage`.
pub struct StorageModel {
    pub actors: Map<u64, ActorState>,
    pub balances: Map<u64, i128>,
    pub escrows: Map<u64, Escrow>,
    pub history: Map<u64, Seq<RefundRecord>>,
    /// Every bounty id ever locked, each once, in the order of locking.
    pub ids: Seq<u64>,
}

pub struct Storage {
    pub actors: HashMap<u64, ActorState>,
    pub balances: HashMap<u64, i128>,
    pub escrows: HashMap<u64, Escrow>,
    pub history: HashMap<u64, Vec<RefundRecord>>,
    pub ids: Ghost<Seq<u64>>,
}

impl View for Storage {
    type V = StorageModel;

    open spec fn view(&self) -> StorageModel {
        StorageModel {
            actors: self.actors@,
            balances: self.balances@,
            escrows: self.escrows@,
            history: self.history@.map_values(|v: Vec<RefundRecord>| v@),
            ids: self.ids@,
        }
    }
}

/// The token balance of `a`; an account never credited holds zero.
pub open spec fn bal(b: Map<u64, i128>, a: u64) -> int {
    if b.contains_key(a) {
        b[a] as int
    } else {
        0
    }
}

/// Whether the token ledger accepts moving `amt` from `from` to `to`.
pub open spec fn can_transfer(b: Map<u64, i128>, from: u64, to: u64, amt: i128) -> bool {
    &&& 0 <= amt
    &&& bal(b, from) >= amt
    &&& (from == to || bal(b, to) + amt <= i128::MAX)
}

/// The balances after moving `amt` from `from` to `to`.
pub open spec fn transferred(b: Map<u64, i128>, from: u64, to: u64, amt: i128) -> Map<u64, i128> {
    if from == to {
        b
    } else {
        b.insert(from, (bal(b, from) - amt) as i128).insert(to, (bal(b, to) + amt) as i128)
    }
}

pub open spec fn history_of(h: Map<u64, Seq<RefundRecord>>, id: u64) -> Seq<RefundRecord> {
    if h.contains_key(id) {
        h[id]
    } else {
        Seq::empty()
    }
}

pub open spec fn counted(s: &Settings, m: StorageModel, actor: Address) -> Option<
    Map<u64, ActorState>,
> {
    record_op(s.limiter.config, s.limiter.whitelist@, m.actors, actor.id, s.now)
}

/// One lock, as the store sees it: the error it is refused with, or the
/// store afterwards.
/// `authorized` says whether the depositor approved the call.
pub open spec fn lock_spec(s: &Settings, m: StorageModel, authorized: bool, item: LockFundsItem) -> Result<
    StorageModel,
    Error,
> {
    if !authorized {
        Err(Error::AuthorizationFailed)
    } else {
        match counted(s, m, item.depositor) {
            None => Err(Error::RateLimited),
            Some(actors) => if item.amount <= 0 {
                Err(Error::InvalidAmount)
            } else if item.deadline <= s.now {
                Err(Error::InvalidDeadline)
            } else if m.escrows.contains_key(item.bounty_id) {
                Err(Error::AlreadyLocked)
            } else if bal(m.balances, item.depositor.id) < item.amount {
                Err(Error::InsufficientBalance)
            } else if item.depositor == s.custody {
                Err(Error::CustodyAccount)
            } else if !can_transfer(m.balances, item.depositor.id, s.custody.id, item.amount) {
                Err(Error::TransferFailed)
            } else {
                Ok(
                    StorageModel {
                        actors,
                        balances: transferred(
                            m.balances,
                            item.depositor.id,
                            s.custody.id,
                            item.amount,
                        ),
                        escrows: m.escrows.insert(
                            item.bounty_id,
                            Escrow {
                                depositor: item.depositor,
                                amount: item.amount,
                                remaining_amount: item.amount,
                                status: EscrowStatus::Locked,
                                deadline: item.deadline,
                                created_at: s.now,
                            },
                        ),
                        history: m.history,
                        ids: m.ids.push(item.bounty_id),
                    },
                )
            },
        }
    }
}

/// One release of `id` to `recipient`, as the store sees it.
pub open spec fn release_spec(
    s: &Settings,
    m: StorageModel,
    invoker: Address,
    id: u64,
    recipient: Address,
) -> Result<StorageModel, Error> {
    if invoker != s.admin {
        Err(Error::AuthorizationFailed)
    } else {
        match counted(s, m, invoker) {
            None => Err(Error::RateLimited),
            Some(actors) => if !m.escrows.contains_key(id) {
                Err(Error::BountyNotFound)
            } else if m.escrows[id].status != EscrowStatus::Locked {
                Err(Error::InvalidState)
            } else if recipient == s.custody {
                Err(Error::CustodyAccount)
            } else if !can_transfer(
                m.balances,
                s.custody.id,
                recipient.id,
                m.escrows[id].remaining_amount,
            ) {
                Err(Error::TransferFailed)
            } else {
                Ok(
                    StorageModel {
                        actors,
                        balances: transferred(
                            m.balances,
                            s.custody.id,
                            recipient.id,
                            m.escrows[id].remaining_amount,
                        ),
                        escrows: m.escrows.insert(
                            id,
                            Escrow {
                                status: EscrowStatus::Released,
                                remaining_amount: 0,
                                ..m.escrows[id]
                            },
                        ),
                        history: m.history,
                        ids: m.ids,
                    },
                )
            },
        }
    }
}

/// Whether the optional arguments that `mode` needs are all present.
pub open spec fn has_parameters(mode: RefundMode, amount: Option<i128>, recipient: Option<Address>) -> bool {
    match mode {
        RefundMode::Full => true,
        RefundMode::Partial => amount is Some,
        RefundMode::Custom => amount is Some && recipient is Some,
    }
}

/// The amount a refund moves: everything that remains for `Full`, else the
/// amount given.
pub open spec fn refund_amount(mode: RefundMode, amount: Option<i128>, e: Escrow) -> i128 {
    match mode {
        RefundMode::Full => e.remaining_amount,
        _ => amount.unwrap(),
    }
}

/// Who receives a refund: the given recipient for `Custom`, else the depositor.
pub open spec fn refund_recipient(mode: RefundMode, recipient: Option<Address>, e: Escrow) -> Address {
    match mode {
        RefundMode::Custom => recipient.unwrap(),
        _ => e.depositor,
    }
}

/// A record after `amt` of it has been refunded.
pub open spec fn refunded(e: Escrow, amt: i128) -> Escrow {
    let rest = e.remaining_amount - amt;
    Escrow {
        remaining_amount: rest as i128,
        status: if rest == 0 {
            EscrowStatus::Refunded
        } else {
            EscrowStatus::PartiallyRefunded
        },
        ..e
    }
}

/// One refund, as the store sees it.
pub open spec fn refund_spec(
    s: &Settings,
    m: StorageModel,
    invoker: Address,
    id: u64,
    amount: Option<i128>,
    recipient: Option<Address>,
    mode: RefundMode,
) -> Result<StorageModel, Error> {
    if !has_parameters(mode, amount, recipient) {
        Err(Error::MissingParameter)
    } else {
        match counted(s, m, invoker) {
            None => Err(Error::RateLimited),
            Some(actors) => if !m.escrows.contains_key(id) {
                Err(Error::BountyNotFound)
            } else {
                let e = m.escrows[id];
                let amt = refund_amount(mode, amount, e);
                let to = refund_recipient(mode, recipient, e);
                if e.status == EscrowStatus::Released || e.status == EscrowStatus::Refunded {
                    Err(Error::InvalidState)
                } else if mode != RefundMode::Custom && s.now < e.deadline {
                    Err(Error::DeadlineNotPassed)
                } else if mode == RefundMode::Custom && !s.approved_refunds@.contains(id) {
                    Err(Error::RefundNotApproved)
                } else if mode != RefundMode::Full && (amt <= 0 || amt > e.remaining_amount) {
                    Err(Error::InvalidAmount)
                } else if to == s.custody {
                    Err(Error::CustodyAccount)
                } else if !can_transfer(m.balances, s.custody.id, to.id, amt) {
                    Err(Error::TransferFailed)
                } else {
                    Ok(
                        StorageModel {
                            actors,
                            balances: transferred(m.balances, s.custody.id, to.id, amt),
                            escrows: m.escrows.insert(id, refunded(e, amt)),
                            history: m.history.insert(
                                id,
                                history_of(m.history, id).push(
                                    RefundRecord { mode, amount: amt, recipient: to, timestamp: s.now },
                                ),
                            ),
                            ids: m.ids,
                        },
                    )
                }
            },
        }
    }
}

/// What the records listed in `ids` still hold, together.
pub open spec fn owed(ids: Seq<u64>, e: Map<u64, Escrow>) -> int
    decreases ids.len(),
{
    if ids.len() == 0 {
        0
    } else {
        owed(ids.drop_last(), e) + e[ids.last()].remaining_amount
    }
}

impl StorageModel {
    /// The store invariant, for custody account `custody`: every record
    /// meets the record invariant and was deposited by another account; no
    /// balance is negative; only recorded bounties have a refund history;
    /// `ids` lists each recorded bounty once; and custody holds at least what
    /// all records still hold.
    pub open spec fn wf(self, custody: u64) -> bool {
        &&& forall|id: u64| #[trigger]
            self.escrows.contains_key(id) ==> self.escrows[id].wf() && self.escrows[id].depositor.id
                != custody
        &&& forall|a: u64| #[trigger] self.balances.contains_key(a) ==> self.balances[a] >= 0
        &&& forall|id: u64| #[trigger] self.history.contains_key(id) ==> self.escrows.contains_key(id)
        &&& self.ids.no_duplicates()
        &&& forall|id: u64| #[trigger] self.escrows.contains_key(id) <==> self.ids.contains(id)
        &&& bal(self.balances, custody) >= owed(self.ids, self.escrows)
    }
}

proof fn lemma_owed_fresh(ids: Seq<u64>, e: Map<u64, Escrow>, k: u64, v: Escrow)
    requires
        !ids.contains(k),
    ensures
        owed(ids, e.insert(k, v)) == owed(ids, e),
    decreases ids.len(),
{
    if ids.len() > 0 {
        assert(ids.drop_last().contains(k) ==> ids.contains(k)) by {
            if ids.drop_last().contains(k) {
                let i = choose|i: int| 0 <= i < ids.drop_last().len() && ids.drop_last()[i] == k;
                assert(ids[i] == k);
            }
        }
        assert(ids[ids.len() - 1] == ids.last());
        lemma_owed_fresh(ids.drop_last(), e, k, v);
    }
}

proof fn lemma_owed_update(ids: Seq<u64>, e: Map<u64, Escrow>, k: u64, v: Escrow)
    requires
        ids.no_duplicates(),
        ids.contains(k),
    ensures
        owed(ids, e.insert(k, v)) == owed(ids, e) - e[k].remaining_amount + v.remaining_amount,
    decreases ids.len(),
{
    let init = ids.drop_last();
    let n = ids.len() - 1;
    assert(ids[n] == ids.last());
    assert(init.no_duplicates()) by {
        assert forall|i: int, j: int| 0 <= i < init.len() && 0 <= j < init.len() && i != j implies init[i]
            != init[j] by {
            assert(init[i] == ids[i] && init[j] == ids[j]);
        }
    }
    if ids.last() == k {
        assert(!init.contains(k)) by {
            if init.contains(k) {
                let i = choose|i: int| 0 <= i < init.len() && init[i] == k;
                assert(ids[i] == ids[n]);
            }
        }
        lemma_owed_fresh(init, e, k, v);
    } else {
        let i = choose|i: int| 0 <= i < ids.len() && ids[i] == k;
        assert(i != n);
        assert(init[i] == k);
        lemma_owed_update(init, e, k, v);
    }
}

proof fn lemma_owed_covers(ids: Seq<u64>, e: Map<u64, Escrow>, k: u64)
    requires
        ids.no_duplicates(),
        forall|id: u64| #[trigger] ids.contains(id) ==> e[id].remaining_amount >= 0,
    ensures
        owed(ids, e) >= 0,
        ids.contains(k) ==> owed(ids, e) >= e[k].remaining_amount,
    decreases ids.len(),
{
    if ids.len() > 0 {
        let init = ids.drop_last();
        let n = ids.len() - 1;
        assert(ids[n] == ids.last());
        assert(ids.contains(ids.last()));
        assert(init.no_duplicates()) by {
            assert forall|i: int, j: int| 0 <= i < init.len() && 0 <= j < init.len() && i != j implies init[i]
                != init[j] by {
                assert(init[i] == ids[i] && init[j] == ids[j]);
            }
        }
        assert forall|id: u64| #[trigger] init.contains(id) implies e[id].remaining_amount >= 0 by {
            let i = choose|i: int| 0 <= i < init.len() && init[i] == id;
            assert(ids[i] == id);
            assert(ids.contains(id));
        }
        lemma_owed_covers(init, e, k);
        if ids.contains(k) && ids.last() != k {
            let i = choose|i: int| 0 <= i < ids.len() && ids[i] == k;
            assert(i != n);
            assert(init[i] == k);
        }
    }
}

/// Under the store invariant, custody holds at least what any one record
/// still holds.
pub proof fn lemma_custody_covers_record(m: StorageModel, custody: u64, id: u64)
    requires
        m.wf(custody),
        m.escrows.contains_key(id),
    ensures
        bal(m.balances, custody) >= m.escrows[id].remaining_amount,
{
    assert forall|k: u64| #[trigger] m.ids.contains(k) implies m.escrows[k].remaining_amount >= 0 by {
        assert(m.escrows.contains_key(k));
    }
    lemma_owed_covers(m.ids, m.escrows, id);
}

proof fn lemma_lock_keeps_wf(s: &Settings, m: StorageModel, authorized: bool, item: LockFundsItem)
    requires
        m.wf(s.custody.id),
        lock_spec(s, m, authorized, item) is Ok,
    ensures
        lock_spec(s, m, authorized, item)->Ok_0.wf(s.custody.id),
{
    let m2 = lock_spec(s, m, authorized, item)->Ok_0;
    let k = item.bounty_id;
    let v = m2.escrows[k];
    assert(!m.ids.contains(k));
    lemma_owed_fresh(m.ids, m.escrows, k, v);
    assert(m2.ids.drop_last() =~= m.ids);
    assert(m2.ids.no_duplicates()) by {
        assert forall|i: int, j: int| 0 <= i < m2.ids.len() && 0 <= j < m2.ids.len() && i != j implies m2.ids[i]
            != m2.ids[j] by {
            if i < m.ids.len() && j < m.ids.len() {
                assert(m2.ids[i] == m.ids[i] && m2.ids[j] == m.ids[j]);
            } else if i < m.ids.len() {
                assert(m2.ids[i] == m.ids[i]);
                assert(m.ids.contains(m.ids[i]));
            } else {
                assert(m2.ids[j] == m.ids[j]);
                assert(m.ids.contains(m.ids[j]));
            }
        }
    }
    assert forall|id: u64| #[trigger] m2.escrows.contains_key(id) <==> m2.ids.contains(id) by {
        if m2.ids.contains(id) && id != k {
            let i = choose|i: int| 0 <= i < m2.ids.len() && m2.ids[i] == id;
            assert(i < m.ids.len());
            assert(m.ids[i] == id);
        }
        if m.ids.contains(id) {
            let i = choose|i: int| 0 <= i < m.ids.len() && m.ids[i] == id;
            assert(m2.ids[i] == id);
        }
        assert(m2.ids[m.ids.len() as int] == k);
    }
    assert forall|a: u64| #[trigger] m2.balances.contains_key(a) implies m2.balances[a] >= 0 by {
        if a != item.depositor.id && a != s.custody.id {
            assert(m.balances.contains_key(a));
        }
    }
}

proof fn lemma_release_keeps_wf(s: &Settings, m: StorageModel, invoker: Address, id: u64, recipient: Address)
    requires
        m.wf(s.custody.id),
        release_spec(s, m, invoker, id, recipient) is Ok,
    ensures
        release_spec(s, m, invoker, id, recipient)->Ok_0.wf(s.custody.id),
{
    let m2 = release_spec(s, m, invoker, id, recipient)->Ok_0;
    lemma_owed_update(m.ids, m.escrows, id, m2.escrows[id]);
    assert forall|a: u64| #[trigger] m2.balances.contains_key(a) implies m2.balances[a] >= 0 by {
        if a != recipient.id && a != s.custody.id {
            assert(m.balances.contains_key(a));
        }
    }
}

pub proof fn lemma_refund_keeps_wf(
    s: &Settings,
    m: StorageModel,
    invoker: Address,
    id: u64,
    amount: Option<i128>,
    recipient: Option<Address>,
    mode: RefundMode,
)
    requires
        m.wf(s.custody.id),
        refund_spec(s, m, invoker, id, amount, recipient, mode) is Ok,
    ensures
        refund_spec(s, m, invoker, id, amount, recipient, mode)->Ok_0.wf(s.custody.id),
{
    let m2 = refund_spec(s, m, invoker, id, amount, recipient, mode)->Ok_0;
    let to = refund_recipient(mode, recipient, m.escrows[id]);
    assert(m.escrows[id].wf());
    lemma_owed_update(m.ids, m.escrows, id, m2.escrows[id]);
    assert forall|a: u64| #[trigger] m2.balances.contains_key(a) implies m2.balances[a] >= 0 by {
        if a != to.id && a != s.custody.id {
            assert(m.balances.contains_key(a));
        }
    }
}

/// Crediting new tokens keeps the store invariant.
pub proof fn lemma_mint_keeps_wf(m: StorageModel, custody: u64, to: u64, amt: i128)
    requires
        m.wf(custody),
        0 <= amt,
        bal(m.balances, to) + amt <= i128::MAX,
    ensures
        (StorageModel {
            balances: m.balances.insert(to, (bal(m.balances, to) + amt) as i128),
            ..m
        }).wf(custody),
{
    let m2 = StorageModel { balances: m.balances.insert(to, (bal(m.balances, to) + amt) as i128), ..m };
    assert forall|a: u64| #[trigger] m2.balances.contains_key(a) implies m2.balances[a] >= 0 by {
        if a != to {
            assert(m.balances.contains_key(a));
        }
    }
}

impl Storage {
    pub fn new() -> (r: Storage)
        ensures
            r@.actors == Map::<u64, ActorState>::empty(),
            r@.balances == Map::<u64, i128>::empty(),
            r@.escrows == Map::<u64, Escrow>::empty(),
            r@.history == Map::<u64, Seq<RefundRecord>>::empty(),
            r@.ids == Seq::<u64>::empty(),
    {
        let r = Storage {
            actors: HashMap::new(),
            balances: HashMap::new(),
            escrows: HashMap::new(),
            history: HashMap::new(),
            ids: Ghost(Seq::empty()),
        };
        assert(r@.history =~= Map::<u64, Seq<RefundRecord>>::empty());
        r
    }

    /// A copy with the same contents.
    pub fn snapshot(&self) -> (r: Storage)
        ensures
            r@ == self@,
    {
        Storage {
            actors: self.actors.clone(),
            balances: self.balances.clone(),
            escrows: self.escrows.clone(),
            history: self.history.clone(),
            ids: Ghost(self.ids@),
        }
    }

    pub fn balance(&self, a: Address) -> (r: i128)
        ensures
            r as int == bal(self@.balances, a.id),
    {
        match self.balances.get(&a.id) {
            Some(b) => *b,
            None => 0,
        }
    }

    /// Moves `amt` tokens from `from` to `to`, or fails with `TransferFailed`,
    /// changing nothing.
    fn transfer(&mut self, from: Address, to: Address, amt: i128) -> (r: Result<(), Error>)
        ensures
            final(self)@.ids == old(self)@.ids,
            final(self)@.actors == old(self)@.actors,
            final(self)@.escrows == old(self)@.escrows,
            final(self)@.history == old(self)@.history,
            can_transfer(old(self)@.balances, from.id, to.id, amt) ==> r is Ok
                && final(self)@.balances == transferred(old(self)@.balances, from.id, to.id, amt),
            !can_transfer(old(self)@.balances, from.id, to.id, amt) ==> r == Err::<(), Error>(
                Error::TransferFailed,
            ) && final(self)@.balances == old(self)@.balances,
    {
        let fb = self.balance(from);
        let tb = self.balance(to);
        if amt < 0 || fb < amt {
            return Err(Error::TransferFailed);
        }
        if from.id == to.id {
            return Ok(());
        }
        if tb > i128::MAX - amt {
            return Err(Error::TransferFailed);
        }
        self.balances.insert(from.id, fb - amt);
        self.balances.insert(to.id, tb + amt);
        Ok(())
    }

    /// Credits `amt` new tokens to `to`; refused with `InvalidAmount` when
    /// `amt` is negative or the balance would overflow.
    pub fn mint(&mut self, to: Address, amt: i128) -> (r: Result<(), Error>)
        ensures
            final(self)@.ids == old(self)@.ids,
            final(self)@.actors == old(self)@.actors,
            final(self)@.escrows == old(self)@.escrows,
            final(self)@.history == old(self)@.history,
            (0 <= amt && bal(old(self)@.balances, to.id) + amt <= i128::MAX) ==> r is Ok
                && final(self)@.balances == old(self)@.balances.insert(
                to.id,
                (bal(old(self)@.balances, to.id) + amt) as i128,
            ),
            !(0 <= amt && bal(old(self)@.balances, to.id) + amt <= i128::MAX) ==> r == Err::<
                (),
                Error,
            >(Error::InvalidAmount) && final(self)@.balances == old(self)@.balances,
    {
        let tb = self.balance(to);
        if amt < 0 || tb > i128::MAX - amt {
            return Err(Error::InvalidAmount);
        }
        self.balances.insert(to.id, tb + amt);
        Ok(())
    }

    /// One lock: checks every condition, then moves the funds into custody
    /// and creates the record.
    pub fn lock_step(&mut self, s: &Settings, authorized: bool, item: LockFundsItem) -> (r: Result<
        (),
        Error,
    >)
        requires
            old(self)@.wf(s.custody.id),
        ensures
            final(self)@.wf(s.custody.id),
            match lock_spec(s, old(self)@, authorized, item) {
                Ok(m) => r is Ok && final(self)@ == m,
                Err(e) => r == Err::<(), Error>(e) && final(self)@ == old(self)@,
            },
    {
        let ghost m0 = self@;
        if !authorized {
            return Err(Error::AuthorizationFailed);
        }
        if !s.limiter.allows(&self.actors, item.depositor, s.now) {
            return Err(Error::RateLimited);
        }
        if item.amount <= 0 {
            return Err(Error::InvalidAmount);
        }
        if item.deadline <= s.now {
            return Err(Error::InvalidDeadline);
        }
        if self.escrows.contains_key(&item.bounty_id) {
            return Err(Error::AlreadyLocked);
        }
        if self.balance(item.depositor) < item.amount {
            return Err(Error::InsufficientBalance);
        }
        if item.depositor == s.custody {
            return Err(Error::CustodyAccount);
        }
        let t = self.transfer(item.depositor, s.custody, item.amount);
        if t.is_err() {
            return t;
        }
        let _ = s.limiter.check_and_record(&mut self.actors, item.depositor, s.now);
        let e = Escrow {
            depositor: item.depositor,
            amount: item.amount,
            remaining_amount: item.amount,
            status: EscrowStatus::Locked,
            deadline: item.deadline,
            created_at: s.now,
        };
        self.escrows.insert(item.bounty_id, e);
        self.ids = Ghost(self.ids@.push(item.bounty_id));
        proof {
            lemma_lock_keeps_wf(s, m0, authorized, item);
        }
        Ok(())
    }
    /// One release: checks every condition, then pays out what remains and
    /// marks the record `Released`.
    pub fn release_step(&mut self, s: &Settings, invoker: Address, id: u64, recipient: Address) -> (r:
        Result<(), Error>)
        requires
            old(self)@.wf(s.custody.id),
        ensures
            final(self)@.wf(s.custody.id),
            match release_spec(s, old(self)@, invoker, id, recipient) {
                Ok(m) => r is Ok && final(self)@ == m,
                Err(e) => r == Err::<(), Error>(e) && final(self)@ == old(self)@,
            },
    {
        let ghost m0 = self@;
        if invoker != s.admin {
            return Err(Error::AuthorizationFailed);
        }
        if !s.limiter.allows(&self.actors, invoker, s.now) {
            return Err(Error::RateLimited);
        }
        let e = match self.escrows.get(&id) {
            Some(e) => *e,
            None => {
                return Err(Error::BountyNotFound);
            },
        };
        if e.status != EscrowStatus::Locked {
            return Err(Error::InvalidState);
        }
        if recipient == s.custody {
            return Err(Error::CustodyAccount);
        }
        let t = self.transfer(s.custody, recipient, e.remaining_amount);
        if t.is_err() {
            return t;
        }
        let _ = s.limiter.check_and_record(&mut self.actors, invoker, s.now);
        self.escrows.insert(id, Escrow { status: EscrowStatus::Released, remaining_amount: 0, ..e });
        proof {
            lemma_release_keeps_wf(s, m0, invoker, id, recipient);
        }
        Ok(())
    }

    /// One refund: checks every condition, then pays out the refund, updates
    /// the record and appends to the bounty's history.
    pub fn refund_step(
        &mut self,
        s: &Settings,
        invoker: Address,
        id: u64,
        amount: Option<i128>,
        recipient: Option<Address>,
        mode: RefundMode,
    ) -> (r: Result<(), Error>)
        requires
            old(self)@.wf(s.custody.id),
        ensures
            final(self)@.wf(s.custody.id),
            match refund_spec(s, old(self)@, invoker, id, amount, recipient, mode) {
                Ok(m) => r is Ok && final(self)@ == m,
                Err(e) => r == Err::<(), Error>(e) && final(self)@ == old(self)@,
            },
    {
        let params = match mode {
            RefundMode::Full => true,
            RefundMode::Partial => amount.is_some(),
            RefundMode::Custom => amount.is_some() && recipient.is_some(),
        };
        let ghost m0 = self@;
        if !params {
            return Err(Error::MissingParameter);
        }
        if !s.limiter.allows(&self.actors, invoker, s.now) {
            return Err(Error::RateLimited);
        }
        let e = match self.escrows.get(&id) {
            Some(e) => *e,
            None => {
                return Err(Error::BountyNotFound);
            },
        };
        assert(e.wf());
        let amt: i128 = match mode {
            RefundMode::Full => e.remaining_amount,
            _ => amount.unwrap(),
        };
        let to: Address = match mode {
            RefundMode::Custom => recipient.unwrap(),
            _ => e.depositor,
        };
        if e.status == EscrowStatus::Released || e.status == EscrowStatus::Refunded {
            return Err(Error::InvalidState);
        }
        if mode != RefundMode::Custom && s.now < e.deadline {
            return Err(Error::DeadlineNotPassed);
        }
        if mode == RefundMode::Custom && !s.approved_refunds.contains(&id) {
            return Err(Error::RefundNotApproved);
        }
        if mode != RefundMode::Full && (amt <= 0 || amt > e.remaining_amount) {
            return Err(Error::InvalidAmount);
        }
        if to == s.custody {
            return Err(Error::CustodyAccount);
        }
        let t = self.transfer(s.custody, to, amt);
        if t.is_err() {
            return t;
        }
        let _ = s.limiter.check_and_record(&mut self.actors, invoker, s.now);
        let rest = e.remaining_amount - amt;
        let status = if rest == 0 {
            EscrowStatus::Refunded
        } else {
            EscrowStatus::PartiallyRefunded
        };
        self.escrows.insert(id, Escrow { remaining_amount: rest, status, ..e });
        let ghost old_history = self@.history;
        let mut entries = match self.history.remove(&id) {
            Some(v) => v,
            None => Vec::new(),
        };
        entries.push(RefundRecord { mode, amount: amt, recipient: to, timestamp: s.now });
        self.history.insert(id, entries);
        assert(self@.history =~= old_history.insert(id, history_of(old_history, id).push(
            RefundRecord { mode, amount: amt, recipient: to, timestamp: s.now },
        )));
        proof {
            lemma_refund_keeps_wf(s, m0, invoker, id, amount, recipient, mode);
        }
        Ok(())
    }
}

} // verus!
