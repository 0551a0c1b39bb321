//! Properties that relate the operations to one another, proved over the
//! same spec functions that the operations' contracts use.

use crate::escrow::{
    batch_lock_spec, batch_release_spec, has_duplicate_ids, lemma_lock_all_refusal_stays,
    lemma_release_all_refusal_stays, lock_all, lock_ids, release_all, release_ids,
};
use crate::limiter::{count_in_window, rate_step, ActorState, AntiAbuseConfig};
use crate::storage::{
    bal, can_transfer, lemma_custody_covers_record, lemma_refund_keeps_wf, lock_spec, refund_spec, release_spec, Settings,
    StorageModel,
};
use crate::types::{Address, Error, EscrowStatus, LockFundsItem, RefundMode, ReleaseFundsItem};
use vstd::prelude::*;

verus! {

/// A lock that goes through takes exactly `amount` from the depositor and
/// adds exactly `amount` to the custody account. (A refused lock leaves the
/// store, balances included, as it was: see `lock_funds`.)
pub proof fn lemma_lock_conserves_funds(
    s: &Settings,
    m: StorageModel,
    authorized: bool,
    item: LockFundsItem,
)
    ensures
        lock_spec(s, m, authorized, item) is Ok ==> {
            let after = lock_spec(s, m, authorized, item)->Ok_0;
            &&& bal(after.balances, item.depositor.id) == bal(m.balances, item.depositor.id)
                - item.amount
            &&& bal(after.balances, s.custody.id) == bal(m.balances, s.custody.id) + item.amount
        },
{
}

/// A release that goes through moves exactly what remained from custody to
/// the recipient, and after it every further release of that id is refused,
/// with `InvalidState` once authorization and rate limiting let it through.
pub proof fn lemma_release_moves_remaining_once(
    s: &Settings,
    m: StorageModel,
    invoker: Address,
    id: u64,
    recipient: Address,
    s2: &Settings,
    invoker2: Address,
    recipient2: Address,
)
    ensures
        release_spec(s, m, invoker, id, recipient) is Ok ==> {
            let after = release_spec(s, m, invoker, id, recipient)->Ok_0;
            let held = m.escrows[id].remaining_amount;
            &&& bal(after.balances, s.custody.id) == bal(m.balances, s.custody.id) - held
            &&& bal(after.balances, recipient.id) == bal(m.balances, recipient.id) + held
            &&& release_spec(s2, after, invoker2, id, recipient2) is Err
            &&& (invoker2 == s2.admin && crate::storage::counted(s2, after, invoker2) is Some)
                ==> release_spec(s2, after, invoker2, id, recipient2) == Err::<StorageModel, Error>(
                Error::InvalidState,
            )
        },
{
}

pub open spec fn sum(amounts: Seq<i128>) -> int
    decreases amounts.len(),
{
    if amounts.len() == 0 {
        0
    } else {
        sum(amounts.drop_last()) + amounts.last()
    }
}

/// Partial refunds of `amounts`, one after another, to the depositor: the
/// first refusal, or the store after all of them.
pub open spec fn partial_refunds(
    s: &Settings,
    m: StorageModel,
    invoker: Address,
    id: u64,
    amounts: Seq<i128>,
) -> Result<StorageModel, Error>
    decreases amounts.len(),
{
    if amounts.len() == 0 {
        Ok(m)
    } else {
        match partial_refunds(s, m, invoker, id, amounts.drop_last()) {
            Err(e) => Err(e),
            Ok(m2) => refund_spec(
                s,
                m2,
                invoker,
                id,
                Some(amounts.last()),
                None,
                RefundMode::Partial,
            ),
        }
    }
}

proof fn lemma_partial_refunds_remaining(
    s: &Settings,
    m: StorageModel,
    invoker: Address,
    id: u64,
    amounts: Seq<i128>,
)
    requires
        m.wf(s.custody.id),
        m.escrows.contains_key(id),
        partial_refunds(s, m, invoker, id, amounts) is Ok,
    ensures
        ({
            let after = partial_refunds(s, m, invoker, id, amounts)->Ok_0;
            &&& after.wf(s.custody.id)
            &&& after.escrows.contains_key(id)
            &&& after.escrows[id].amount == m.escrows[id].amount
            &&& after.escrows[id].remaining_amount == m.escrows[id].remaining_amount - sum(amounts)
            &&& amounts.len() > 0 ==> (after.escrows[id].status == EscrowStatus::Refunded
                <==> after.escrows[id].remaining_amount == 0)
        }),
    decreases amounts.len(),
{
    if amounts.len() > 0 {
        lemma_partial_refunds_remaining(s, m, invoker, id, amounts.drop_last());
        let mid = partial_refunds(s, m, invoker, id, amounts.drop_last())->Ok_0;
        lemma_refund_keeps_wf(s, mid, invoker, id, Some(amounts.last()), None, RefundMode::Partial);
    }
}

/// Partial refunds on a locked record that all go through and add up to
/// the locked amount leave it `Refunded` with nothing remaining.
pub proof fn lemma_partial_refunds_converge(
    s: &Settings,
    m: StorageModel,
    invoker: Address,
    id: u64,
    amounts: Seq<i128>,
)
    requires
        m.wf(s.custody.id),
        m.escrows.contains_key(id),
        m.escrows[id].status == EscrowStatus::Locked,
        partial_refunds(s, m, invoker, id, amounts) is Ok,
        sum(amounts) == m.escrows[id].amount,
    ensures
        ({
            let after = partial_refunds(s, m, invoker, id, amounts)->Ok_0;
            &&& after.escrows[id].status == EscrowStatus::Refunded
            &&& after.escrows[id].remaining_amount == 0
        }),
{
    lemma_partial_refunds_remaining(s, m, invoker, id, amounts);
}

proof fn lemma_lock_all_never_reentrant(
    s: &Settings,
    m: StorageModel,
    signers: Seq<Address>,
    items: Seq<LockFundsItem>,
)
    ensures
        lock_all(s, m, signers, items) != Err::<StorageModel, Error>(Error::ReentrantCall),
    decreases items.len(),
{
    if items.len() > 0 {
        lemma_lock_all_never_reentrant(s, m, signers, items.drop_last());
    }
}

proof fn lemma_release_all_never_reentrant(
    s: &Settings,
    m: StorageModel,
    invoker: Address,
    items: Seq<ReleaseFundsItem>,
)
    ensures
        release_all(s, m, invoker, items) != Err::<StorageModel, Error>(Error::ReentrantCall),
    decreases items.len(),
{
    if items.len() > 0 {
        lemma_release_all_never_reentrant(s, m, invoker, items.drop_last());
    }
}

/// With the guard free, no operation is refused with `ReentrantCall`: each
/// one either goes through or is refused for another reason. (With the
/// guard held, each is refused with `ReentrantCall`: see the entry points.)
pub proof fn lemma_free_guard_never_reentrant(
    s: &Settings,
    m: StorageModel,
    invoker: Address,
    authorized: bool,
    signers: Seq<Address>,
    id: u64,
    recipient: Address,
    amount: Option<i128>,
    refund_to: Option<Address>,
    mode: RefundMode,
    item: LockFundsItem,
    locks: Seq<LockFundsItem>,
    releases: Seq<ReleaseFundsItem>,
)
    ensures
        lock_spec(s, m, authorized, item) != Err::<StorageModel, Error>(Error::ReentrantCall),
        release_spec(s, m, invoker, id, recipient) != Err::<StorageModel, Error>(
            Error::ReentrantCall,
        ),
        refund_spec(s, m, invoker, id, amount, refund_to, mode) != Err::<StorageModel, Error>(
            Error::ReentrantCall,
        ),
        batch_lock_spec(s, m, signers, locks) != Err::<StorageModel, Error>(Error::ReentrantCall),
        batch_release_spec(s, m, invoker, releases) != Err::<StorageModel, Error>(
            Error::ReentrantCall,
        ),
{
    lemma_lock_all_never_reentrant(s, m, signers, locks);
    lemma_release_all_never_reentrant(s, m, invoker, releases);
}

proof fn lemma_lock_all_monotone(
    s: &Settings,
    m: StorageModel,
    signers: Seq<Address>,
    items: Seq<LockFundsItem>,
)
    ensures
        lock_all(s, m, signers, items) is Ok ==> {
            let after = lock_all(s, m, signers, items)->Ok_0;
            &&& forall|a: u64|
                a != s.custody.id ==> #[trigger] bal(after.balances, a) <= bal(m.balances, a)
            &&& forall|id: u64| #[trigger]
                m.escrows.contains_key(id) ==> after.escrows.contains_key(id)
        },
    decreases items.len(),
{
    if items.len() > 0 {
        lemma_lock_all_monotone(s, m, signers, items.drop_last());
        if lock_all(s, m, signers, items) is Ok {
            let mid = lock_all(s, m, signers, items.drop_last())->Ok_0;
            let after = lock_all(s, m, signers, items)->Ok_0;
            assert forall|a: u64| a != s.custody.id implies #[trigger] bal(after.balances, a)
                <= bal(m.balances, a) by {
                assert(bal(after.balances, a) <= bal(mid.balances, a));
                assert(bal(mid.balances, a) <= bal(m.balances, a));
            }
            assert forall|id: u64| #[trigger]
                m.escrows.contains_key(id) implies after.escrows.contains_key(id) by {
                assert(mid.escrows.contains_key(id));
            }
        }
    }
}

/// Whether `item` is refused in any batch on the store `m`, whatever the
/// items before it did: its amount is not positive, its deadline has come,
/// its bounty is already recorded, or it asks for more than its depositor
/// holds.
pub open spec fn hopeless_lock(s: &Settings, m: StorageModel, item: LockFundsItem) -> bool {
    ||| item.amount <= 0
    ||| item.deadline <= s.now
    ||| m.escrows.contains_key(item.bounty_id)
    ||| item.amount > bal(m.balances, item.depositor.id)
}

proof fn lemma_lock_all_refused_at(
    s: &Settings,
    m: StorageModel,
    signers: Seq<Address>,
    items: Seq<LockFundsItem>,
    i: int,
)
    requires
        0 <= i < items.len(),
        hopeless_lock(s, m, items[i]),
    ensures
        lock_all(s, m, signers, items) is Err,
{
    let p = items.subrange(0, i + 1);
    assert(p.drop_last() =~= items.subrange(0, i));
    lemma_lock_all_monotone(s, m, signers, items.subrange(0, i));
    assert(lock_all(s, m, signers, p) is Err);
    lemma_lock_all_refusal_stays(s, m, signers, items, i + 1);
}

/// A batch of locks with two items for one bounty id, or with an item that
/// cannot go through (an amount that is not positive, a deadline that has
/// come, a bounty already recorded, or more than the depositor holds), is
/// refused as a whole; and a refused batch changes nothing (see
/// `batch_lock_funds`).
pub proof fn lemma_batch_lock_all_or_nothing(
    s: &Settings,
    m: StorageModel,
    signers: Seq<Address>,
    items: Seq<LockFundsItem>,
)
    requires
        has_duplicate_ids(lock_ids(items)) || exists|i: int|
            0 <= i < items.len() && hopeless_lock(s, m, #[trigger] items[i]),
    ensures
        batch_lock_spec(s, m, signers, items) is Err,
{
    if !has_duplicate_ids(lock_ids(items)) && items.len() > 0 {
        let i = choose|i: int| 0 <= i < items.len() && hopeless_lock(s, m, #[trigger] items[i]);
        lemma_lock_all_refused_at(s, m, signers, items, i);
    }
}

proof fn lemma_release_all_keeps_unlocked(
    s: &Settings,
    m: StorageModel,
    invoker: Address,
    items: Seq<ReleaseFundsItem>,
)
    ensures
        release_all(s, m, invoker, items) is Ok ==> {
            let after = release_all(s, m, invoker, items)->Ok_0;
            forall|id: u64| #[trigger]
                after.escrows.contains_key(id) && after.escrows[id].status == EscrowStatus::Locked
                    ==> m.escrows.contains_key(id) && m.escrows[id].status == EscrowStatus::Locked
        },
    decreases items.len(),
{
    if items.len() > 0 {
        lemma_release_all_keeps_unlocked(s, m, invoker, items.drop_last());
        if release_all(s, m, invoker, items) is Ok {
            let mid = release_all(s, m, invoker, items.drop_last())->Ok_0;
            let after = release_all(s, m, invoker, items)->Ok_0;
            assert forall|id: u64| #[trigger]
                after.escrows.contains_key(id) && after.escrows[id].status
                    == EscrowStatus::Locked implies m.escrows.contains_key(id)
                && m.escrows[id].status == EscrowStatus::Locked by {
                assert(mid.escrows.contains_key(id) && mid.escrows[id].status == EscrowStatus::Locked);
            }
        }
    }
}

/// A batch of releases with two items for one bounty id, or with an item
/// whose bounty is not recorded or not `Locked`, is refused as a whole; and a
/// refused batch changes nothing (see `batch_release_funds`).
pub proof fn lemma_batch_release_all_or_nothing(
    s: &Settings,
    m: StorageModel,
    invoker: Address,
    items: Seq<ReleaseFundsItem>,
)
    requires
        has_duplicate_ids(release_ids(items)) || exists|i: int|
            0 <= i < items.len() && !(m.escrows.contains_key(#[trigger] items[i].bounty_id)
                && m.escrows[items[i].bounty_id].status == EscrowStatus::Locked),
    ensures
        batch_release_spec(s, m, invoker, items) is Err,
{
    if !has_duplicate_ids(release_ids(items)) && items.len() > 0 {
        let i = choose|i: int|
            0 <= i < items.len() && !(m.escrows.contains_key(#[trigger] items[i].bounty_id)
                && m.escrows[items[i].bounty_id].status == EscrowStatus::Locked);
        let p = items.subrange(0, i + 1);
        assert(p.drop_last() =~= items.subrange(0, i));
        lemma_release_all_keeps_unlocked(s, m, invoker, items.subrange(0, i));
        assert(release_all(s, m, invoker, p) is Err);
        lemma_release_all_refusal_stays(s, m, invoker, items, i + 1);
    }
}

/// Under the store invariant a release or refund never fails for want of
/// funds in custody: the transfer it makes is refused only when the
/// recipient's balance would overflow.
pub proof fn lemma_custody_pays(
    s: &Settings,
    m: StorageModel,
    id: u64,
    amt: i128,
    to: Address,
)
    requires
        m.wf(s.custody.id),
        m.escrows.contains_key(id),
        0 <= amt <= m.escrows[id].remaining_amount,
        to != s.custody,
        bal(m.balances, to.id) + amt <= i128::MAX,
    ensures
        can_transfer(m.balances, s.custody.id, to.id, amt),
{
    lemma_custody_covers_record(m, s.custody.id, id);
}

/// An actor's operations at `times`, one after another: `None` once one is
/// refused, else the actor's state after all of them.
pub open spec fn run_ops(cfg: AntiAbuseConfig, st: ActorState, times: Seq<u64>) -> Option<ActorState>
    decreases times.len(),
{
    if times.len() == 0 {
        Some(st)
    } else {
        match run_ops(cfg, st, times.drop_last()) {
            None => None,
            Some(st2) => rate_step(cfg, st2, times.last()),
        }
    }
}

/// Each operation comes at or after the one before, and at most `w` after it.
pub open spec fn gaps_within(times: Seq<u64>, w: u64) -> bool {
    forall|i: int|
        0 < i < times.len() ==> times[i - 1] <= #[trigger] times[i] && times[i] - times[i - 1] <= w
}

proof fn lemma_run_ops_counts(cfg: AntiAbuseConfig, st: ActorState, times: Seq<u64>)
    requires
        st.operation_count == 0,
        times.len() <= cfg.max_operations,
    ensures
        run_ops(cfg, st, times) is Some,
        run_ops(cfg, st, times)->Some_0.operation_count <= times.len(),
        times.len() > 0 ==> run_ops(cfg, st, times)->Some_0.last_operation_timestamp
            == times.last(),
        times.len() > 0 && gaps_within(times, cfg.window_size) ==> run_ops(
            cfg,
            st,
            times,
        )->Some_0.operation_count == times.len(),
    decreases times.len(),
{
    if times.len() > 0 {
        let init = times.drop_last();
        lemma_run_ops_counts(cfg, st, init);
        let prev = run_ops(cfg, st, init)->Some_0;
        assert(count_in_window(cfg, prev, times.last()) <= prev.operation_count);
        if gaps_within(times, cfg.window_size) && init.len() > 0 {
            assert(gaps_within(init, cfg.window_size));
            assert(times[times.len() - 2] == init.last());
            assert(times[times.len() - 1] == times.last());
        }
    }
}

/// Rate limiting: `max_operations` operations from a fresh count all go
/// through; when they follow one another within a window, one more at most
/// a window and less than the cooldown after the last is refused.
pub proof fn lemma_rate_limit_window(
    cfg: AntiAbuseConfig,
    st: ActorState,
    times: Seq<u64>,
    t: u64,
)
    requires
        st.operation_count == 0,
        times.len() == cfg.max_operations,
    ensures
        run_ops(cfg, st, times) is Some,
        (times.len() > 0 && gaps_within(times, cfg.window_size) && times.last() <= t && t
            - times.last() <= cfg.window_size && t - times.last() < cfg.cooldown_period) ==> run_ops(
            cfg,
            st,
            times.push(t),
        ) is None,
{
    lemma_run_ops_counts(cfg, st, times);
    assert(times.push(t).drop_last() =~= times);
}

/// Rate limiting: an operation more than a window after the actor's last
/// one goes through whatever the count, and starts a new count of one.
pub proof fn lemma_rate_limit_new_window(cfg: AntiAbuseConfig, st: ActorState, now: u64)
    requires
        cfg.max_operations > 0,
        now - st.last_operation_timestamp > cfg.window_size,
    ensures
        rate_step(cfg, st, now) == Some(
            ActorState { last_operation_timestamp: now, operation_count: 1 },
        ),
{
}

} // verus!
