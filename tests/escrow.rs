use bounty_escrow::escrow::BountyEscrowContract;
use bounty_escrow::limiter::AntiAbuseConfig;
use bounty_escrow::types::{
    Address, Error, EscrowStatus, LockFundsItem, RefundMode, ReleaseFundsItem,
};

const T: u64 = 1_000_000;

fn admin() -> Address {
    Address::new(1)
}

fn depositor() -> Address {
    Address::new(2)
}

fn contributor() -> Address {
    Address::new(3)
}

fn custody() -> Address {
    Address::new(100)
}

fn setup() -> BountyEscrowContract {
    let config = AntiAbuseConfig { window_size: 3600, max_operations: 10, cooldown_period: 60 };
    let mut c = BountyEscrowContract::new(admin(), custody(), config, T);
    c.mint(depositor(), 1_000_000_000).unwrap();
    c
}

#[test]
fn lock_creates_locked_record() {
    let mut c = setup();
    let d = depositor();
    assert_eq!(c.lock_funds(d, d, 1, 1000, T + 1000), Ok(()));
    let e = c.get_escrow_info(1).unwrap();
    assert_eq!(e.status, EscrowStatus::Locked);
    assert_eq!(e.amount, 1000);
    assert_eq!(e.remaining_amount, 1000);
    assert_eq!(e.depositor, d);
    assert_eq!(e.deadline, T + 1000);
    assert_eq!(e.created_at, T);
    assert_eq!(c.get_balance(1), Ok(1000));
}

#[test]
fn lock_moves_funds_into_custody() {
    let mut c = setup();
    let d = depositor();
    let before_d = c.balance(d);
    let before_c = c.balance(custody());
    c.lock_funds(d, d, 1, 1000, T + 1000).unwrap();
    assert_eq!(c.balance(d), before_d - 1000);
    assert_eq!(c.balance(custody()), before_c + 1000);
}

#[test]
fn refused_lock_moves_nothing() {
    let mut c = setup();
    let d = depositor();
    let before_d = c.balance(d);
    assert_eq!(c.lock_funds(d, d, 1, 0, T + 1000), Err(Error::InvalidAmount));
    assert_eq!(c.lock_funds(d, d, 1, -5, T + 1000), Err(Error::InvalidAmount));
    assert_eq!(c.lock_funds(d, d, 1, 1000, T), Err(Error::InvalidDeadline));
    assert_eq!(c.lock_funds(d, d, 1, 2_000_000_000, T + 1), Err(Error::InsufficientBalance));
    assert_eq!(c.lock_funds(admin(), d, 1, 1000, T + 1), Err(Error::AuthorizationFailed));
    assert_eq!(c.balance(d), before_d);
    assert_eq!(c.balance(custody()), 0);
    assert_eq!(c.get_escrow_info(1), Err(Error::BountyNotFound));
}

#[test]
fn second_lock_of_an_id_is_refused() {
    let mut c = setup();
    let d = depositor();
    c.lock_funds(d, d, 1, 1000, T + 1000).unwrap();
    assert_eq!(c.lock_funds(d, d, 1, 500, T + 1000), Err(Error::AlreadyLocked));
    assert_eq!(c.get_escrow_info(1).unwrap().amount, 1000);
}

#[test]
fn release_then_second_release_fails() {
    let mut c = setup();
    let d = depositor();
    c.lock_funds(d, d, 1, 1000, T + 1000).unwrap();
    let before_c = c.balance(custody());
    let before_r = c.balance(contributor());
    assert_eq!(c.release_funds(admin(), 1, contributor()), Ok(()));
    let e = c.get_escrow_info(1).unwrap();
    assert_eq!(e.status, EscrowStatus::Released);
    assert_eq!(e.remaining_amount, 0);
    assert_eq!(c.balance(custody()), before_c - 1000);
    assert_eq!(c.balance(contributor()), before_r + 1000);
    assert_eq!(c.release_funds(admin(), 1, contributor()), Err(Error::InvalidState));
    c.set_refund_approval(1, true);
    assert_eq!(
        c.refund(admin(), 1, Some(1), Some(contributor()), RefundMode::Custom),
        Err(Error::InvalidState)
    );
}

#[test]
fn release_errors() {
    let mut c = setup();
    let d = depositor();
    assert_eq!(c.release_funds(admin(), 9, contributor()), Err(Error::BountyNotFound));
    c.lock_funds(d, d, 1, 1000, T + 1000).unwrap();
    assert_eq!(c.release_funds(d, 1, contributor()), Err(Error::AuthorizationFailed));
    assert_eq!(c.get_escrow_info(1).unwrap().status, EscrowStatus::Locked);
}

#[test]
fn release_to_a_full_account_fails_transfer() {
    let mut c = setup();
    let d = depositor();
    c.lock_funds(d, d, 1, 1000, T + 1000).unwrap();
    c.mint(contributor(), i128::MAX).unwrap();
    assert_eq!(c.release_funds(admin(), 1, contributor()), Err(Error::TransferFailed));
    assert_eq!(c.get_escrow_info(1).unwrap().status, EscrowStatus::Locked);
    assert_eq!(c.balance(custody()), 1000);
}

#[test]
fn full_refund_after_deadline() {
    let mut c = setup();
    let d = depositor();
    c.lock_funds(d, d, 2, 1000, T + 1000).unwrap();
    let before_d = c.balance(d);
    c.set_timestamp(T + 1000);
    assert_eq!(c.refund(d, 2, None, None, RefundMode::Full), Ok(()));
    let e = c.get_escrow_info(2).unwrap();
    assert_eq!(e.status, EscrowStatus::Refunded);
    assert_eq!(e.remaining_amount, 0);
    assert_eq!(c.balance(d), before_d + 1000);
    let h = c.get_refund_history(2);
    assert_eq!(h.len(), 1);
    assert_eq!(h[0].mode, RefundMode::Full);
    assert_eq!(h[0].amount, 1000);
    assert_eq!(h[0].recipient, d);
    assert_eq!(h[0].timestamp, T + 1000);
}

#[test]
fn refund_before_deadline_is_refused() {
    let mut c = setup();
    let d = depositor();
    c.lock_funds(d, d, 2, 1000, T + 1000).unwrap();
    c.set_timestamp(T + 999);
    assert_eq!(c.refund(d, 2, None, None, RefundMode::Full), Err(Error::DeadlineNotPassed));
    assert_eq!(c.refund(d, 2, Some(10), None, RefundMode::Partial), Err(Error::DeadlineNotPassed));
    assert!(c.get_refund_history(2).is_empty());
}

#[test]
fn partial_refunds_converge_to_refunded() {
    let mut c = setup();
    let d = depositor();
    c.lock_funds(d, d, 4, 1000, T + 10).unwrap();
    c.set_timestamp(T + 10);
    assert_eq!(c.refund(d, 4, Some(300), None, RefundMode::Partial), Ok(()));
    let e = c.get_escrow_info(4).unwrap();
    assert_eq!(e.status, EscrowStatus::PartiallyRefunded);
    assert_eq!(e.remaining_amount, 700);
    assert_eq!(c.refund(d, 4, Some(800), None, RefundMode::Partial), Err(Error::InvalidAmount));
    assert_eq!(c.refund(d, 4, Some(0), None, RefundMode::Partial), Err(Error::InvalidAmount));
    assert_eq!(c.refund(d, 4, Some(300), None, RefundMode::Partial), Ok(()));
    assert_eq!(c.refund(d, 4, Some(400), None, RefundMode::Partial), Ok(()));
    let e = c.get_escrow_info(4).unwrap();
    assert_eq!(e.status, EscrowStatus::Refunded);
    assert_eq!(e.remaining_amount, 0);
    assert_eq!(e.amount, 1000);
    let h = c.get_refund_history(4);
    assert_eq!(h.len(), 3);
    assert_eq!(h[2].amount, 400);
    assert_eq!(c.refund(d, 4, Some(1), None, RefundMode::Partial), Err(Error::InvalidState));
}

#[test]
fn custom_refund_needs_approval_and_parameters() {
    let mut c = setup();
    let d = depositor();
    let other = Address::new(7);
    c.lock_funds(d, d, 5, 1000, T + 1000).unwrap();
    assert_eq!(c.refund(d, 5, Some(100), None, RefundMode::Custom), Err(Error::MissingParameter));
    assert_eq!(c.refund(d, 5, None, Some(other), RefundMode::Custom), Err(Error::MissingParameter));
    assert_eq!(c.refund(d, 5, None, None, RefundMode::Partial), Err(Error::MissingParameter));
    assert_eq!(c.refund(admin(), 5, Some(100), Some(other), RefundMode::Custom), Err(Error::RefundNotApproved));
    c.set_refund_approval(5, true);
    assert_eq!(
        c.refund(d, 5, Some(100), Some(custody()), RefundMode::Custom),
        Err(Error::CustodyAccount)
    );
    assert_eq!(c.refund(d, 5, Some(100), Some(other), RefundMode::Custom), Ok(()));
    assert_eq!(c.balance(other), 100);
    let e = c.get_escrow_info(5).unwrap();
    assert_eq!(e.status, EscrowStatus::PartiallyRefunded);
    assert_eq!(e.remaining_amount, 900);
    let h = c.get_refund_history(5);
    assert_eq!(h.len(), 1);
    assert_eq!(h[0].mode, RefundMode::Custom);
    assert_eq!(h[0].recipient, other);
    assert_eq!(c.refund(d, 6, None, None, RefundMode::Full), Err(Error::BountyNotFound));
}

fn lock_item(id: u64, amount: i128) -> LockFundsItem {
    LockFundsItem { bounty_id: id, depositor: depositor(), amount, deadline: T + 1000 }
}

#[test]
fn batch_with_duplicate_id_locks_nothing() {
    let mut c = setup();
    let items = vec![lock_item(3, 100), lock_item(3, 200)];
    assert_eq!(c.batch_lock_funds(&vec![depositor()], &items), Err(Error::DuplicateBountyId));
    assert_eq!(c.get_escrow_info(3), Err(Error::BountyNotFound));
    assert_eq!(c.balance(custody()), 0);
}

#[test]
fn batch_with_one_bad_item_locks_nothing() {
    let mut c = setup();
    let before = c.balance(depositor());
    let items = vec![lock_item(10, 100), lock_item(11, 0), lock_item(12, 100)];
    assert_eq!(c.batch_lock_funds(&vec![depositor()], &items), Err(Error::InvalidAmount));
    let items = vec![lock_item(10, 600_000_000), lock_item(11, 600_000_000)];
    assert_eq!(c.batch_lock_funds(&vec![depositor()], &items), Err(Error::InsufficientBalance));
    for id in 10..13 {
        assert_eq!(c.get_escrow_info(id), Err(Error::BountyNotFound));
    }
    assert_eq!(c.balance(depositor()), before);
    assert_eq!(c.balance(custody()), 0);
}

#[test]
fn batch_lock_and_release_all() {
    let mut c = setup();
    let items = vec![lock_item(20, 100), lock_item(21, 200), lock_item(22, 300)];
    assert_eq!(c.batch_lock_funds(&vec![depositor()], &items), Ok(3));
    assert_eq!(c.balance(custody()), 600);
    for it in &items {
        let e = c.get_escrow_info(it.bounty_id).unwrap();
        assert_eq!(e.status, EscrowStatus::Locked);
        assert_eq!(e.amount, it.amount);
    }
    let rel = vec![
        ReleaseFundsItem { bounty_id: 20, contributor: contributor() },
        ReleaseFundsItem { bounty_id: 21, contributor: contributor() },
    ];
    assert_eq!(c.batch_release_funds(admin(), &rel), Ok(2));
    assert_eq!(c.balance(contributor()), 300);
    assert_eq!(c.get_escrow_info(20).unwrap().status, EscrowStatus::Released);
    assert_eq!(c.get_escrow_info(22).unwrap().status, EscrowStatus::Locked);
}

#[test]
fn batch_release_is_all_or_nothing() {
    let mut c = setup();
    let items = vec![lock_item(30, 100), lock_item(31, 200)];
    c.batch_lock_funds(&vec![depositor()], &items).unwrap();
    let rel = vec![
        ReleaseFundsItem { bounty_id: 30, contributor: contributor() },
        ReleaseFundsItem { bounty_id: 99, contributor: contributor() },
    ];
    assert_eq!(c.batch_release_funds(admin(), &rel), Err(Error::BountyNotFound));
    assert_eq!(c.get_escrow_info(30).unwrap().status, EscrowStatus::Locked);
    assert_eq!(c.balance(contributor()), 0);
    let dup = vec![
        ReleaseFundsItem { bounty_id: 30, contributor: contributor() },
        ReleaseFundsItem { bounty_id: 30, contributor: contributor() },
    ];
    assert_eq!(c.batch_release_funds(admin(), &dup), Err(Error::DuplicateBountyId));
    assert_eq!(c.batch_release_funds(admin(), &Vec::new()), Err(Error::EmptyBatch));
    assert_eq!(c.batch_release_funds(depositor(), &rel), Err(Error::AuthorizationFailed));
}

#[test]
fn locks_are_rate_limited_per_depositor() {
    let config = AntiAbuseConfig { window_size: 100, max_operations: 2, cooldown_period: 50 };
    let mut c = BountyEscrowContract::new(admin(), custody(), config, T);
    let d = depositor();
    let e = Address::new(8);
    c.mint(d, 10_000).unwrap();
    c.mint(e, 10_000).unwrap();
    assert_eq!(c.lock_funds(d, d, 1, 10, T + 1000), Ok(()));
    assert_eq!(c.lock_funds(d, d, 2, 10, T + 1000), Ok(()));
    assert_eq!(c.lock_funds(d, d, 3, 10, T + 1000), Err(Error::RateLimited));
    assert_eq!(c.lock_funds(e, e, 50, 10, T + 1000), Ok(()));
    c.set_timestamp(T + 101);
    assert_eq!(c.lock_funds(d, d, 3, 10, T + 1000), Ok(()));
    c.set_whitelisted(d, true);
    for id in 4..10 {
        assert_eq!(c.lock_funds(d, d, id, 10, T + 1000), Ok(()));
    }
}

#[test]
fn custody_account_cannot_lock_or_be_paid() {
    let mut c = setup();
    let d = depositor();
    c.mint(custody(), 1000).unwrap();
    assert_eq!(c.lock_funds(custody(), custody(), 1, 1000, T + 1000), Err(Error::CustodyAccount));
    assert_eq!(c.get_escrow_info(1), Err(Error::BountyNotFound));
    assert_eq!(c.balance(custody()), 1000);
    c.lock_funds(d, d, 2, 500, T + 1000).unwrap();
    assert_eq!(c.release_funds(admin(), 2, custody()), Err(Error::CustodyAccount));
    assert_eq!(c.get_escrow_info(2).unwrap().status, EscrowStatus::Locked);
    assert_eq!(c.release_funds(admin(), 2, contributor()), Ok(()));
    assert_eq!(c.balance(custody()), 1000);
    let item = LockFundsItem { bounty_id: 3, depositor: custody(), amount: 10, deadline: T + 1000 };
    assert_eq!(c.batch_lock_funds(&vec![custody()], &vec![item]), Err(Error::CustodyAccount));
}

#[test]
fn batch_lock_with_several_depositors() {
    let mut c = setup();
    let e = Address::new(9);
    c.mint(e, 1000).unwrap();
    let items = vec![
        lock_item(40, 100),
        LockFundsItem { bounty_id: 41, depositor: e, amount: 300, deadline: T + 1000 },
    ];
    assert_eq!(c.batch_lock_funds(&vec![depositor()], &items), Err(Error::AuthorizationFailed));
    assert_eq!(c.get_escrow_info(40), Err(Error::BountyNotFound));
    assert_eq!(c.batch_lock_funds(&vec![e, depositor()], &items), Ok(2));
    assert_eq!(c.balance(e), 700);
    assert_eq!(c.balance(custody()), 400);
    assert_eq!(c.get_escrow_info(41).unwrap().depositor, e);
    assert!(c.get_refund_history(41).is_empty());
}

#[test]
fn batch_with_recorded_id_or_past_deadline_locks_nothing() {
    let mut c = setup();
    let d = depositor();
    c.lock_funds(d, d, 50, 10, T + 1000).unwrap();
    let items = vec![lock_item(51, 100), lock_item(50, 100)];
    assert_eq!(c.batch_lock_funds(&vec![d], &items), Err(Error::AlreadyLocked));
    let late = LockFundsItem { bounty_id: 52, depositor: d, amount: 5, deadline: T };
    let items = vec![lock_item(51, 100), late];
    assert_eq!(c.batch_lock_funds(&vec![d], &items), Err(Error::InvalidDeadline));
    assert_eq!(c.get_escrow_info(51), Err(Error::BountyNotFound));
    assert_eq!(c.balance(custody()), 10);
}

#[test]
fn named_errors_come_before_the_custody_check() {
    let mut c = setup();
    let d = depositor();
    c.mint(custody(), 5000).unwrap();
    c.lock_funds(d, d, 1, 1000, T + 1000).unwrap();
    assert_eq!(c.lock_funds(custody(), custody(), 1, 10, T + 1000), Err(Error::AlreadyLocked));
    assert_eq!(c.release_funds(admin(), 9, custody()), Err(Error::BountyNotFound));
    assert_eq!(
        c.refund(admin(), 1, Some(10), Some(custody()), RefundMode::Custom),
        Err(Error::RefundNotApproved)
    );
    assert_eq!(
        c.refund(admin(), 9, Some(10), Some(custody()), RefundMode::Custom),
        Err(Error::BountyNotFound)
    );
    c.set_refund_approval(1, true);
    assert_eq!(
        c.refund(admin(), 1, Some(2000), Some(custody()), RefundMode::Custom),
        Err(Error::InvalidAmount)
    );
    c.release_funds(admin(), 1, contributor()).unwrap();
    assert_eq!(c.release_funds(admin(), 1, custody()), Err(Error::InvalidState));
}
