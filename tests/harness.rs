use bounty_escrow::harness::{
    address_from_bytes, setup_locked_escrow, verify_fund_conservation,
    verify_lock_funds_invariant, verify_release_funds_invariant, FuzzTestSetup,
    ReentrancyAttacker, INITIAL_MINT,
};
use bounty_escrow::types::{Address, Error, EscrowStatus, RefundMode};

#[test]
fn fresh_setup_funds_the_depositor() {
    let s = FuzzTestSetup::new();
    assert_eq!(s.escrow.balance(s.depositor), INITIAL_MINT);
    assert_eq!(s.escrow.balance(s.contributor), 0);
    assert_eq!(s.escrow.balance(s.escrow.settings.custody), 0);
    assert!(verify_fund_conservation(&s));
}

#[test]
fn fuzz_data_picks_the_addresses() {
    let mut data = vec![0u8; 96];
    data[0] = 7;
    data[32] = 8;
    data[64] = 9;
    let s = FuzzTestSetup::new_with_fuzz_data(&data);
    assert_eq!(s.admin, Address::new(7));
    assert_eq!(s.depositor, Address::new(8));
    assert_eq!(s.contributor, Address::new(9));
    assert_eq!(s.escrow.balance(Address::new(8)), INITIAL_MINT);
    let s = FuzzTestSetup::new_with_fuzz_data(&data[..40]);
    assert_eq!(s.admin, Address::new(7));
    assert_eq!(s.depositor, Address::new(2));
    assert_eq!(s.contributor, Address::new(3));
}

#[test]
fn address_from_short_buffer_falls_back() {
    let data = [5u8; 31];
    assert_eq!(address_from_bytes(&data, 0, Address::new(42)), Address::new(42));
    let data = [1u8; 32];
    assert_eq!(address_from_bytes(&data, 0, Address::new(42)), Address::new(0x0101_0101_0101_0101));
}

#[test]
fn clock_moves() {
    let mut s = FuzzTestSetup::new();
    s.advance_time(50);
    s.advance_time(25);
    assert_eq!(s.escrow.settings.now, 75);
    s.set_time(10);
    assert_eq!(s.escrow.settings.now, 10);
}

#[test]
fn locked_escrow_tops_up_the_depositor() {
    let mut s = FuzzTestSetup::new();
    let amount = INITIAL_MINT + 500;
    assert_eq!(setup_locked_escrow(&mut s, 1, amount, 100), Ok(()));
    assert_eq!(s.escrow.balance(s.depositor), 0);
    let e = s.escrow.get_escrow_info(1).unwrap();
    assert_eq!(e.amount, amount);
    assert_eq!(e.deadline, 100);
    assert_eq!(setup_locked_escrow(&mut s, 1, 10, 100), Err(Error::AlreadyLocked));
}

#[test]
fn lock_and_release_invariants_hold() {
    let mut s = FuzzTestSetup::new();
    assert!(verify_lock_funds_invariant(&mut s, 1, 1000));
    assert_eq!(s.escrow.balance(s.depositor), INITIAL_MINT - 1000);
    assert!(verify_lock_funds_invariant(&mut s, 1, 1000));
    assert!(verify_lock_funds_invariant(&mut s, 2, 0));
    assert!(verify_lock_funds_invariant(&mut s, 3, -7));
    let c = s.contributor;
    assert!(verify_release_funds_invariant(&mut s, 1, c));
    assert_eq!(s.escrow.balance(c), 1000);
    assert!(verify_release_funds_invariant(&mut s, 1, c));
    assert!(verify_release_funds_invariant(&mut s, 99, c));
    assert!(verify_fund_conservation(&s));
}

#[test]
fn refund_modes_through_the_setup() {
    let mut s = FuzzTestSetup::new();
    setup_locked_escrow(&mut s, 4, 900, 1000).unwrap();
    s.set_time(1000);
    let d = s.depositor;
    assert_eq!(s.escrow.refund(d, 4, Some(300), None, RefundMode::Partial), Ok(()));
    assert_eq!(s.escrow.refund(d, 4, None, None, RefundMode::Full), Ok(()));
    let e = s.escrow.get_escrow_info(4).unwrap();
    assert_eq!(e.status, EscrowStatus::Refunded);
    assert_eq!(s.escrow.get_refund_history(4).len(), 2);
    assert_eq!(s.escrow.get_refund_history(4)[1].amount, 600);
}

#[test]
fn attacker_is_refused_while_the_guard_is_held() {
    let mut s = FuzzTestSetup::new();
    setup_locked_escrow(&mut s, 1, 100, 1000).unwrap();
    let attacker = ReentrancyAttacker { identity: s.admin };
    s.escrow.guard.enter().unwrap();
    assert_eq!(attacker.attack(&mut s.escrow, 1), Err(Error::ReentrantCall));
    assert_eq!(s.escrow.get_escrow_info(1).unwrap().status, EscrowStatus::Locked);
    s.escrow.guard.exit();
    assert_eq!(attacker.attack(&mut s.escrow, 1), Ok(()));
    assert_eq!(s.escrow.balance(s.admin), 100);
}

#[test]
fn zero_data_keeps_custody_apart_from_the_parties() {
    let data = vec![0u8; 96];
    let mut s = FuzzTestSetup::new_with_fuzz_data(&data);
    assert_eq!(s.depositor, Address::new(0));
    assert_eq!(s.escrow.settings.custody, Address::new(1));
    assert!(verify_lock_funds_invariant(&mut s, 1, 1000));
    assert_eq!(s.escrow.get_escrow_info(1).unwrap().amount, 1000);
    assert_eq!(s.escrow.balance(Address::new(1)), 1000);
    let c = s.contributor;
    assert!(verify_release_funds_invariant(&mut s, 1, c));
    assert!(verify_fund_conservation(&s));
}
