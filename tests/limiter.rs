use bounty_escrow::limiter::{ActorState, AntiAbuse, AntiAbuseConfig};
use bounty_escrow::types::{Address, Error};
use std::collections::HashMap;

fn limiter(window: u64, max: u64, cooldown: u64) -> AntiAbuse {
    AntiAbuse::new(AntiAbuseConfig {
        window_size: window,
        max_operations: max,
        cooldown_period: cooldown,
    })
}

#[test]
fn max_operations_in_a_window_then_refused() {
    let l = limiter(100, 3, 50);
    let a = Address::new(5);
    let mut actors: HashMap<u64, ActorState> = HashMap::new();
    assert_eq!(l.check_and_record(&mut actors, a, 10), Ok(()));
    assert_eq!(l.check_and_record(&mut actors, a, 20), Ok(()));
    assert_eq!(l.check_and_record(&mut actors, a, 30), Ok(()));
    assert_eq!(
        actors[&5],
        ActorState { last_operation_timestamp: 30, operation_count: 3 }
    );
    assert!(!l.allows(&actors, a, 40));
    assert_eq!(l.check_and_record(&mut actors, a, 40), Err(Error::RateLimited));
    assert_eq!(actors[&5].operation_count, 3);
}

#[test]
fn new_window_resets_the_count() {
    let l = limiter(100, 3, 50);
    let a = Address::new(5);
    let mut actors: HashMap<u64, ActorState> = HashMap::new();
    for t in [10u64, 20, 30] {
        l.check_and_record(&mut actors, a, t).unwrap();
    }
    assert_eq!(l.check_and_record(&mut actors, a, 131), Ok(()));
    assert_eq!(
        actors[&5],
        ActorState { last_operation_timestamp: 131, operation_count: 1 }
    );
}

#[test]
fn exact_window_spacing_is_not_limited() {
    let l = limiter(100, 1, 50);
    let a = Address::new(5);
    let mut actors: HashMap<u64, ActorState> = HashMap::new();
    assert_eq!(l.check_and_record(&mut actors, a, 100), Ok(()));
    assert_eq!(l.check_and_record(&mut actors, a, 200), Ok(()));
    assert_eq!(l.check_and_record(&mut actors, a, 300), Ok(()));
}

#[test]
fn cooldown_elapsed_lets_a_full_window_through() {
    let l = limiter(100, 1, 50);
    let a = Address::new(5);
    let mut actors: HashMap<u64, ActorState> = HashMap::new();
    assert_eq!(l.check_and_record(&mut actors, a, 100), Ok(()));
    assert_eq!(l.check_and_record(&mut actors, a, 149), Err(Error::RateLimited));
    assert_eq!(l.check_and_record(&mut actors, a, 150), Ok(()));
    assert_eq!(actors[&5].operation_count, 2);
}

#[test]
fn zero_window_does_not_hang() {
    let l = limiter(0, 1, 0);
    let a = Address::new(5);
    let mut actors: HashMap<u64, ActorState> = HashMap::new();
    for t in 0..5u64 {
        assert_eq!(l.check_and_record(&mut actors, a, t), Ok(()));
    }
}

#[test]
fn whitelisted_actor_is_never_limited_or_counted() {
    let mut l = limiter(100, 1, 50);
    let a = Address::new(5);
    l.set_whitelisted(a, true);
    assert!(l.is_whitelisted(a));
    let mut actors: HashMap<u64, ActorState> = HashMap::new();
    for _ in 0..5 {
        assert_eq!(l.check_and_record(&mut actors, a, 10), Ok(()));
    }
    assert!(actors.is_empty());
    l.set_whitelisted(a, false);
    assert_eq!(l.check_and_record(&mut actors, a, 10), Ok(()));
    assert_eq!(l.check_and_record(&mut actors, a, 11), Err(Error::RateLimited));
}
