//! The anti-abuse limiter: a per-actor sliding-window operation counter with a
//! cooldown, and a whitelist of actors that it never limits.

use crate::types::{Address, Error};
use std::collections::{HashMap, HashSet};
use vstd::prelude::*;

verus! {

broadcast use vstd::std_specs::hash::group_hash_axioms;

#[derive(Clone, Copy, Debug, PartialEq, Eq, Structural)]
pub struct AntiAbuseConfig {
    /// Length of a window; a gap longer than this starts a new window.
    pub window_size: u64,
    /// Operations allowed in one window.
    pub max_operations: u64,
    /// Once the window is full, how long after the last operation the actor
    /// must wait.
    pub cooldown_period: u64,
}

/// What the limiter remembers of one actor.
#[derive(Clone, Copy, Debug, PartialEq, Eq, Structural)]
pub struct ActorState {
    pub last_operation_timestamp: u64,
    pub operation_count: u64,
}

/// The state of an actor never seen before.
pub open spec fn fresh_actor() -> ActorState {
    ActorState { last_operation_timestamp: 0, operation_count: 0 }
}

pub open spec fn actor_state(actors: Map<u64, ActorState>, a: u64) -> ActorState {
    if actors.contains_key(a) {
        actors[a]
    } else {
        fresh_actor()
    }
}

/// The count that an operation at `now` is judged against: zero once more
/// than a window has passed since the last operation.
pub open spec fn count_in_window(cfg: AntiAbuseConfig, st: ActorState, now: u64) -> int {
    if now as int - st.last_operation_timestamp as int > cfg.window_size as int {
        0
    } else {
        st.operation_count as int
    }
}

/// One operation at `now` by a limited actor: `None` when it is refused,
/// else the actor's new state.
pub open spec fn rate_step(cfg: AntiAbuseConfig, st: ActorState, now: u64) -> Option<ActorState> {
    let count = count_in_window(cfg, st, now);
    if count >= cfg.max_operations as int && (now as int - st.last_operation_timestamp as int)
        < cfg.cooldown_period as int {
        None
    } else {
        Some(
            ActorState {
                last_operation_timestamp: now,
                operation_count: if count < u64::MAX {
                    (count + 1) as u64
                } else {
                    u64::MAX
                },
            },
        )
    }
}

/// One operation at `now` by `actor`: `None` when it is refused, else the
/// counters afterwards. Whitelisted actors change nothing.
pub open spec fn record_op(
    cfg: AntiAbuseConfig,
    whitelist: Set<u64>,
    actors: Map<u64, ActorState>,
    actor: u64,
    now: u64,
) -> Option<Map<u64, ActorState>> {
    if whitelist.contains(actor) {
        Some(actors)
    } else {
        match rate_step(cfg, actor_state(actors, actor), now) {
            None => None,
            Some(s) => Some(actors.insert(actor, s)),
        }
    }
}

/// The limiter's policy: its configuration and whitelist.
pub struct AntiAbuse {
    pub config: AntiAbuseConfig,
    pub whitelist: HashSet<u64>,
}

impl AntiAbuse {
    pub fn new(config: AntiAbuseConfig) -> (r: AntiAbuse)
        ensures
            r.config == config,
            r.whitelist@ == Set::<u64>::empty(),
    {
        AntiAbuse { config, whitelist: HashSet::new() }
    }

    pub open spec fn record_spec(&self, actors: Map<u64, ActorState>, actor: Address, now: u64) -> Option<
        Map<u64, ActorState>,
    > {
        record_op(self.config, self.whitelist@, actors, actor.id, now)
    }

    /// Adds `actor` to the whitelist, or takes it out.
    pub fn set_whitelisted(&mut self, actor: Address, whitelisted: bool)
        ensures
            final(self).config == old(self).config,
            whitelisted ==> final(self).whitelist@ == old(self).whitelist@.insert(actor.id),
            !whitelisted ==> final(self).whitelist@ == old(self).whitelist@.remove(actor.id),
    {
        if whitelisted {
            self.whitelist.insert(actor.id);
        } else {
            self.whitelist.remove(&actor.id);
        }
    }

    pub fn is_whitelisted(&self, actor: Address) -> (r: bool)
        ensures
            r == self.whitelist@.contains(actor.id),
    {
        self.whitelist.contains(&actor.id)
    }

    fn step(&self, actors: &HashMap<u64, ActorState>, actor: Address, now: u64) -> (r: Option<
        ActorState,
    >)
        ensures
            !self.whitelist@.contains(actor.id) ==> r == rate_step(
                self.config,
                actor_state(actors@, actor.id),
                now,
            ),
    {
        let st = match actors.get(&actor.id) {
            Some(s) => *s,
            None => ActorState { last_operation_timestamp: 0, operation_count: 0 },
        };
        let last = st.last_operation_timestamp;
        let count: u64 = if now > last && now - last > self.config.window_size {
            0
        } else {
            st.operation_count
        };
        let cooling = now < last || now - last < self.config.cooldown_period;
        if count >= self.config.max_operations && cooling {
            None
        } else {
            let next: u64 = if count < u64::MAX {
                count + 1
            } else {
                u64::MAX
            };
            Some(ActorState { last_operation_timestamp: now, operation_count: next })
        }
    }

    /// Whether an operation by `actor` at `now` would be let through.
    pub fn allows(&self, actors: &HashMap<u64, ActorState>, actor: Address, now: u64) -> (r: bool)
        ensures
            r == self.record_spec(actors@, actor, now) is Some,
    {
        if self.whitelist.contains(&actor.id) {
            true
        } else {
            self.step(actors, actor, now).is_some()
        }
    }

    /// Counts an operation by `actor` at `now`, or refuses it with
    /// `RateLimited`, changing nothing.
    pub fn check_and_record(
        &self,
        actors: &mut HashMap<u64, ActorState>,
        actor: Address,
        now: u64,
    ) -> (r: Result<(), Error>)
        ensures
            match self.record_spec(old(actors)@, actor, now) {
                None => r == Err::<(), Error>(Error::RateLimited) && final(actors)@ == old(actors)@,
                Some(m) => r is Ok && final(actors)@ == m,
            },
    {
        if self.whitelist.contains(&actor.id) {
            return Ok(());
        }
        match self.step(actors, actor, now) {
            None => Err(Error::RateLimited),
            Some(s) => {
                actors.insert(actor.id, s);
                Ok(())
            },
        }
    }
}

} // verus!
