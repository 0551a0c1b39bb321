//! The reentrancy guard: one flag that every mutating entry point takes on
//! entry and gives back on every way out.

use vstd::prelude::*;

verus! {

#[derive(Clone, Copy, Debug, PartialEq, Eq, Structural)]
pub enum ReentrancyError {
    ReentrantCall,
}

#[derive(Debug)]
pub struct ReentrancyGuard {
    pub locked: bool,
}

impl ReentrancyGuard {
    pub fn new() -> (r: ReentrancyGuard)
        ensures
            !r.locked,
    {
        ReentrancyGuard { locked: false }
    }

    pub fn is_locked(&self) -> (r: bool)
        ensures
            r == self.locked,
    {
        self.locked
    }

    /// Takes the guard; fails, changing nothing, when it is already held.
    pub fn enter(&mut self) -> (r: Result<(), ReentrancyError>)
        ensures
            old(self).locked ==> r == Err::<(), ReentrancyError>(ReentrancyError::ReentrantCall)
                && final(self).locked,
            !old(self).locked ==> r is Ok && final(self).locked,
    {
        if self.locked {
            Err(ReentrancyError::ReentrantCall)
        } else {
            self.locked = true;
            Ok(())
        }
    }

    /// Gives the guard back, whatever its state.
    pub fn exit(&mut self)
        ensures
            !final(self).locked,
    {
        self.locked = false;
    }
}

} // verus!
