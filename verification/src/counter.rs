//! The minimal owner-gated state machine: a single counter whose owner is
//! fixed at initialization and whose every advance is authorization-checked
//! and overflow-checked. It is the smallest instance of the authorization
//! pattern every other operation of the engine reuses.

use vstd::prelude::*;

use crate::errors::CustomError;
use crate::identity::Identity;

verus! {

pub struct Counter {
    pub owner: Identity,
    pub count: i64,
}

impl Counter {
    /// Creates the counter with the caller as its immutable owner and a zero
    /// count.
    pub fn initialize(caller: Identity) -> (r: Counter)
        ensures
            r.owner == caller,
            r.count == 0,
    {
        Counter { owner: caller, count: 0 }
    }

    /// Advances the counter by one. Only the owner may; the advance uses
    /// checked addition; on any error the counter is unchanged.
    pub fn increment(&mut self, caller: Identity) -> (r: Result<(), CustomError>)
        ensures
            final(self).owner == old(self).owner,
            caller != old(self).owner ==> r == Err::<(), CustomError>(CustomError::Unauthorized)
                && final(self).count == old(self).count,
            caller == old(self).owner && old(self).count == i64::MAX ==> r == Err::<(), CustomError>(CustomError::ArithmeticOverflow)
                && final(self).count == old(self).count,
            caller == old(self).owner && old(self).count < i64::MAX ==> r is Ok
                && final(self).count == old(self).count + 1,
    {
        if !(caller == self.owner) {
            return Err(CustomError::Unauthorized);
        }
        match self.count.checked_add(1) {
            Option::Some(c) => {
                self.count = c;
                Ok(())
            },
            Option::None => Err(CustomError::ArithmeticOverflow),
        }
    }
}

} // verus!
