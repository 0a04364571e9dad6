use vstd::prelude::*;

use crate::text::{decimal, decimal_of};

verus! {

/// A monotonic sequence of key candidates, one per call.
pub struct IdGenerator {
    next: u64,
}

impl View for IdGenerator {
    type V = nat;

    /// The sequence number that the next call hands out.
    closed spec fn view(&self) -> nat {
        self.next as nat
    }
}

/// The sequence number after `n`: one more, wrapping to zero after the
/// largest `u64`.
pub open spec fn successor(n: nat) -> nat {
    if n < u64::MAX as nat {
        n + 1
    } else {
        0
    }
}

impl IdGenerator {
    pub fn new() -> (r: IdGenerator)
        ensures
            r@ == 0,
    {
        IdGenerator { next: 0 }
    }

    /// Hands out the current sequence number, written in decimal, and moves
    /// on to the next one.
    pub fn next_key(&mut self) -> (r: String)
        ensures
            r@ == decimal_of(old(self)@),
            final(self)@ == successor(old(self)@),
    {
        let r = decimal(self.next);
        if self.next < u64::MAX {
            self.next = self.next + 1;
        } else {
            self.next = 0;
        }
        r
    }
}

} // verus!
