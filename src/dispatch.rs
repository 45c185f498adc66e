//! Request ids and round-robin worker selection of the process pool.

use vstd::prelude::*;

verus! {

/// Round-robin choice among a fixed, positive number of workers.
pub struct RoundRobin {
    count: usize,
    next: usize,
    /// Choices made so far.
    issued: Ghost<nat>,
}

impl RoundRobin {
    #[verifier::type_invariant]
    spec fn inv(&self) -> bool {
        &&& self.count > 0
        &&& self.next == (self.issued@ as int) % (self.count as int)
    }

    /// The number of workers chosen among.
    pub closed spec fn spec_count(&self) -> nat {
        self.count as nat
    }

    /// The number of choices made so far.
    pub closed spec fn spec_issued(&self) -> nat {
        self.issued@
    }

    /// Starts with worker 0 of `count`, no choice made.
    pub fn new(count: usize) -> (r: RoundRobin)
        requires
            count > 0,
        ensures
            r.spec_count() == count,
            r.spec_issued() == 0,
    {
        proof {
            vstd::arithmetic::div_mod::lemma_small_mod(0, count as nat);
        }
        RoundRobin { count, next: 0, issued: Ghost(0) }
    }

    /// The number of workers chosen among.
    pub fn count(&self) -> (r: usize)
        ensures
            r == self.spec_count(),
    {
        self.count
    }

    /// Chooses the next worker: 0, 1, ..., count - 1, then 0 again. The
    /// choice made after `i` earlier ones, on a selector made by
    /// [`RoundRobin::new`], is worker `i mod count`.
    pub fn select(&mut self) -> (r: usize)
        ensures
            r == (old(self).spec_issued() as int) % (old(self).spec_count() as int),
            r < old(self).spec_count(),
            final(self).spec_count() == old(self).spec_count(),
            final(self).spec_issued() == old(self).spec_issued() + 1,
    {
        proof {
            use_type_invariant(&*self);
        }
        let r = self.next;
        proof {
            vstd::arithmetic::div_mod::lemma_add_mod_noop_right(
                1,
                self.issued@ as int,
                self.count as int,
            );
        }
        *self = RoundRobin {
            count: self.count,
            next: (self.next + 1) % self.count,
            issued: Ghost(self.issued@ + 1),
        };
        r
    }
}

/// A source of request ids: 0, 1, 2, ..., wrapping after `u64::MAX`.
pub struct RequestIds {
    next: u64,
    /// Ids handed out so far.
    issued: Ghost<nat>,
}

impl RequestIds {
    #[verifier::type_invariant]
    spec fn inv(&self) -> bool {
        self.next == (self.issued@ as int) % 0x1_0000_0000_0000_0000int
    }

    /// The number of ids handed out so far.
    pub closed spec fn spec_issued(&self) -> nat {
        self.issued@
    }

    /// Starts at id 0.
    pub fn new() -> (r: RequestIds)
        ensures
            r.spec_issued() == 0,
    {
        RequestIds { next: 0, issued: Ghost(0) }
    }

    /// Hands out the next id: after `i` earlier ones, on a source made by
    /// [`RequestIds::new`], the id `i mod 2^64`.
    pub fn allocate(&mut self) -> (r: u64)
        ensures
            r == (old(self).spec_issued() as int) % 0x1_0000_0000_0000_0000int,
            final(self).spec_issued() == old(self).spec_issued() + 1,
    {
        proof {
            use_type_invariant(&*self);
        }
        let r = self.next;
        proof {
            let m: int = 0x1_0000_0000_0000_0000int;
            vstd::arithmetic::div_mod::lemma_add_mod_noop_right(1, self.issued@ as int, m);
            if r as int + 1 < m {
                vstd::arithmetic::div_mod::lemma_small_mod((r + 1) as nat, m as nat);
            } else {
                vstd::arithmetic::div_mod::lemma_mod_self_0(m);
            }
        }
        *self = RequestIds { next: self.next.wrapping_add(1), issued: Ghost(self.issued@ + 1) };
        r
    }
}

} // verus!
