//! Clock divider of the Turing Machine.

use vstd::prelude::*;

verus! {

/// The divider's counter after one tick: advanced by one, and back to 0
/// when it reaches the division.
pub open spec fn divider_step(division: u32, counter: u32) -> u32 {
    if counter + 1 >= division {
        0
    } else {
        (counter + 1) as u32
    }
}

/// The counter after `k` ticks from zero.
pub open spec fn counter_after(division: u32, k: nat) -> u32
    decreases k,
{
    if k == 0 {
        0
    } else {
        divider_step(division, counter_after(division, (k - 1) as nat))
    }
}

/// Divides an incoming clock by an integer factor: [`tick`](Self::tick)
/// returns `true` once every `division` ticks.
#[derive(Debug, PartialEq, Eq)]
pub struct ClockDivider {
    division: u32,
    counter: u32,
}

impl Clone for ClockDivider {
    fn clone(&self) -> (c: Self)
        ensures
            c == *self,
    {
        proof {
            use_type_invariant(self);
        }
        ClockDivider { division: self.division, counter: self.counter }
    }
}

impl ClockDivider {
    #[verifier::type_invariant]
    spec fn inv(&self) -> bool {
        0 < self.division && self.counter < self.division
    }

    /// The division factor.
    pub closed spec fn spec_division(&self) -> u32 {
        self.division
    }

    /// The number of ticks since the divider last fired (or was reset).
    pub closed spec fn spec_counter(&self) -> u32 {
        self.counter
    }

    /// Creates a divider that fires every `division` ticks, with its
    /// counter at zero.
    pub fn new(division: u32) -> (d: Self)
        requires
            division > 0,
        ensures
            d.spec_division() == division,
            d.spec_counter() == 0,
    {
        ClockDivider { division, counter: 0 }
    }

    /// Advances the clock by one tick; returns `true` when the counter
    /// reaches the division, at which point it resets to zero.
    pub fn tick(&mut self) -> (fired: bool)
        ensures
            final(self).spec_division() == old(self).spec_division(),
            final(self).spec_counter() == divider_step(old(self).spec_division(), old(self).spec_counter()),
            fired <==> old(self).spec_counter() + 1 >= old(self).spec_division(),
        no_unwind
    {
        proof {
            use_type_invariant(&*self);
        }
        let next = self.counter + 1;
        if next >= self.division {
            self.counter = 0;
            true
        } else {
            self.counter = next;
            false
        }
    }

    /// Resets the counter to zero, keeping the division.
    pub fn reset(&mut self)
        ensures
            final(self).spec_division() == old(self).spec_division(),
            final(self).spec_counter() == 0,
        no_unwind
    {
        proof {
            use_type_invariant(&*self);
        }
        self.counter = 0;
    }

    /// The configured division factor.
    pub fn division(&self) -> (d: u32)
        ensures
            d == self.spec_division(),
            d > 0,
    {
        proof {
            use_type_invariant(self);
        }
        self.division
    }
}

/// From a reset, the counter after `k` ticks is `k mod division`; so the
/// divider fires on exactly the ticks whose number is a multiple of the
/// division.
pub proof fn law_divider_counts_modulo(division: u32, k: nat)
    requires
        division > 0,
    ensures
        counter_after(division, k) == k % (division as nat),
        k > 0 ==> (counter_after(division, (k - 1) as nat) + 1 >= division <==> k % (division as nat)
            == 0),
    decreases k,
{
    if k > 0 {
        law_divider_counts_modulo(division, (k - 1) as nat);
        let d = division as int;
        let prev = (k - 1) % d;
        assert(counter_after(division, (k - 1) as nat) == prev);
        vstd::arithmetic::div_mod::lemma_add_mod_noop(k - 1, 1, d);
        assert((k - 1) + 1 == k);
        assert(((k - 1) % d + 1int % d) % d == (k as int) % d);
        assert(counter_after(division, k) == divider_step(division, counter_after(division, (k - 1) as nat)));
        if d == 1 {
            assert(1int % 1 == 0);
            assert(prev == 0);
            assert(k % (division as nat) == 0);
        } else {
            vstd::arithmetic::div_mod::lemma_small_mod(1, d as nat);
            if prev + 1 < d {
                vstd::arithmetic::div_mod::lemma_small_mod((prev + 1) as nat, d as nat);
                assert(k % (division as nat) == prev + 1);
            } else {
                vstd::arithmetic::div_mod::lemma_mod_self_0(d);
                assert(k % (division as nat) == 0);
            }
        }
    } else {
        assert(counter_after(division, 0) == 0);
        assert(0nat % (division as nat) == 0);
    }
}

} // verus!
