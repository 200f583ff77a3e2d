//! The loop-length rotary switch of the Turing Machine.

use vstd::prelude::*;

verus! {

/// The nine loop lengths, indexed by switch position.
pub open spec fn valid_length(position: int) -> int {
    seq![2int, 3, 4, 5, 6, 8, 10, 12, 16][position]
}

/// Distance between two lengths.
pub open spec fn length_distance(a: int, b: int) -> int {
    if a <= b { b - a } else { a - b }
}

/// `p` is the switch position whose length is nearest to `len`, the
/// smaller length on a tie.
pub open spec fn is_nearest_position(len: int, p: int) -> bool {
    &&& 0 <= p <= 8
    &&& forall|q: int|
        0 <= q <= 8 ==> length_distance(valid_length(p), len) < length_distance(
            valid_length(q),
            len,
        ) || (length_distance(valid_length(p), len) == length_distance(valid_length(q), len)
            && p <= q)
}

/// Models the 9-position rotary switch for loop length:
/// `[2, 3, 4, 5, 6, 8, 10, 12, 16]` at positions 0 through 8.
#[derive(Debug, PartialEq, Eq)]
pub struct LengthSelector {
    position: usize,
}

impl Clone for LengthSelector {
    fn clone(&self) -> (c: Self)
        ensures
            c == *self,
    {
        proof {
            use_type_invariant(self);
        }
        LengthSelector { position: self.position }
    }
}

impl LengthSelector {
    /// The nine valid loop lengths, indexed by rotary-switch position.
    pub const VALID_LENGTHS: [usize; 9] = [2, 3, 4, 5, 6, 8, 10, 12, 16];

    #[verifier::type_invariant]
    spec fn inv(&self) -> bool {
        self.position <= 8
    }

    /// The current switch position.
    pub closed spec fn spec_position(&self) -> int {
        self.position as int
    }

    /// Creates a selector at position 8 (length 16).
    pub fn new() -> (s: Self)
        ensures
            s.spec_position() == 8,
    {
        LengthSelector { position: 8 }
    }

    /// Sets the switch position, clamping to 0..=8.
    pub fn set_position(&mut self, pos: usize)
        ensures
            final(self).spec_position() == if pos > 8 { 8 } else { pos as int },
        no_unwind
    {
        self.position = if pos > 8 { 8 } else { pos };
    }

    /// Sets the position to the valid length nearest to `len`; on a tie
    /// the smaller length is chosen.
    pub fn set_length(&mut self, len: usize)
        ensures
            is_nearest_position(len as int, final(self).spec_position()),
        no_unwind
    {
        let lengths: [usize; 9] = [2, 3, 4, 5, 6, 8, 10, 12, 16];
        assert(lengths@ =~= seq![2usize, 3, 4, 5, 6, 8, 10, 12, 16]);
        let mut best_idx: usize = 0;
        let mut best_diff: usize = if lengths[0] > len {
            lengths[0] - len
        } else {
            len - lengths[0]
        };
        let mut idx: usize = 1;
        while idx < 9
            invariant
                lengths@ == seq![2usize, 3, 4, 5, 6, 8, 10, 12, 16],
                1 <= idx <= 9,
                best_idx < idx,
                best_diff == length_distance(valid_length(best_idx as int), len as int),
                forall|q: int|
                    0 <= q < idx ==> length_distance(valid_length(best_idx as int), len as int)
                        < length_distance(valid_length(q), len as int) || (length_distance(
                        valid_length(best_idx as int),
                        len as int,
                    ) == length_distance(valid_length(q), len as int) && best_idx <= q),
            decreases 9 - idx,
        {
            let valid = lengths[idx];
            let diff: usize = if valid > len {
                valid - len
            } else {
                len - valid
            };
            if diff < best_diff {
                best_diff = diff;
                best_idx = idx;
            }
            idx += 1;
        }
        self.position = best_idx;
    }

    /// Moves one position up, saturating at 8.
    pub fn increment(&mut self)
        ensures
            final(self).spec_position() == if old(self).spec_position() == 8 {
                8
            } else {
                old(self).spec_position() + 1
            },
    {
        proof {
            use_type_invariant(&*self);
        }
        self.position = if self.position + 1 > 8 {
            8
        } else {
            self.position + 1
        };
    }

    /// Moves one position down, saturating at 0.
    pub fn decrement(&mut self)
        ensures
            final(self).spec_position() == if old(self).spec_position() == 0 {
                0
            } else {
                old(self).spec_position() - 1
            },
    {
        proof {
            use_type_invariant(&*self);
        }
        self.position = if self.position == 0 {
            0
        } else {
            self.position - 1
        };
    }

    /// The loop length at the current position.
    pub fn length(&self) -> (l: usize)
        ensures
            l == valid_length(self.spec_position()),
            2 <= l <= 16,
    {
        proof {
            use_type_invariant(self);
        }
        let lengths: [usize; 9] = [2, 3, 4, 5, 6, 8, 10, 12, 16];
        assert(lengths@ =~= seq![2usize, 3, 4, 5, 6, 8, 10, 12, 16]);
        let p = self.position;
        assert(2 <= valid_length(p as int) <= 16) by {
            if p == 0 {} else if p == 1 {} else if p == 2 {} else if p == 3 {} else if p == 4 {}
            else if p == 5 {} else if p == 6 {} else if p == 7 {} else {}
        }
        lengths[self.position]
    }

    /// The current switch position (0..=8).
    pub fn position(&self) -> (p: usize)
        ensures
            p == self.spec_position(),
            p <= 8,
    {
        proof {
            use_type_invariant(self);
        }
        self.position
    }
}

impl Default for LengthSelector {
    fn default() -> (s: Self)
        ensures
            s.spec_position() == 8,
    {
        Self::new()
    }
}

} // verus!
