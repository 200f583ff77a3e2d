//! The 16-bit shift register of the Turing Machine: four chained CD4015
//! 4-bit registers.
//!
//! Bit 0 is the newest position and bit 15 the oldest. Each clock pulse
//! shifts the register left by one and inserts the incoming bit at
//! position 0.

use vstd::prelude::*;

verus! {

#[verifier::external_type_specification]
#[verifier::external_body]
pub struct ExSmallRng(rand::rngs::SmallRng);

/// A random `u16` from `rand::RngExt::random` on a `SmallRng`; any value
/// may come back.
#[verifier::external_body]
fn random_u16(rng: &mut rand::rngs::SmallRng) -> u16 {
    rand::RngExt::random::<u16>(rng)
}

/// Bit `i` of `bits`.
pub open spec fn bit_of(bits: u16, i: u16) -> bool {
    (bits >> i) & 1 == 1
}

/// The register after one clock pulse with `new_bit` coming in.
pub open spec fn clocked(bits: u16, new_bit: bool) -> u16 {
    ((bits << 1u16) | (if new_bit { 1u16 } else { 0u16 })) as u16
}

/// The shift that selects the DAC's 8-bit window for a loop length.
pub open spec fn dac_shift(length: int) -> int {
    if length >= 8 { length - 8 } else { 0 }
}

/// The 8-bit value the DAC reads for a loop length.
pub open spec fn dac_value(bits: u16, length: int) -> u8 {
    ((bits >> (dac_shift(length) as u16)) & 0xFF) as u8
}

/// A 16-bit shift register modelling four chained CD4015 ICs.
#[derive(Debug, Clone, PartialEq, Eq)]
pub struct ShiftRegister {
    /// The register contents; bit 0 is the newest position.
    pub bits: u16,
}

impl ShiftRegister {
    /// The register contents.
    pub closed spec fn spec_bits(&self) -> u16 {
        self.bits
    }

    /// Creates a register with all bits cleared.
    pub fn new() -> (r: Self)
        ensures
            r.spec_bits() == 0,
    {
        ShiftRegister { bits: 0 }
    }

    /// Creates a register filled with random bits.
    pub fn new_random(rng: &mut rand::rngs::SmallRng) -> ShiftRegister {
        ShiftRegister { bits: random_u16(rng) }
    }

    /// Shifts the register left by one and inserts `new_bit` at bit 0.
    pub fn clock(&mut self, new_bit: bool)
        ensures
            final(self).spec_bits() == clocked(old(self).spec_bits(), new_bit),
        no_unwind
    {
        let incoming: u16 = if new_bit {
            1
        } else {
            0
        };
        self.bits = (self.bits << 1u16) | incoming;
    }

    /// The feedback bit: the bit at position `length - 1`.
    pub fn feedback_bit(&self, length: usize) -> (b: bool)
        requires
            1 <= length <= 16,
        ensures
            b == bit_of(self.spec_bits(), (length - 1) as u16),
    {
        let shift: u16 = (length - 1) as u16;
        (self.bits >> shift) & 1 == 1
    }

    /// The raw 16-bit contents of the register.
    pub fn bits(&self) -> (b: u16)
        ensures
            b == self.spec_bits(),
    {
        self.bits
    }

    /// The 8-bit value the DAC0808 sees: the top 8 bits of the loop
    /// window, bits `length-1` down to `length-8`; for lengths below 8 the
    /// lower bits come from under the window, as on the hardware.
    pub fn dac_byte(&self, length: usize) -> (d: u8)
        requires
            1 <= length <= 23,
        ensures
            d == dac_value(self.spec_bits(), length as int),
    {
        let shift: u16 = if length >= 8 {
            (length - 8) as u16
        } else {
            0
        };
        ((self.bits >> shift) & 0xFF) as u8
    }

    /// The MSB (bit 7) of [`dac_byte`](Self::dac_byte), which drives the
    /// pulse output.
    pub fn pulse_bit(&self, length: usize) -> (b: bool)
        requires
            1 <= length <= 23,
        ensures
            b == ((dac_value(self.spec_bits(), length as int) >> 7u8) & 1 == 1),
    {
        (self.dac_byte(length) >> 7u8) & 1 == 1
    }

    /// The register as 16 bools: index 0 is bit 15 (oldest), index 15 is
    /// bit 0 (newest).
    pub fn to_bools(&self) -> (out: [bool; 16])
        ensures
            forall|i: int| 0 <= i < 16 ==> #[trigger] out@[i] == bit_of(self.spec_bits(), (15 - i) as u16),
    {
        let mut out = [false; 16];
        let mut i: usize = 0;
        while i < 16
            invariant
                i <= 16,
                out@.len() == 16,
                forall|j: int| 0 <= j < i ==> #[trigger] out@[j] == bit_of(self.bits, (15 - j) as u16),
            decreases 16 - i,
        {
            let shift: u16 = (15 - i) as u16;
            out[i] = (self.bits >> shift) & 1 == 1;
            i += 1;
        }
        out
    }

    /// Clears all bits to zero.
    pub fn reset(&mut self)
        ensures
            final(self).spec_bits() == 0,
        no_unwind
    {
        self.bits = 0;
    }
}

impl Default for ShiftRegister {
    fn default() -> (r: Self)
        ensures
            r.spec_bits() == 0,
    {
        Self::new()
    }
}

// ── The locked loop ───────────────────────────────────────────────

/// One step of a fully locked loop: the feedback bit (at `length - 1`) is
/// written back in at bit 0.
pub open spec fn locked_step(bits: u16, length: u16) -> u16 {
    clocked(bits, bit_of(bits, (length - 1) as u16))
}

/// The register after `k` steps of a fully locked loop.
pub open spec fn locked_after(bits: u16, length: u16, k: nat) -> u16
    decreases k,
{
    if k == 0 {
        bits
    } else {
        locked_step(locked_after(bits, length, (k - 1) as nat), length)
    }
}

proof fn lemma_clocked_bits(b: u16, nb: bool, i: u16)
    requires
        i < 16,
    ensures
        i == 0 ==> bit_of(clocked(b, nb), i) == nb,
        i > 0 ==> bit_of(clocked(b, nb), i) == bit_of(b, (i - 1) as u16),
{
    let x: u16 = if nb { 1 } else { 0 };
    assert(clocked(b, nb) == ((b << 1u16) | x) as u16);
    assert(x <= 1 ==> (((((b << 1u16) | x) as u16) >> 0u16) & 1 == 1 <==> x == 1)) by (bit_vector);
    assert(0 < i < 16 && x <= 1 ==> ((((((b << 1u16) | x) as u16) >> i) & 1 == 1) <==> ((b >> ((
    i - 1) as u16)) & 1 == 1))) by (bit_vector);
}

/// In a fully locked loop (the feedback bit written back each step), bit
/// `i` of the loop window after `k` steps is bit `(i - k) mod length` of
/// the start: the window rotates by one position per step.
pub proof fn law_locked_loop_rotates(bits: u16, length: u16, k: nat, i: u16)
    requires
        1 <= length <= 16,
        i < length,
    ensures
        bit_of(locked_after(bits, length, k), i) == bit_of(bits, ((i - k) % (length as int)) as u16),
    decreases k,
{
    let len = length as int;
    if k == 0 {
        vstd::arithmetic::div_mod::lemma_small_mod(i as nat, len as nat);
    } else {
        let prev = locked_after(bits, length, (k - 1) as nat);
        lemma_clocked_bits(prev, bit_of(prev, (length - 1) as u16), i);
        if i == 0 {
            law_locked_loop_rotates(bits, length, (k - 1) as nat, (length - 1) as u16);
            vstd::arithmetic::div_mod::lemma_mod_add_multiples_vanish(0 - k, len);
            assert(len + (0 - k) == (length - 1) - (k - 1));
        } else {
            law_locked_loop_rotates(bits, length, (k - 1) as nat, (i - 1) as u16);
            assert((i - 1) - (k - 1) == i - k);
        }
    }
}

/// In a fully locked loop the window of `length` bits comes back to its
/// start every `length` steps.
pub proof fn law_locked_loop_repeats(bits: u16, length: u16, i: u16)
    requires
        1 <= length <= 16,
        i < length,
    ensures
        bit_of(locked_after(bits, length, length as nat), i) == bit_of(bits, i),
{
    law_locked_loop_rotates(bits, length, length as nat, i);
    vstd::arithmetic::div_mod::lemma_mod_add_multiples_vanish(i - length, length as int);
    vstd::arithmetic::div_mod::lemma_small_mod(i as nat, length as nat);
    assert(length as int + (i - length) == i as int);
    assert(((i - length as nat) % (length as int)) as u16 == i);
}

/// `k + m` locked steps are `k` locked steps followed by `m` more.
proof fn lemma_locked_after_add(bits: u16, length: u16, k: nat, m: nat)
    ensures
        locked_after(bits, length, k + m) == locked_after(locked_after(bits, length, k), length, m),
    decreases m,
{
    if m > 0 {
        lemma_locked_after_add(bits, length, k, (m - 1) as nat);
        assert((k + m - 1) as nat == k + (m - 1) as nat);
    }
}

/// For a length of at least 8 the DAC byte reads only bits inside the
/// loop window, so registers that agree there give the same byte.
proof fn lemma_dac_reads_window(a: u16, b: u16, length: u16)
    requires
        8 <= length <= 16,
        forall|i: u16| i < length ==> #[trigger] bit_of(a, i) == bit_of(b, i),
    ensures
        dac_value(a, length as int) == dac_value(b, length as int),
{
    let s: u16 = (length - 8) as u16;
    let s1: u16 = (s + 1) as u16;
    let s2: u16 = (s + 2) as u16;
    let s3: u16 = (s + 3) as u16;
    let s4: u16 = (s + 4) as u16;
    let s5: u16 = (s + 5) as u16;
    let s6: u16 = (s + 6) as u16;
    let s7: u16 = (s + 7) as u16;
    assert(bit_of(a, s) == bit_of(b, s));
    assert(bit_of(a, s1) == bit_of(b, s1));
    assert(bit_of(a, s2) == bit_of(b, s2));
    assert(bit_of(a, s3) == bit_of(b, s3));
    assert(bit_of(a, s4) == bit_of(b, s4));
    assert(bit_of(a, s5) == bit_of(b, s5));
    assert(bit_of(a, s6) == bit_of(b, s6));
    assert(bit_of(a, s7) == bit_of(b, s7));
    assert((a >> s) & 0xFFu16 == (b >> s) & 0xFFu16) by (bit_vector)
        requires
            s <= 8,
            s1 == s + 1,
            s2 == s + 2,
            s3 == s + 3,
            s4 == s + 4,
            s5 == s + 5,
            s6 == s + 6,
            s7 == s + 7,
            ((a >> s) & 1 == 1) == ((b >> s) & 1 == 1),
            ((a >> s1) & 1 == 1) == ((b >> s1) & 1 == 1),
            ((a >> s2) & 1 == 1) == ((b >> s2) & 1 == 1),
            ((a >> s3) & 1 == 1) == ((b >> s3) & 1 == 1),
            ((a >> s4) & 1 == 1) == ((b >> s4) & 1 == 1),
            ((a >> s5) & 1 == 1) == ((b >> s5) & 1 == 1),
            ((a >> s6) & 1 == 1) == ((b >> s6) & 1 == 1),
            ((a >> s7) & 1 == 1) == ((b >> s7) & 1 == 1),
    ;
    assert(dac_shift(length as int) as u16 == s);
}

/// In a fully locked loop of length 8 to 16, the DAC byte, and so every
/// output derived from it, repeats every `length` steps.
pub proof fn law_locked_loop_dac_repeats(bits: u16, length: u16, k: nat)
    requires
        8 <= length <= 16,
    ensures
        dac_value(locked_after(bits, length, k + length as nat), length as int) == dac_value(
            locked_after(bits, length, k),
            length as int,
        ),
{
    let start = locked_after(bits, length, k);
    lemma_locked_after_add(bits, length, k, length as nat);
    assert forall|i: u16| i < length implies #[trigger] bit_of(locked_after(start, length, length as nat), i)
        == bit_of(start, i) by {
        law_locked_loop_repeats(start, length, i);
    }
    lemma_dac_reads_window(locked_after(start, length, length as nat), start, length);
}

} // verus!
