//! The step logic of the Turing Machine.
//!
//! [`TuringCore`] wires the shift register, loop-length selector, the two
//! quantisers and the two clock dividers together. Each step takes the bit
//! to write (the feedback bit, or a random one, as the write knob decides)
//! and a random byte for the noise output, and returns every output of the
//! step as a [`StepSignals`].

use vstd::prelude::*;

use crate::clock_divider::{divider_step, ClockDivider};
use crate::length::{valid_length, LengthSelector};
use crate::quantizer::{dac_velocity, is_note_for_dac, Quantizer, Scale};
use crate::scale::law_quantize_result_unique;
use crate::shift_register::{
    bit_of, clocked, dac_shift, dac_value, law_locked_loop_dac_repeats, locked_after, ShiftRegister,
};

verus! {

/// The outputs of one step, write probability aside.
#[derive(Debug, Clone, Copy, PartialEq, Eq)]
pub struct StepSignals {
    /// Quantised MIDI note.
    pub note: Option<u8>,
    /// Velocity (1--127).
    pub velocity: Option<u8>,
    /// Pulse / gate output: the MSB of the DAC byte.
    pub gate: bool,
    /// The note of the scale-output quantiser.
    pub scale_note: Option<u8>,
    /// AND-gate outputs: `pulses[n]` is bit `n` and bit `n + 1`.
    pub pulses: [bool; 6],
    /// Per-bit gate outputs for the low eight register bits.
    pub gates: [bool; 8],
    /// Clock divided by 2.
    pub div2: bool,
    /// Clock divided by 4.
    pub div4: bool,
    /// Random controller value (0--127).
    pub noise_cc: u8,
    /// Raw register contents after the step.
    pub register_bits: u16,
    /// Active loop length.
    pub length: usize,
}

/// `n` is a note the quantiser `q` makes of `dac`.
pub open spec fn note_output(q: Quantizer, dac: u8, n: Option<u8>) -> bool {
    n matches Some(x) && is_note_for_dac(q, dac, x as int)
}

/// Registers, selector, quantisers and dividers of the Turing Machine.
#[derive(Debug)]
pub struct TuringCore {
    register: ShiftRegister,
    length: LengthSelector,
    quantizer: Quantizer,
    scale_quantizer: Quantizer,
    div2: ClockDivider,
    div4: ClockDivider,
    step_count: u64,
}

impl TuringCore {
    #[verifier::type_invariant]
    spec fn inv(&self) -> bool {
        self.div2.spec_division() == 2 && self.div4.spec_division() == 4
    }

    /// The register contents.
    pub closed spec fn spec_bits(&self) -> u16 {
        self.register.spec_bits()
    }

    /// The loop-length switch position.
    pub closed spec fn spec_position(&self) -> int {
        self.length.spec_position()
    }

    /// The active loop length.
    pub open spec fn spec_length(&self) -> int {
        valid_length(self.spec_position())
    }

    /// The main quantiser.
    pub closed spec fn spec_quantizer(&self) -> Quantizer {
        self.quantizer
    }

    /// The scale-output quantiser.
    pub closed spec fn spec_scale_quantizer(&self) -> Quantizer {
        self.scale_quantizer
    }

    /// Ticks since the divide-by-2 output last fired.
    pub closed spec fn spec_div2_counter(&self) -> u32 {
        self.div2.spec_counter()
    }

    /// Ticks since the divide-by-4 output last fired.
    pub closed spec fn spec_div4_counter(&self) -> u32 {
        self.div4.spec_counter()
    }

    /// Ticks since creation or the last reset.
    pub closed spec fn spec_step_count(&self) -> u64 {
        self.step_count
    }

    /// Both quantisers have a range whose start is not above its end.
    pub open spec fn ranges_ordered(&self) -> bool {
        &&& self.spec_quantizer().range@.start <= self.spec_quantizer().range@.end
        &&& self.spec_scale_quantizer().range@.start <= self.spec_scale_quantizer().range@.end
    }

    /// Creates a core around the given register: length 16, chromatic
    /// scales rooted at C with the range 36..=84, dividers at zero.
    pub fn new(register: ShiftRegister) -> (c: Self)
        ensures
            c.spec_bits() == register.spec_bits(),
            c.spec_length() == 16,
            c.spec_quantizer().scale.spec_intervals() == seq![0u8, 1, 2, 3, 4, 5, 6, 7, 8, 9, 10, 11],
            c.spec_quantizer().root == 0,
            c.spec_quantizer().range@.start == 36,
            c.spec_quantizer().range@.end == 84,
            c.spec_scale_quantizer().scale.spec_intervals() == seq![0u8, 1, 2, 3, 4, 5, 6, 7, 8, 9, 10, 11],
            c.spec_scale_quantizer().root == 0,
            c.spec_scale_quantizer().range@.start == 36,
            c.spec_scale_quantizer().range@.end == 84,
            c.spec_div2_counter() == 0,
            c.spec_div4_counter() == 0,
            c.spec_step_count() == 0,
    {
        let mut length = LengthSelector::new();
        length.set_length(16);
        proof {
            assert(crate::length::is_nearest_position(16, length.spec_position()));
            assert(crate::length::length_distance(valid_length(8), 16) == 0);
        }
        TuringCore {
            register,
            length,
            quantizer: Quantizer::new(Scale::chromatic(), 0),
            scale_quantizer: Quantizer::new(Scale::chromatic(), 0),
            div2: ClockDivider::new(2),
            div4: ClockDivider::new(4),
            step_count: 0,
        }
    }

    /// The feedback bit: the register bit at `length - 1`.
    pub fn feedback_bit(&self) -> (b: bool)
        ensures
            b == bit_of(self.spec_bits(), (self.spec_length() - 1) as u16),
    {
        let len = self.length.length();
        self.register.feedback_bit(len)
    }

    /// Advances the machine by one clock pulse: `new_bit` goes into the
    /// register, the outputs are read off it, the dividers tick and the
    /// step counter grows by one. `noise` is the random byte behind the
    /// noise output.
    pub fn tick(&mut self, new_bit: bool, noise: u8) -> (s: StepSignals)
        requires
            old(self).ranges_ordered(),
            old(self).spec_step_count() < u64::MAX,
        ensures
            step_outputs(*old(self), *final(self), new_bit, noise, s),
            s.gate == bit_of(
                final(self).spec_bits(),
                (if old(self).spec_length() >= 8 { old(self).spec_length() - 1 } else { 7 }) as u16,
            ),
            s.div2 <==> old(self).spec_div2_counter() + 1 >= 2,
            s.div4 <==> old(self).spec_div4_counter() + 1 >= 4,
            final(self).spec_div2_counter() == divider_step(2, old(self).spec_div2_counter()),
            final(self).spec_div4_counter() == divider_step(4, old(self).spec_div4_counter()),
            final(self).spec_step_count() == old(self).spec_step_count() + 1,
    {
        let s = self.step_inner(new_bit, noise, true);
        proof {
            use_type_invariant(&*self);
        }
        let ghost mid = *self;
        self.step_count = self.step_count + 1;
        assert(self.spec_bits() == mid.spec_bits());
        assert(self.spec_position() == mid.spec_position());
        assert(self.spec_quantizer() == mid.spec_quantizer());
        assert(self.spec_scale_quantizer() == mid.spec_scale_quantizer());
        s
    }

    /// Advances the register by one step without ticking the dividers or
    /// the step counter; the divider outputs read `false`.
    pub fn move_step(&mut self, new_bit: bool, noise: u8) -> (s: StepSignals)
        requires
            old(self).ranges_ordered(),
        ensures
            step_outputs(*old(self), *final(self), new_bit, noise, s),
            s.gate == bit_of(
                final(self).spec_bits(),
                (if old(self).spec_length() >= 8 { old(self).spec_length() - 1 } else { 7 }) as u16,
            ),
            !s.div2,
            !s.div4,
            final(self).spec_div2_counter() == old(self).spec_div2_counter(),
            final(self).spec_div4_counter() == old(self).spec_div4_counter(),
            final(self).spec_step_count() == old(self).spec_step_count(),
    {
        self.step_inner(new_bit, noise, false)
    }

    fn step_inner(&mut self, new_bit: bool, noise: u8, advance_clock: bool) -> (s: StepSignals)
        requires
            old(self).ranges_ordered(),
        ensures
            step_outputs(*old(self), *final(self), new_bit, noise, s),
            s.gate == bit_of(
                final(self).spec_bits(),
                (if old(self).spec_length() >= 8 { old(self).spec_length() - 1 } else { 7 }) as u16,
            ),
            advance_clock ==> (s.div2 <==> old(self).spec_div2_counter() + 1 >= 2),
            advance_clock ==> (s.div4 <==> old(self).spec_div4_counter() + 1 >= 4),
            advance_clock ==> final(self).spec_div2_counter() == divider_step(2, old(self).spec_div2_counter()),
            advance_clock ==> final(self).spec_div4_counter() == divider_step(4, old(self).spec_div4_counter()),
            !advance_clock ==> !s.div2 && !s.div4,
            !advance_clock ==> final(self).spec_div2_counter() == old(self).spec_div2_counter(),
            !advance_clock ==> final(self).spec_div4_counter() == old(self).spec_div4_counter(),
            final(self).spec_step_count() == old(self).spec_step_count(),
    {
        proof {
            use_type_invariant(&*self);
        }
        let len = self.length.length();
        self.register.clock(new_bit);
        let dac = self.register.dac_byte(len);
        let bits = self.register.bits();
        let mut gates = [false; 8];
        let mut n: usize = 0;
        while n < 8
            invariant
                n <= 8,
                gates@.len() == 8,
                forall|j: int| 0 <= j < n ==> #[trigger] gates@[j] == bit_of(bits, j as u16),
            decreases 8 - n,
        {
            let shift: u16 = n as u16;
            gates[n] = (bits >> shift) & 1 == 1;
            n += 1;
        }
        let mut pulses = [false; 6];
        let mut n: usize = 0;
        while n < 6
            invariant
                n <= 6,
                pulses@.len() == 6,
                forall|j: int|
                    0 <= j < n ==> #[trigger] pulses@[j] == (bit_of(bits, j as u16) && bit_of(
                        bits,
                        (j + 1) as u16,
                    )),
            decreases 6 - n,
        {
            let lo: u16 = n as u16;
            let hi: u16 = (n + 1) as u16;
            pulses[n] = (bits >> lo) & 1 == 1 && (bits >> hi) & 1 == 1;
            n += 1;
        }
        let (d2, d4) = if advance_clock {
            (self.div2.tick(), self.div4.tick())
        } else {
            (false, false)
        };
        let note = self.quantizer.note_from_dac(dac);
        let velocity = self.quantizer.velocity_from_dac(dac);
        let scale_note = self.scale_quantizer.note_from_dac(dac);
        let gate = self.register.pulse_bit(len);
        let noise_cc: u8 = noise & 0x7F;
        let s = StepSignals {
            note: Some(note),
            velocity: Some(velocity),
            gate,
            scale_note: Some(scale_note),
            pulses,
            gates,
            div2: d2,
            div4: d4,
            noise_cc,
            register_bits: bits,
            length: len,
        };
        proof {
            law_gate_reads_window_top(*old(self), *self, new_bit, noise, s);
        }
        s
    }

    /// Clears the register, resets both dividers and zeroes the step
    /// counter; scales, roots, ranges and length are kept.
    pub fn reset(&mut self)
        ensures
            final(self).spec_bits() == 0,
            final(self).spec_div2_counter() == 0,
            final(self).spec_div4_counter() == 0,
            final(self).spec_step_count() == 0,
            final(self).spec_position() == old(self).spec_position(),
            final(self).spec_quantizer() == old(self).spec_quantizer(),
            final(self).spec_scale_quantizer() == old(self).spec_scale_quantizer(),
    {
        proof {
            use_type_invariant(&*self);
        }
        self.register.reset();
        self.div2.reset();
        self.div4.reset();
        self.step_count = 0;
    }

    /// Sets the loop-length switch position, clamped to 0..=8.
    pub fn set_length_position(&mut self, pos: usize)
        ensures
            final(self).spec_position() == if pos > 8 { 8 } else { pos as int },
            unchanged_but_length(*old(self), *final(self)),
    {
        proof {
            use_type_invariant(&*self);
        }
        self.length.set_position(pos);
    }

    /// Sets the loop length to the nearest valid one (the smaller on a
    /// tie).
    pub fn set_length(&mut self, len: usize)
        ensures
            crate::length::is_nearest_position(len as int, final(self).spec_position()),
            unchanged_but_length(*old(self), *final(self)),
    {
        proof {
            use_type_invariant(&*self);
        }
        self.length.set_length(len);
    }

    /// Replaces the main quantiser's scale.
    pub fn set_scale(&mut self, scale: Scale)
        ensures
            final(self).spec_quantizer() == (Quantizer { scale, ..old(self).spec_quantizer() }),
            unchanged_but_quantizers(*old(self), *final(self)),
            final(self).spec_scale_quantizer() == old(self).spec_scale_quantizer(),
    {
        proof {
            use_type_invariant(&*self);
        }
        self.quantizer.set_scale(scale);
    }

    /// Sets the main quantiser's root note, clamped to 0--11.
    pub fn set_root(&mut self, root: u8)
        ensures
            final(self).spec_quantizer() == (Quantizer {
                root: if root > 11 { 11 } else { root },
                ..old(self).spec_quantizer()
            }),
            unchanged_but_quantizers(*old(self), *final(self)),
            final(self).spec_scale_quantizer() == old(self).spec_scale_quantizer(),
    {
        proof {
            use_type_invariant(&*self);
        }
        self.quantizer.set_root(root);
    }

    /// Sets the main quantiser's MIDI note range.
    pub fn set_note_range(&mut self, range: core::ops::RangeInclusive<u8>)
        ensures
            final(self).spec_quantizer() == (Quantizer { range, ..old(self).spec_quantizer() }),
            unchanged_but_quantizers(*old(self), *final(self)),
            final(self).spec_scale_quantizer() == old(self).spec_scale_quantizer(),
    {
        proof {
            use_type_invariant(&*self);
        }
        self.quantizer.set_range(range);
    }

    /// Replaces the scale-output quantiser's scale.
    pub fn set_scale_output_scale(&mut self, scale: Scale)
        ensures
            final(self).spec_scale_quantizer() == (Quantizer {
                scale,
                ..old(self).spec_scale_quantizer()
            }),
            unchanged_but_quantizers(*old(self), *final(self)),
            final(self).spec_quantizer() == old(self).spec_quantizer(),
    {
        proof {
            use_type_invariant(&*self);
        }
        self.scale_quantizer.set_scale(scale);
    }

    /// Sets the scale-output quantiser's root note, clamped to 0--11.
    pub fn set_scale_output_root(&mut self, root: u8)
        ensures
            final(self).spec_scale_quantizer() == (Quantizer {
                root: if root > 11 { 11 } else { root },
                ..old(self).spec_scale_quantizer()
            }),
            unchanged_but_quantizers(*old(self), *final(self)),
            final(self).spec_quantizer() == old(self).spec_quantizer(),
    {
        proof {
            use_type_invariant(&*self);
        }
        self.scale_quantizer.set_root(root);
    }

    /// The raw register contents.
    pub fn register_bits(&self) -> (b: u16)
        ensures
            b == self.spec_bits(),
    {
        self.register.bits()
    }

    /// The register as 16 bools, index 0 being bit 15 (oldest).
    pub fn register_pattern(&self) -> (out: [bool; 16])
        ensures
            forall|i: int| 0 <= i < 16 ==> #[trigger] out@[i] == bit_of(self.spec_bits(), (15 - i) as u16),
    {
        self.register.to_bools()
    }

    /// The register drawn as text: one `1` or `0` per bit, oldest first,
    /// with the loop window between `[` and `]`.
    pub fn display_pattern(&self) -> (out: Vec<char>)
        ensures
            out@ == pattern_chars(self.spec_bits(), self.spec_length()),
    {
        let len = self.length.length();
        let bools = self.register.to_bools();
        let split: usize = 16 - len;
        let mut out: Vec<char> = Vec::new();
        let mut i: usize = 0;
        while i < 16
            invariant
                i <= 16,
                split == 16 - self.spec_length(),
                2 <= self.spec_length() <= 16,
                forall|j: int| 0 <= j < 16 ==> #[trigger] bools@[j] == bit_of(self.spec_bits(), (15 - j) as u16),
                out@ == bit_chars(self.spec_bits(), split as int, i as int),
            decreases 16 - i,
        {
            if i == split {
                out.push('[');
            }
            out.push(if bools[i] {
                '1'
            } else {
                '0'
            });
            proof {
                assert(bit_chars(self.spec_bits(), split as int, i + 1) == bit_chars(
                    self.spec_bits(),
                    split as int,
                    i as int,
                ) + (if i == split {
                    seq!['[']
                } else {
                    Seq::empty()
                }) + seq![bit_char(self.spec_bits(), (15 - i) as u16)]);
            }
            i += 1;
        }
        out.push(']');
        out
    }

    /// The active loop length.
    pub fn current_length(&self) -> (l: usize)
        ensures
            l == self.spec_length(),
    {
        self.length.length()
    }

    /// Ticks processed since creation or the last reset.
    pub fn step_count(&self) -> (n: u64)
        ensures
            n == self.spec_step_count(),
    {
        self.step_count
    }
}

/// `1` for a set bit `i`, `0` for a clear one.
pub open spec fn bit_char(bits: u16, i: u16) -> char {
    if bit_of(bits, i) { '1' } else { '0' }
}

/// The first `n` register positions drawn oldest first, with `[` before
/// position `split`.
pub open spec fn bit_chars(bits: u16, split: int, n: int) -> Seq<char>
    decreases n,
{
    if n <= 0 {
        Seq::empty()
    } else {
        bit_chars(bits, split, n - 1) + (if n - 1 == split {
            seq!['[']
        } else {
            Seq::empty()
        }) + seq![bit_char(bits, (15 - (n - 1)) as u16)]
    }
}

/// The register drawn for a loop length: its 16 bits oldest first, `[`
/// where the loop window starts and `]` at the end.
pub open spec fn pattern_chars(bits: u16, length: int) -> Seq<char> {
    bit_chars(bits, 16 - length, 16).push(']')
}

proof fn lemma_bit_chars_shape(bits: u16, split: int, n: int)
    requires
        0 <= split,
        0 <= n,
    ensures
        bit_chars(bits, split, n).len() == n + (if split < n { 1int } else { 0 }),
        split < n ==> bit_chars(bits, split, n)[split] == '[',
    decreases n,
{
    if n > 0 {
        lemma_bit_chars_shape(bits, split, n - 1);
        let prev = bit_chars(bits, split, n - 1);
        let mid: Seq<char> = if n - 1 == split { seq!['['] } else { Seq::empty() };
        assert(bit_chars(bits, split, n) == prev + mid + seq![bit_char(bits, (15 - (n - 1)) as u16)]);
        if split < n - 1 {
            assert((prev + mid + seq![bit_char(bits, (15 - (n - 1)) as u16)])[split] == prev[split]);
        } else if split == n - 1 {
            assert(prev.len() == split);
            assert((prev + mid + seq![bit_char(bits, (15 - (n - 1)) as u16)])[split] == mid[0]);
        }
    }
}

/// The drawn register is 18 characters long: the 16 bits, `[` just
/// before the last `length` of them, and `]` at the end; so exactly
/// `length` characters stand between the brackets.
pub proof fn law_pattern_shape(bits: u16, length: int)
    requires
        2 <= length <= 16,
    ensures
        pattern_chars(bits, length).len() == 18,
        pattern_chars(bits, length)[16 - length] == '[',
        pattern_chars(bits, length)[17] == ']',
{
    lemma_bit_chars_shape(bits, 16 - length, 16);
}

/// Only the loop length may differ between `a` and `b`.
pub open spec fn unchanged_but_length(a: TuringCore, b: TuringCore) -> bool {
    &&& b.spec_bits() == a.spec_bits()
    &&& b.spec_quantizer() == a.spec_quantizer()
    &&& b.spec_scale_quantizer() == a.spec_scale_quantizer()
    &&& b.spec_div2_counter() == a.spec_div2_counter()
    &&& b.spec_div4_counter() == a.spec_div4_counter()
    &&& b.spec_step_count() == a.spec_step_count()
}

/// Only the quantisers may differ between `a` and `b`.
pub open spec fn unchanged_but_quantizers(a: TuringCore, b: TuringCore) -> bool {
    &&& b.spec_bits() == a.spec_bits()
    &&& b.spec_position() == a.spec_position()
    &&& b.spec_div2_counter() == a.spec_div2_counter()
    &&& b.spec_div4_counter() == a.spec_div4_counter()
    &&& b.spec_step_count() == a.spec_step_count()
}

/// The outputs of a step from `before` to `after` with `new_bit` written
/// and `noise` drawn: the register shifts `new_bit` in, and every output
/// but the dividers' is read off the new register through the DAC byte
/// of the loop window.
pub open spec fn step_outputs(
    before: TuringCore,
    after: TuringCore,
    new_bit: bool,
    noise: u8,
    s: StepSignals,
) -> bool {
    let len = before.spec_length();
    let bits = clocked(before.spec_bits(), new_bit);
    let dac = dac_value(bits, len);
    &&& after.spec_bits() == bits
    &&& after.spec_position() == before.spec_position()
    &&& after.spec_quantizer() == before.spec_quantizer()
    &&& after.spec_scale_quantizer() == before.spec_scale_quantizer()
    &&& s.register_bits == bits
    &&& s.length == len
    &&& note_output(before.spec_quantizer(), dac, s.note)
    &&& s.velocity == Some(dac_velocity(dac))
    &&& s.gate == ((dac >> 7u8) & 1 == 1)
    &&& note_output(before.spec_scale_quantizer(), dac, s.scale_note)
    &&& forall|n: int| 0 <= n < 8 ==> #[trigger] s.gates@[n] == bit_of(bits, n as u16)
    &&& forall|n: int|
        0 <= n < 6 ==> #[trigger] s.pulses@[n] == (bit_of(bits, n as u16) && bit_of(
            bits,
            (n + 1) as u16,
        ))
    &&& s.noise_cc == noise & 0x7F
}

/// A step is determined by the machine and what it is fed: from the same
/// machine, the same written bit and the same noise byte, every output of
/// the step (the dividers' aside) and the register, switch and quantisers
/// after it are the same.
pub proof fn law_step_determined(
    before: TuringCore,
    after1: TuringCore,
    after2: TuringCore,
    new_bit: bool,
    noise: u8,
    s1: StepSignals,
    s2: StepSignals,
)
    requires
        step_outputs(before, after1, new_bit, noise, s1),
        step_outputs(before, after2, new_bit, noise, s2),
    ensures
        s1.note == s2.note,
        s1.velocity == s2.velocity,
        s1.gate == s2.gate,
        s1.scale_note == s2.scale_note,
        s1.pulses@ == s2.pulses@,
        s1.gates@ == s2.gates@,
        s1.noise_cc == s2.noise_cc,
        s1.register_bits == s2.register_bits,
        s1.length == s2.length,
        after1.spec_bits() == after2.spec_bits(),
        after1.spec_position() == after2.spec_position(),
        after1.spec_quantizer() == after2.spec_quantizer(),
        after1.spec_scale_quantizer() == after2.spec_scale_quantizer(),
{
    let dac = dac_value(clocked(before.spec_bits(), new_bit), before.spec_length());
    law_note_for_dac_unique(
        before.spec_quantizer(),
        dac,
        s1.note.unwrap() as int,
        s2.note.unwrap() as int,
    );
    law_note_for_dac_unique(
        before.spec_scale_quantizer(),
        dac,
        s1.scale_note.unwrap() as int,
        s2.scale_note.unwrap() as int,
    );
    assert(s1.pulses@ =~= s2.pulses@);
    assert(s1.gates@ =~= s2.gates@);
}

/// A step's gate output reads the top bit of the new register's loop
/// window: bit `length - 1` for loop lengths of 8 to 16 (the most
/// significant bit of the DAC byte read from bits `length - 8` to
/// `length - 1`), and bit 7 for shorter loops, whose DAC reads the low
/// byte.
pub proof fn law_gate_reads_window_top(
    before: TuringCore,
    after: TuringCore,
    new_bit: bool,
    noise: u8,
    s: StepSignals,
)
    requires
        step_outputs(before, after, new_bit, noise, s),
        1 <= before.spec_length() <= 16,
    ensures
        s.gate == bit_of(
            after.spec_bits(),
            (if before.spec_length() >= 8 { before.spec_length() - 1 } else { 7 }) as u16,
        ),
        s.gate == bit_of(s.register_bits, (if s.length >= 8 { s.length - 1 } else { 7 }) as u16),
{
    let len = before.spec_length();
    let bits = after.spec_bits();
    let sh = dac_shift(len) as u16;
    assert(sh <= 8);
    assert(dac_value(bits, len) == ((bits >> sh) & 0xFF) as u8);
    let top: u16 = (if len >= 8 { len - 1 } else { 7 }) as u16;
    assert(top == sh + 7);
    assert((((((bits >> sh) & 0xFF) as u8) >> 7u8) & 1 == 1) == ((bits >> top) & 1 == 1)) by (bit_vector)
        requires
            sh <= 8,
            top == sh + 7,
    ;
}

/// The quantiser makes one note of a DAC value: two notes that both meet
/// [`is_note_for_dac`] for the same quantiser and byte are equal.
pub proof fn law_note_for_dac_unique(q: Quantizer, dac: u8, n1: int, n2: int)
    requires
        is_note_for_dac(q, dac, n1),
        is_note_for_dac(q, dac, n2),
    ensures
        n1 == n2,
{
    let pitch = crate::quantizer::dac_pitch(q.range@.start as int, q.range@.end as int, dac as int);
    let r1 = choose|r: int|
        crate::scale::quantize_result(q.scale.spec_intervals(), q.root as int, pitch, r) && n1
            == crate::quantizer::clamp_note(r, q.range@.start as int, q.range@.end as int);
    let r2 = choose|r: int|
        crate::scale::quantize_result(q.scale.spec_intervals(), q.root as int, pitch, r) && n2
            == crate::quantizer::clamp_note(r, q.range@.start as int, q.range@.end as int);
    law_quantize_result_unique(q.scale.spec_intervals(), q.root as int, pitch, r1, r2);
}

/// With the write knob fully locked (each step writes back the feedback
/// bit) and a loop length of 8 to 16, the notes repeat every `length`
/// steps: the note made after `k + length` steps equals the one made after
/// `k` steps.
pub proof fn law_locked_loop_notes_repeat(
    q: Quantizer,
    bits: u16,
    length: u16,
    k: nat,
    n1: int,
    n2: int,
)
    requires
        8 <= length <= 16,
        is_note_for_dac(q, dac_value(locked_after(bits, length, k), length as int), n1),
        is_note_for_dac(q, dac_value(locked_after(bits, length, k + length as nat), length as int), n2),
    ensures
        n1 == n2,
{
    law_locked_loop_dac_repeats(bits, length, k);
    law_note_for_dac_unique(q, dac_value(locked_after(bits, length, k), length as int), n1, n2);
}

} // verus!
