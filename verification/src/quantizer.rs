//! Scale quantisation for the Turing Machine.
//!
//! A [`Quantizer`] maps an 8-bit DAC value linearly into a pitch range
//! and snaps it to the nearest note of its [`Scale`] (relative to its
//! root). It also derives a velocity from the DAC value.

use vstd::prelude::*;

use crate::scale::{
    intervals_contain_degree, intervals_normalized, law_quantize_lands_in_scale, normalize_intervals,
    normalizes_intervals, note_in_scale, quantize_note, quantize_result,
};

verus! {

pub assume_specification<Idx>[ core::ops::RangeInclusive::<Idx>::start ](
    r: &core::ops::RangeInclusive<Idx>,
) -> (s: &Idx)
    ensures
        *s == r@.start,
;

pub assume_specification<Idx>[ core::ops::RangeInclusive::<Idx>::end ](
    r: &core::ops::RangeInclusive<Idx>,
) -> (e: &Idx)
    ensures
        *e == r@.end,
;

pub assume_specification<Idx: Clone>[ <core::ops::RangeInclusive<Idx> as Clone>::clone ](
    r: &core::ops::RangeInclusive<Idx>,
) -> core::ops::RangeInclusive<Idx>;

/// A musical scale: semitone intervals within one octave, sorted and
/// deduplicated, and a display name.
#[non_exhaustive]
#[derive(Debug, PartialEq, Eq)]
pub struct Scale {
    intervals: Vec<u8>,
    name: String,
}

impl Clone for Scale {
    fn clone(&self) -> (c: Self)
        ensures
            c.spec_intervals() == self.spec_intervals(),
            c.spec_name() == self.spec_name(),
    {
        proof {
            use_type_invariant(self);
        }
        let ivs = self.intervals.clone();
        assert(ivs@ =~= self.intervals@);
        Scale { intervals: ivs, name: self.name.clone() }
    }
}

impl Scale {
    /// The intervals of the scale.
    pub closed spec fn spec_intervals(&self) -> Seq<u8> {
        self.intervals@
    }

    /// The name of the scale.
    pub closed spec fn spec_name(&self) -> Seq<char> {
        self.name@
    }

    /// A scale always holds normalised, non-empty intervals.
    #[verifier::type_invariant]
    spec fn inv(&self) -> bool {
        intervals_normalized(self.intervals@) && self.intervals@.len() > 0
    }

    /// Creates a scale from semitone offsets (0--11): filtered to 0--11,
    /// sorted and deduplicated, with `[0]` if nothing is left.
    pub fn new(intervals: Vec<u8>, name: &str) -> (s: Self)
        ensures
            normalizes_intervals(intervals@, s.spec_intervals()),
            s.spec_name() == name@,
    {
        let ivs = normalize_intervals(&intervals);
        Scale { intervals: ivs, name: name.to_owned() }
    }

    /// The display name of this scale.
    pub fn name(&self) -> (n: &str)
        ensures
            n@ == self.spec_name(),
    {
        self.name.as_str()
    }

    /// The semitone intervals that define this scale.
    pub fn intervals(&self) -> (ivs: &[u8])
        ensures
            ivs@ == self.spec_intervals(),
    {
        self.intervals.as_slice()
    }

    /// Snaps `raw_note` to the nearest note of this scale relative to
    /// `root`, preferring the lower note on a tie, within 0--127.
    pub fn quantize(&self, raw_note: u8, root: u8) -> (r: u8)
        ensures
            quantize_result(self.spec_intervals(), root as int, raw_note as int, r as int),
    {
        quantize_note(&self.intervals, root, raw_note)
    }

    /// Whether `note` belongs to this scale relative to `root`.
    fn is_in_scale(&self, note: u8, root: u8) -> (b: bool)
        ensures
            b == crate::scale::note_in_scale(self.spec_intervals(), root as int, note as int),
    {
        intervals_contain_degree(&self.intervals, root, note)
    }

    fn builtin(ivs: Vec<u8>, name: &str) -> (s: Self)
        requires
            intervals_normalized(ivs@),
            ivs@.len() > 0,
        ensures
            s.spec_intervals() == ivs@,
            s.spec_name() == name@,
    {
        Scale { intervals: ivs, name: name.to_owned() }
    }

    /// Chromatic scale: all twelve semitones.
    pub fn chromatic() -> (s: Self)
        ensures
            s.spec_intervals() == seq![0u8, 1u8, 2u8, 3u8, 4u8, 5u8, 6u8, 7u8, 8u8, 9u8, 10u8, 11u8],
            s.spec_name() == "Chromatic"@,
    {
        let ivs: Vec<u8> = vec![0, 1, 2, 3, 4, 5, 6, 7, 8, 9, 10, 11];
        assert(ivs@ =~= seq![0u8, 1u8, 2u8, 3u8, 4u8, 5u8, 6u8, 7u8, 8u8, 9u8, 10u8, 11u8]);
        Self::builtin(ivs, "Chromatic")
    }

    /// Major (Ionian) scale.
    pub fn major() -> (s: Self)
        ensures
            s.spec_intervals() == seq![0u8, 2u8, 4u8, 5u8, 7u8, 9u8, 11u8],
            s.spec_name() == "Major"@,
    {
        let ivs: Vec<u8> = vec![0, 2, 4, 5, 7, 9, 11];
        assert(ivs@ =~= seq![0u8, 2u8, 4u8, 5u8, 7u8, 9u8, 11u8]);
        Self::builtin(ivs, "Major")
    }

    /// Natural minor (Aeolian) scale.
    pub fn natural_minor() -> (s: Self)
        ensures
            s.spec_intervals() == seq![0u8, 2u8, 3u8, 5u8, 7u8, 8u8, 10u8],
            s.spec_name() == "Natural Minor"@,
    {
        let ivs: Vec<u8> = vec![0, 2, 3, 5, 7, 8, 10];
        assert(ivs@ =~= seq![0u8, 2u8, 3u8, 5u8, 7u8, 8u8, 10u8]);
        Self::builtin(ivs, "Natural Minor")
    }

    /// Harmonic minor scale.
    pub fn harmonic_minor() -> (s: Self)
        ensures
            s.spec_intervals() == seq![0u8, 2u8, 3u8, 5u8, 7u8, 8u8, 11u8],
            s.spec_name() == "Harmonic Minor"@,
    {
        let ivs: Vec<u8> = vec![0, 2, 3, 5, 7, 8, 11];
        assert(ivs@ =~= seq![0u8, 2u8, 3u8, 5u8, 7u8, 8u8, 11u8]);
        Self::builtin(ivs, "Harmonic Minor")
    }

    /// Major pentatonic scale.
    pub fn pentatonic_major() -> (s: Self)
        ensures
            s.spec_intervals() == seq![0u8, 2u8, 4u8, 7u8, 9u8],
            s.spec_name() == "Pentatonic Major"@,
    {
        let ivs: Vec<u8> = vec![0, 2, 4, 7, 9];
        assert(ivs@ =~= seq![0u8, 2u8, 4u8, 7u8, 9u8]);
        Self::builtin(ivs, "Pentatonic Major")
    }

    /// Minor pentatonic scale.
    pub fn pentatonic_minor() -> (s: Self)
        ensures
            s.spec_intervals() == seq![0u8, 3u8, 5u8, 7u8, 10u8],
            s.spec_name() == "Pentatonic Minor"@,
    {
        let ivs: Vec<u8> = vec![0, 3, 5, 7, 10];
        assert(ivs@ =~= seq![0u8, 3u8, 5u8, 7u8, 10u8]);
        Self::builtin(ivs, "Pentatonic Minor")
    }

    /// Blues scale.
    pub fn blues() -> (s: Self)
        ensures
            s.spec_intervals() == seq![0u8, 3u8, 5u8, 6u8, 7u8, 10u8],
            s.spec_name() == "Blues"@,
    {
        let ivs: Vec<u8> = vec![0, 3, 5, 6, 7, 10];
        assert(ivs@ =~= seq![0u8, 3u8, 5u8, 6u8, 7u8, 10u8]);
        Self::builtin(ivs, "Blues")
    }

    /// Dorian mode.
    pub fn dorian() -> (s: Self)
        ensures
            s.spec_intervals() == seq![0u8, 2u8, 3u8, 5u8, 7u8, 9u8, 10u8],
            s.spec_name() == "Dorian"@,
    {
        let ivs: Vec<u8> = vec![0, 2, 3, 5, 7, 9, 10];
        assert(ivs@ =~= seq![0u8, 2u8, 3u8, 5u8, 7u8, 9u8, 10u8]);
        Self::builtin(ivs, "Dorian")
    }

    /// Phrygian mode.
    pub fn phrygian() -> (s: Self)
        ensures
            s.spec_intervals() == seq![0u8, 1u8, 3u8, 5u8, 7u8, 8u8, 10u8],
            s.spec_name() == "Phrygian"@,
    {
        let ivs: Vec<u8> = vec![0, 1, 3, 5, 7, 8, 10];
        assert(ivs@ =~= seq![0u8, 1u8, 3u8, 5u8, 7u8, 8u8, 10u8]);
        Self::builtin(ivs, "Phrygian")
    }

    /// Lydian mode.
    pub fn lydian() -> (s: Self)
        ensures
            s.spec_intervals() == seq![0u8, 2u8, 4u8, 6u8, 7u8, 9u8, 11u8],
            s.spec_name() == "Lydian"@,
    {
        let ivs: Vec<u8> = vec![0, 2, 4, 6, 7, 9, 11];
        assert(ivs@ =~= seq![0u8, 2u8, 4u8, 6u8, 7u8, 9u8, 11u8]);
        Self::builtin(ivs, "Lydian")
    }

    /// Mixolydian mode.
    pub fn mixolydian() -> (s: Self)
        ensures
            s.spec_intervals() == seq![0u8, 2u8, 4u8, 5u8, 7u8, 9u8, 10u8],
            s.spec_name() == "Mixolydian"@,
    {
        let ivs: Vec<u8> = vec![0, 2, 4, 5, 7, 9, 10];
        assert(ivs@ =~= seq![0u8, 2u8, 4u8, 5u8, 7u8, 9u8, 10u8]);
        Self::builtin(ivs, "Mixolydian")
    }

    /// Whole-tone scale.
    pub fn whole_tone() -> (s: Self)
        ensures
            s.spec_intervals() == seq![0u8, 2u8, 4u8, 6u8, 8u8, 10u8],
            s.spec_name() == "Whole Tone"@,
    {
        let ivs: Vec<u8> = vec![0, 2, 4, 6, 8, 10];
        assert(ivs@ =~= seq![0u8, 2u8, 4u8, 6u8, 8u8, 10u8]);
        Self::builtin(ivs, "Whole Tone")
    }

    /// Diminished (octatonic) scale.
    pub fn diminished() -> (s: Self)
        ensures
            s.spec_intervals() == seq![0u8, 2u8, 3u8, 5u8, 6u8, 8u8, 9u8, 11u8],
            s.spec_name() == "Diminished"@,
    {
        let ivs: Vec<u8> = vec![0, 2, 3, 5, 6, 8, 9, 11];
        assert(ivs@ =~= seq![0u8, 2u8, 3u8, 5u8, 6u8, 8u8, 9u8, 11u8]);
        Self::builtin(ivs, "Diminished")
    }

    /// Augmented scale.
    pub fn augmented() -> (s: Self)
        ensures
            s.spec_intervals() == seq![0u8, 3u8, 4u8, 7u8, 8u8, 11u8],
            s.spec_name() == "Augmented"@,
    {
        let ivs: Vec<u8> = vec![0, 3, 4, 7, 8, 11];
        assert(ivs@ =~= seq![0u8, 3u8, 4u8, 7u8, 8u8, 11u8]);
        Self::builtin(ivs, "Augmented")
    }
}

/// The pitch before quantisation: `dac` (0--255) mapped linearly onto
/// `lo..=hi` with rounding, capped at 127.
pub open spec fn dac_pitch(lo: int, hi: int, dac: int) -> int {
    let span = if hi >= lo { hi - lo } else { 0 };
    let raw = lo + (dac * span + 127) / 255;
    if raw > 127 { 127 } else { raw }
}

/// A quantised note clamped to `lo..=hi` and raised to at least 1.
pub open spec fn clamp_note(q: int, lo: int, hi: int) -> int {
    let c = if q < lo { lo } else if q > hi { hi } else { q };
    if c < 1 { 1 } else { c }
}

/// The velocity for a DAC value: its lower 7 bits, at least 1.
pub open spec fn dac_velocity(dac: u8) -> u8 {
    if dac & 0x7F == 0 { 1 } else { dac & 0x7F }
}

/// `n` is the note the quantiser `q` makes of the DAC value `dac`: the
/// pitch `dac` maps to in `q`'s range, quantised to its scale and root,
/// clamped to the range and raised to at least 1. By
/// [`law_quantize_result_unique`](crate::scale::law_quantize_result_unique)
/// at most one `n` qualifies.
pub open spec fn is_note_for_dac(q: Quantizer, dac: u8, n: int) -> bool {
    exists|r: int|
        quantize_result(
            q.scale.spec_intervals(),
            q.root as int,
            dac_pitch(q.range@.start as int, q.range@.end as int, dac as int),
            r,
        ) && n == clamp_note(r, q.range@.start as int, q.range@.end as int)
}

/// Maps raw 8-bit DAC values to scale-quantised MIDI notes and
/// velocities.
#[derive(Debug, Clone, PartialEq)]
pub struct Quantizer {
    /// The active scale.
    pub scale: Scale,
    /// The root note (0 = C, ..., 11 = B).
    pub root: u8,
    /// The MIDI note output range.
    pub range: core::ops::RangeInclusive<u8>,
}

impl Quantizer {
    /// Creates a quantiser with the given scale and root (clamped to
    /// 0--11) and the output range 36..=84 (C2--C6).
    pub fn new(scale: Scale, root: u8) -> (q: Self)
        ensures
            q.scale == scale,
            q.root == if root > 11 { 11 } else { root },
            q.range@.start == 36,
            q.range@.end == 84,
            !q.range@.exhausted,
    {
        Quantizer { scale, root: if root > 11 { 11 } else { root }, range: 36..=84 }
    }

    /// Replaces the active scale.
    pub fn set_scale(&mut self, scale: Scale)
        ensures
            final(self).scale == scale,
            final(self).root == old(self).root,
            final(self).range == old(self).range,
        no_unwind
    {
        self.scale = scale;
    }

    /// Sets the root note, clamped to 0--11.
    pub fn set_root(&mut self, root: u8)
        ensures
            final(self).root == if root > 11 { 11 } else { root },
            final(self).scale == old(self).scale,
            final(self).range == old(self).range,
        no_unwind
    {
        self.root = if root > 11 { 11 } else { root };
    }

    /// Sets the MIDI note output range.
    pub fn set_range(&mut self, range: core::ops::RangeInclusive<u8>)
        ensures
            final(self).range == range,
            final(self).scale == old(self).scale,
            final(self).root == old(self).root,
        no_unwind
    {
        self.range = range;
    }

    /// Converts a DAC value to a quantised MIDI note: maps it linearly
    /// into the range, quantises it, clamps it to the range, and raises it
    /// to at least 1 (note 0 is never produced).
    pub fn note_from_dac(&self, dac: u8) -> (n: u8)
        requires
            self.range@.start <= self.range@.end,
        ensures
            is_note_for_dac(*self, dac, n as int),
            self.range@.start < n < self.range@.end && 1 < n ==> note_in_scale(
                self.scale.spec_intervals(),
                self.root as int,
                n as int,
            ),
    {
        let start: u8 = *self.range.start();
        let end: u8 = *self.range.end();
        let lo = start as u16;
        let hi = end as u16;
        let span: u16 = if hi >= lo {
            hi - lo
        } else {
            0
        };
        assert(dac as u16 * span <= 255 * 255) by (nonlinear_arith)
            requires
                dac <= 255,
                span <= 255,
        ;
        let raw: u16 = lo + (dac as u16 * span + 127) / 255;
        let raw: u8 = if raw > 127 {
            127
        } else {
            raw as u8
        };
        assert(raw as int == dac_pitch(self.range@.start as int, self.range@.end as int, dac as int));
        let q = self.scale.quantize(raw, self.root);
        let c = if q < start {
            start
        } else if q > end {
            end
        } else {
            q
        };
        let n = if c < 1 {
            1
        } else {
            c
        };
        assert(n == clamp_note(q as int, start as int, end as int));
        proof {
            use_type_invariant(&self.scale);
            if self.range@.start < n < self.range@.end && 1 < n {
                law_inner_notes_are_scale_notes(*self, dac, n as int);
            }
        }
        n
    }

    /// Converts a DAC value to a MIDI velocity (1--127): its lower 7 bits,
    /// at least 1.
    pub fn velocity_from_dac(&self, dac: u8) -> (v: u8)
        ensures
            v == dac_velocity(dac),
            1 <= v <= 127,
    {
        let low = dac & 0x7F;
        assert(dac & 0x7F <= 127) by (bit_vector);
        if low < 1 {
            1
        } else {
            low
        }
    }
}

/// The notes of a quantiser are notes of its scale on its own root: a note
/// made of a DAC value that lies strictly inside the range (and above 1),
/// so that no clamping moved it, has a degree `(note - root) mod 12` among
/// the scale's intervals.
pub proof fn law_inner_notes_are_scale_notes(q: Quantizer, dac: u8, n: int)
    requires
        q.scale.spec_intervals().len() > 0,
        forall|i: int| 0 <= i < q.scale.spec_intervals().len() ==> #[trigger] q.scale.spec_intervals()[i] < 12,
        is_note_for_dac(q, dac, n),
        q.range@.start < n < q.range@.end,
        1 < n,
    ensures
        note_in_scale(q.scale.spec_intervals(), q.root as int, n),
{
    let lo = q.range@.start as int;
    let hi = q.range@.end as int;
    let pitch = dac_pitch(lo, hi, dac as int);
    let r = choose|r: int|
        quantize_result(q.scale.spec_intervals(), q.root as int, pitch, r) && n == clamp_note(r, lo, hi);
    let span = if hi >= lo { hi - lo } else { 0 };
    assert((dac as int * span + 127) / 255 >= 0) by (nonlinear_arith)
        requires
            0 <= dac,
            0 <= span,
    ;
    assert(0 <= pitch <= 127);
    assert(n == r);
    law_quantize_lands_in_scale(q.scale.spec_intervals(), q.root as int, pitch, r);
}

} // verus!
