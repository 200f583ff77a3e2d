//! Musical scales and quantisation.
//!
//! [`Scale`] is a root note plus a set of semitone intervals within one
//! octave. [`Scale::quantize`] snaps a MIDI note to the nearest note of
//! the scale, preferring the lower note on a tie.
//!
//! The spec functions here ([`note_in_scale`], [`quantize_result`], ...)
//! are shared with the Turing Machine quantiser, which stores its root
//! separately from its scale.

use vstd::prelude::*;

verus! {

// ── Shared specifications ─────────────────────────────────────────

/// The scale degree of `note` relative to `root`: `(note - root) mod 12`.
pub open spec fn degree_of(note: int, root: int) -> int {
    (note - root) % 12
}

/// `note` belongs to the scale with the given intervals and root.
pub open spec fn note_in_scale(intervals: Seq<u8>, root: int, note: int) -> bool {
    intervals.contains(degree_of(note, root) as u8)
}

/// The notes a quantised result may be: the MIDI range 0--127.
pub open spec fn quantize_candidate(raw: int, n: int) -> bool {
    0 <= n <= 127
}

/// `raw` clamped to the MIDI range (raw notes are never negative).
pub open spec fn midi_clamp(raw: int) -> int {
    if raw > 127 { 127 } else { raw }
}

/// Distance between two notes.
pub open spec fn note_distance(a: int, b: int) -> int {
    if a <= b { b - a } else { a - b }
}

/// Some candidate note of `raw` belongs to the scale.
pub open spec fn has_scale_candidate(intervals: Seq<u8>, root: int, raw: int) -> bool {
    exists|n: int| #[trigger] quantize_candidate(raw, n) && note_in_scale(intervals, root, n)
}

/// `r` is the in-scale candidate nearest to `raw`, the lower one on a tie.
pub open spec fn is_nearest_in_scale(intervals: Seq<u8>, root: int, raw: int, r: int) -> bool {
    &&& quantize_candidate(raw, r)
    &&& note_in_scale(intervals, root, r)
    &&& forall|n: int|
        #![trigger quantize_candidate(raw, n)]
        quantize_candidate(raw, n) && note_in_scale(intervals, root, n) ==> note_distance(r, raw)
            < note_distance(n, raw) || (note_distance(r, raw) == note_distance(n, raw) && r <= n)
}

/// The result of quantising `raw`: the in-scale note of 0--127 nearest
/// to it (lower on a tie), or `raw` clamped to 0--127 when no note of
/// 0--127 is in the scale.
pub open spec fn quantize_result(intervals: Seq<u8>, root: int, raw: int, r: int) -> bool {
    &&& has_scale_candidate(intervals, root, raw) ==> is_nearest_in_scale(intervals, root, raw, r)
    &&& !has_scale_candidate(intervals, root, raw) ==> r == midi_clamp(raw)
}

/// Intervals sorted strictly ascending, each within one octave (0--11).
pub open spec fn intervals_normalized(ivs: Seq<u8>) -> bool {
    &&& forall|i: int| 0 <= i < ivs.len() ==> #[trigger] ivs[i] < 12
    &&& forall|i: int, j: int| 0 <= i < j < ivs.len() ==> ivs[i] < ivs[j]
}

/// The intervals kept from `input`: those below 12, or the root alone when
/// none is.
pub open spec fn kept_interval(input: Seq<u8>, x: u8) -> bool {
    if exists|k: int| 0 <= k < input.len() && #[trigger] input[k] < 12 {
        x < 12 && input.contains(x)
    } else {
        x == 0
    }
}

/// `out` is the normalised form of `input`: sorted, deduplicated, filtered
/// to 0--11, and `[0]` if nothing is left.
pub open spec fn normalizes_intervals(input: Seq<u8>, out: Seq<u8>) -> bool {
    &&& intervals_normalized(out)
    &&& out.len() > 0
    &&& forall|x: u8| #[trigger] out.contains(x) <==> kept_interval(input, x)
}

// ── Shared executable helpers ─────────────────────────────────────

/// Sorts, deduplicates and filters a list of intervals to 0--11, falling
/// back to `[0]` when nothing is left.
pub(crate) fn normalize_intervals(input: &Vec<u8>) -> (out: Vec<u8>)
    ensures
        normalizes_intervals(input@, out@),
{
    let mut present: Vec<bool> = vec![false; 12];
    let mut any = false;
    let mut k: usize = 0;
    while k < input.len()
        invariant
            k <= input.len(),
            present@.len() == 12,
            forall|d: int|
                0 <= d < 12 ==> (#[trigger] present@[d] <==> exists|j: int|
                    0 <= j < k && input@[j] == d),
            any <==> exists|j: int| 0 <= j < k && #[trigger] input@[j] < 12,
        decreases input.len() - k,
    {
        let x = input[k];
        if x < 12 {
            present.set(x as usize, true);
            any = true;
        }
        proof {
            assert forall|d: int| 0 <= d < 12 implies (#[trigger] present@[d] <==> exists|j: int|
                0 <= j < k + 1 && input@[j] == d) by {
                if present@[d] && !(exists|j: int| 0 <= j < k && input@[j] == d) {
                    assert(input@[k as int] == d);
                }
            }
        }
        k += 1;
    }
    let mut out: Vec<u8> = Vec::new();
    let mut d: u8 = 0;
    while d < 12
        invariant
            d <= 12,
            present@.len() == 12,
            forall|e: int|
                0 <= e < 12 ==> (#[trigger] present@[e] <==> exists|j: int|
                    0 <= j < input.len() && input@[j] == e),
            intervals_normalized(out@),
            forall|i: int| 0 <= i < out@.len() ==> #[trigger] out@[i] < d,
            forall|x: u8| #[trigger] out@.contains(x) <==> (x < d && present@[x as int]),
        decreases 12 - d,
    {
        if present[d as usize] {
            let ghost prev = out@;
            out.push(d);
            proof {
                assert forall|x: u8| #[trigger] out@.contains(x) <==> (x < d + 1 && present@[x as int]) by {
                    if out@.contains(x) && x != d {
                        let i = choose|i: int| 0 <= i < out@.len() && out@[i] == x;
                        assert(prev.contains(x)) by {
                            assert(prev[i] == x);
                        }
                    }
                    if x < d + 1 && present@[x as int] && x != d {
                        assert(prev.contains(x));
                        let i = choose|i: int| 0 <= i < prev.len() && prev[i] == x;
                        assert(out@[i] == x);
                    }
                    if x == d {
                        assert(out@[out@.len() - 1] == x);
                    }
                }
            }
        } else {
            proof {
                assert forall|x: u8| #[trigger] out@.contains(x) <==> (x < d + 1 && present@[x as int]) by {
                    if out@.contains(x) {
                        let i = choose|i: int| 0 <= i < out@.len() && out@[i] == x;
                        assert(out@[i] < d);
                    }
                }
            }
        }
        d += 1;
    }
    if !any {
        proof {
            if out@.len() > 0 {
                let x = out@[0];
                assert(out@.contains(x));
                let j = choose|j: int| 0 <= j < input.len() && input@[j] == x;
                assert(input@[j] < 12);
            }
        }
        out.push(0);
        proof {
            assert(out@ =~= seq![0u8]);
            assert forall|x: u8| #[trigger] out@.contains(x) <==> kept_interval(input@, x) by {
                if x == 0 {
                    assert(out@[0] == 0);
                }
            }
        }
    } else {
        proof {
            let j0 = choose|j: int| 0 <= j < input@.len() && #[trigger] input@[j] < 12;
            assert(present@[input@[j0] as int]);
            assert(out@.contains(input@[j0]));
            assert forall|x: u8| #[trigger] out@.contains(x) <==> kept_interval(input@, x) by {
                if out@.contains(x) {
                    assert(present@[x as int]);
                    let j = choose|j: int| 0 <= j < input.len() && input@[j] == x;
                    assert(input@[j] == x);
                }
                if kept_interval(input@, x) {
                    let j = choose|j: int| 0 <= j < input@.len() && input@[j] == x;
                    assert(present@[x as int]);
                }
            }
        }
    }
    out
}

/// Whether `note` belongs to the scale with the given intervals and root.
pub(crate) fn intervals_contain_degree(intervals: &Vec<u8>, root: u8, note: u8) -> (b: bool)
    ensures
        b == note_in_scale(intervals@, root as int, note as int),
{
    let diff: i16 = note as i16 - root as i16;
    let m: i16 = diff % 12;
    let degree: u8 = if m < 0 {
        (m + 12) as u8
    } else {
        m as u8
    };
    assert(degree as int == degree_of(note as int, root as int)) by {
        assert(diff == note - root);
    }
    let mut i: usize = 0;
    while i < intervals.len()
        invariant
            i <= intervals.len(),
            degree as int == degree_of(note as int, root as int),
            forall|j: int| 0 <= j < i ==> intervals@[j] != degree,
        decreases intervals.len() - i,
    {
        if intervals[i] == degree {
            assert(intervals@[i as int] == degree);
            return true;
        }
        i += 1;
    }
    false
}

/// Snaps `raw_note` to the nearest note of 0--127 in the scale with the
/// given intervals and root, searching outward one semitone at a time and
/// checking below before above; `raw_note` clamped to 0--127 when no note
/// of 0--127 is in the scale.
pub(crate) fn quantize_note(intervals: &Vec<u8>, root: u8, raw_note: u8) -> (r: u8)
    ensures
        quantize_result(intervals@, root as int, raw_note as int, r as int),
{
    let ghost ivs = intervals@;
    let ghost raw = raw_note as int;
    let mut distance: i16 = 0;
    while distance <= 255
        invariant
            0 <= distance <= 256,
            raw == raw_note as int,
            ivs == intervals@,
            forall|n: int|
                #![trigger quantize_candidate(raw, n)]
                quantize_candidate(raw, n) && note_in_scale(ivs, root as int, n) ==> note_distance(
                    n,
                    raw,
                ) >= distance,
        decreases 256 - distance,
    {
        let below: i16 = raw_note as i16 - distance;
        let above: i16 = raw_note as i16 + distance;
        if 0 <= below && below <= 127 && intervals_contain_degree(intervals, root, below as u8) {
            assert(quantize_candidate(raw, below as int));
            return below as u8;
        }
        if above <= 127 && intervals_contain_degree(intervals, root, above as u8) {
            assert(quantize_candidate(raw, above as int));
            assert forall|n: int| #[trigger]
                quantize_candidate(raw, n) && note_in_scale(ivs, root as int, n) implies
                note_distance(above as int, raw) < note_distance(n, raw) || (note_distance(
                above as int,
                raw,
            ) == note_distance(n, raw) && above <= n) by {
                if note_distance(n, raw) == distance as int && n < raw {
                    assert(n == below);
                }
            }
            return above as u8;
        }
        proof {
            assert forall|n: int| #[trigger]
                quantize_candidate(raw, n) && note_in_scale(ivs, root as int, n) implies note_distance(
                n,
                raw,
            ) >= distance + 1 by {
                if note_distance(n, raw) == distance as int {
                    if n <= raw {
                        assert(n == below);
                    } else {
                        assert(n == above);
                    }
                }
            }
        }
        distance += 1;
    }
    assert(!has_scale_candidate(ivs, root as int, raw)) by {
        if has_scale_candidate(ivs, root as int, raw) {
            let n = choose|n: int| #[trigger]
                quantize_candidate(raw, n) && note_in_scale(ivs, root as int, n);
            assert(note_distance(n, raw) >= 256);
        }
    }
    if raw_note > 127 {
        127
    } else {
        raw_note
    }
}


// ── Laws ──────────────────────────────────────────────────────────

/// Quantising is a function: for a given scale, root and input note, at
/// most one note meets the quantiser's contract.
pub proof fn law_quantize_result_unique(intervals: Seq<u8>, root: int, raw: int, r1: int, r2: int)
    requires
        quantize_result(intervals, root, raw, r1),
        quantize_result(intervals, root, raw, r2),
    ensures
        r1 == r2,
{
    if has_scale_candidate(intervals, root, raw) {
        assert(quantize_candidate(raw, r2));
        assert(quantize_candidate(raw, r1));
    }
}

/// Whatever the scale, the quantised note lies in the MIDI range 0--127.
pub proof fn law_quantize_in_midi_range(intervals: Seq<u8>, root: int, raw: int, r: int)
    requires
        0 <= raw,
        quantize_result(intervals, root, raw, r),
    ensures
        0 <= r <= 127,
{
}

/// A MIDI note (0--127) that is already in the scale quantises to itself.
pub proof fn law_quantize_keeps_scale_notes(intervals: Seq<u8>, root: int, raw: int, r: int)
    requires
        0 <= raw <= 127,
        note_in_scale(intervals, root, raw),
        quantize_result(intervals, root, raw, r),
    ensures
        r == raw,
{
    assert(quantize_candidate(raw, raw));
    assert(has_scale_candidate(intervals, root, raw));
    assert(quantize_candidate(raw, r));
}

/// For any scale with at least one interval in 0--11, quantising a note
/// (0--255) gives a note of the scale in 0--127; from a MIDI note
/// (0--127) it is at most 11 semitones away.
pub proof fn law_quantize_lands_in_scale(intervals: Seq<u8>, root: int, raw: int, r: int)
    requires
        intervals.len() > 0,
        forall|i: int| 0 <= i < intervals.len() ==> #[trigger] intervals[i] < 12,
        0 <= raw <= 255,
        quantize_result(intervals, root, raw, r),
    ensures
        note_in_scale(intervals, root, r),
        0 <= r <= 127,
        raw <= 127 ==> note_distance(r, raw) <= 11,
{
    let base = midi_clamp(raw);
    let i0 = intervals[0];
    let d = degree_of(base, root);
    let k = (d - i0) % 12;
    let n = base - k;
    assert(degree_of(n, root) == i0) by {
        assert((base - k - root) % 12 == ((base - root) % 12 - k) % 12) by (nonlinear_arith);
        assert(((base - root) % 12 - k) % 12 == (d - ((d - i0) % 12)) % 12);
        assert((d - ((d - i0) % 12)) % 12 == i0) by (nonlinear_arith)
            requires
                0 <= i0 < 12,
                0 <= d < 12,
        ;
    }
    assert(intervals.contains(i0));
    let witness = if n >= 0 { n } else { n + 12 };
    assert(degree_of(witness, root) == i0) by {
        assert((n + 12 - root) % 12 == (n - root) % 12) by (nonlinear_arith);
    }
    assert(quantize_candidate(raw, witness));
    assert(note_in_scale(intervals, root, witness));
    assert(has_scale_candidate(intervals, root, raw));
    assert(note_distance(r, raw) <= note_distance(witness, raw));
}

/// Quantising twice gives the same note as quantising once, for any
/// scale with an interval in 0--11 and any note (0--255).
pub proof fn law_quantize_idempotent(intervals: Seq<u8>, root: int, raw: int, r: int, r2: int)
    requires
        intervals.len() > 0,
        forall|i: int| 0 <= i < intervals.len() ==> #[trigger] intervals[i] < 12,
        0 <= raw <= 255,
        quantize_result(intervals, root, raw, r),
        quantize_result(intervals, root, r, r2),
    ensures
        r2 == r,
{
    law_quantize_lands_in_scale(intervals, root, raw, r);
    law_quantize_keeps_scale_notes(intervals, root, r, r2);
}

// ── Scale ─────────────────────────────────────────────────────────

/// A musical scale: a root note (0 = C, ..., 11 = B) and semitone
/// intervals within one octave, sorted and deduplicated.
#[derive(Debug, Clone, PartialEq, Eq)]
pub struct Scale {
    /// Root note of the scale (0 = C, 1 = C#, ..., 11 = B).
    pub root: u8,
    /// Semitone intervals within one octave, sorted and deduplicated.
    pub intervals: Vec<u8>,
    /// Optional display name (e.g. "Major", "Dorian").
    pub name: Option<String>,
}

impl Scale {
    /// A scale as its constructors leave it: root 0--11 and normalised,
    /// non-empty intervals.
    pub open spec fn well_formed(&self) -> bool {
        &&& self.root <= 11
        &&& intervals_normalized(self.intervals@)
        &&& self.intervals@.len() > 0
    }

    /// Creates a scale from semitone offsets, a root and an optional name.
    ///
    /// The intervals are filtered to 0--11, sorted and deduplicated; if
    /// nothing is left, the root interval `0` is used. Roots above 11 are
    /// clamped to 11.
    pub fn new(intervals: Vec<u8>, root: u8, name: Option<String>) -> (s: Self)
        ensures
            s.root == if root > 11 { 11 } else { root },
            normalizes_intervals(intervals@, s.intervals@),
            s.name == name,
            s.well_formed(),
    {
        let root = if root > 11 { 11 } else { root };
        let ivs = normalize_intervals(&intervals);
        Scale { root, intervals: ivs, name }
    }

    /// Returns the display name of this scale, if any.
    pub fn name(&self) -> (n: Option<&str>)
        ensures
            n is Some <==> self.name is Some,
            n is Some ==> n.unwrap()@ == self.name.unwrap()@,
    {
        match &self.name {
            Some(s) => Some(s.as_str()),
            None => None,
        }
    }

    /// Returns the semitone intervals that define this scale.
    pub fn intervals(&self) -> (ivs: &[u8])
        ensures
            ivs@ == self.intervals@,
    {
        self.intervals.as_slice()
    }

    /// Returns the root note (0--11).
    pub fn root(&self) -> (r: u8)
        ensures
            r == self.root,
    {
        self.root
    }

    /// Snaps `raw_note` to the nearest note of this scale within the MIDI
    /// range 0--127, preferring the lower note on a tie.
    ///
    /// Notes of 0--127 in the scale are returned unchanged; the result is
    /// always in 0--127 (when no note of 0--127 is in the scale, `raw_note`
    /// clamped to 0--127).
    pub fn quantize(&self, raw_note: u8) -> (r: u8)
        ensures
            quantize_result(self.intervals@, self.root as int, raw_note as int, r as int),
    {
        quantize_note(&self.intervals, self.root, raw_note)
    }

    /// Returns `true` if `note` belongs to this scale.
    pub fn is_in_scale(&self, note: u8) -> (b: bool)
        ensures
            b == note_in_scale(self.intervals@, self.root as int, note as int),
    {
        intervals_contain_degree(&self.intervals, self.root, note)
    }

    /// The scale a built-in constructor returns: the given intervals, the
    /// clamped root, and the given name.
    pub open spec fn is_builtin(&self, root: u8, ivs: Seq<u8>, name: Seq<char>) -> bool {
        &&& self.root == if root > 11 { 11 } else { root }
        &&& self.intervals@ == ivs
        &&& self.name is Some
        &&& self.name.unwrap()@ == name
        &&& self.well_formed()
    }

    fn builtin(ivs: Vec<u8>, root: u8, name: &str) -> (s: Self)
        requires
            intervals_normalized(ivs@),
            ivs@.len() > 0,
        ensures
            s.is_builtin(root, ivs@, name@),
    {
        let root = if root > 11 { 11 } else { root };
        Scale { root, intervals: ivs, name: Some(name.to_owned()) }
    }

    /// Chromatic scale: all twelve semitones.
    pub fn chromatic(root: u8) -> (s: Self)
        ensures
            s.is_builtin(root, seq![0u8, 1u8, 2u8, 3u8, 4u8, 5u8, 6u8, 7u8, 8u8, 9u8, 10u8, 11u8], "Chromatic"@),
    {
        let ivs: Vec<u8> = vec![0, 1, 2, 3, 4, 5, 6, 7, 8, 9, 10, 11];
        assert(ivs@ =~= seq![0u8, 1u8, 2u8, 3u8, 4u8, 5u8, 6u8, 7u8, 8u8, 9u8, 10u8, 11u8]);
        Self::builtin(ivs, root, "Chromatic")
    }

    /// Major (Ionian) scale.
    pub fn major(root: u8) -> (s: Self)
        ensures
            s.is_builtin(root, seq![0u8, 2u8, 4u8, 5u8, 7u8, 9u8, 11u8], "Major"@),
    {
        let ivs: Vec<u8> = vec![0, 2, 4, 5, 7, 9, 11];
        assert(ivs@ =~= seq![0u8, 2u8, 4u8, 5u8, 7u8, 9u8, 11u8]);
        Self::builtin(ivs, root, "Major")
    }

    /// Natural minor (Aeolian) scale.
    pub fn natural_minor(root: u8) -> (s: Self)
        ensures
            s.is_builtin(root, seq![0u8, 2u8, 3u8, 5u8, 7u8, 8u8, 10u8], "Natural Minor"@),
    {
        let ivs: Vec<u8> = vec![0, 2, 3, 5, 7, 8, 10];
        assert(ivs@ =~= seq![0u8, 2u8, 3u8, 5u8, 7u8, 8u8, 10u8]);
        Self::builtin(ivs, root, "Natural Minor")
    }

    /// Harmonic minor scale.
    pub fn harmonic_minor(root: u8) -> (s: Self)
        ensures
            s.is_builtin(root, seq![0u8, 2u8, 3u8, 5u8, 7u8, 8u8, 11u8], "Harmonic Minor"@),
    {
        let ivs: Vec<u8> = vec![0, 2, 3, 5, 7, 8, 11];
        assert(ivs@ =~= seq![0u8, 2u8, 3u8, 5u8, 7u8, 8u8, 11u8]);
        Self::builtin(ivs, root, "Harmonic Minor")
    }

    /// Major pentatonic scale.
    pub fn pentatonic_major(root: u8) -> (s: Self)
        ensures
            s.is_builtin(root, seq![0u8, 2u8, 4u8, 7u8, 9u8], "Pentatonic Major"@),
    {
        let ivs: Vec<u8> = vec![0, 2, 4, 7, 9];
        assert(ivs@ =~= seq![0u8, 2u8, 4u8, 7u8, 9u8]);
        Self::builtin(ivs, root, "Pentatonic Major")
    }

    /// Minor pentatonic scale.
    pub fn pentatonic_minor(root: u8) -> (s: Self)
        ensures
            s.is_builtin(root, seq![0u8, 3u8, 5u8, 7u8, 10u8], "Pentatonic Minor"@),
    {
        let ivs: Vec<u8> = vec![0, 3, 5, 7, 10];
        assert(ivs@ =~= seq![0u8, 3u8, 5u8, 7u8, 10u8]);
        Self::builtin(ivs, root, "Pentatonic Minor")
    }

    /// Blues scale.
    pub fn blues(root: u8) -> (s: Self)
        ensures
            s.is_builtin(root, seq![0u8, 3u8, 5u8, 6u8, 7u8, 10u8], "Blues"@),
    {
        let ivs: Vec<u8> = vec![0, 3, 5, 6, 7, 10];
        assert(ivs@ =~= seq![0u8, 3u8, 5u8, 6u8, 7u8, 10u8]);
        Self::builtin(ivs, root, "Blues")
    }

    /// Dorian mode.
    pub fn dorian(root: u8) -> (s: Self)
        ensures
            s.is_builtin(root, seq![0u8, 2u8, 3u8, 5u8, 7u8, 9u8, 10u8], "Dorian"@),
    {
        let ivs: Vec<u8> = vec![0, 2, 3, 5, 7, 9, 10];
        assert(ivs@ =~= seq![0u8, 2u8, 3u8, 5u8, 7u8, 9u8, 10u8]);
        Self::builtin(ivs, root, "Dorian")
    }

    /// Phrygian mode.
    pub fn phrygian(root: u8) -> (s: Self)
        ensures
            s.is_builtin(root, seq![0u8, 1u8, 3u8, 5u8, 7u8, 8u8, 10u8], "Phrygian"@),
    {
        let ivs: Vec<u8> = vec![0, 1, 3, 5, 7, 8, 10];
        assert(ivs@ =~= seq![0u8, 1u8, 3u8, 5u8, 7u8, 8u8, 10u8]);
        Self::builtin(ivs, root, "Phrygian")
    }

    /// Lydian mode.
    pub fn lydian(root: u8) -> (s: Self)
        ensures
            s.is_builtin(root, seq![0u8, 2u8, 4u8, 6u8, 7u8, 9u8, 11u8], "Lydian"@),
    {
        let ivs: Vec<u8> = vec![0, 2, 4, 6, 7, 9, 11];
        assert(ivs@ =~= seq![0u8, 2u8, 4u8, 6u8, 7u8, 9u8, 11u8]);
        Self::builtin(ivs, root, "Lydian")
    }

    /// Mixolydian mode.
    pub fn mixolydian(root: u8) -> (s: Self)
        ensures
            s.is_builtin(root, seq![0u8, 2u8, 4u8, 5u8, 7u8, 9u8, 10u8], "Mixolydian"@),
    {
        let ivs: Vec<u8> = vec![0, 2, 4, 5, 7, 9, 10];
        assert(ivs@ =~= seq![0u8, 2u8, 4u8, 5u8, 7u8, 9u8, 10u8]);
        Self::builtin(ivs, root, "Mixolydian")
    }

    /// Whole-tone scale.
    pub fn whole_tone(root: u8) -> (s: Self)
        ensures
            s.is_builtin(root, seq![0u8, 2u8, 4u8, 6u8, 8u8, 10u8], "Whole Tone"@),
    {
        let ivs: Vec<u8> = vec![0, 2, 4, 6, 8, 10];
        assert(ivs@ =~= seq![0u8, 2u8, 4u8, 6u8, 8u8, 10u8]);
        Self::builtin(ivs, root, "Whole Tone")
    }

    /// Diminished (octatonic) scale.
    pub fn diminished(root: u8) -> (s: Self)
        ensures
            s.is_builtin(root, seq![0u8, 2u8, 3u8, 5u8, 6u8, 8u8, 9u8, 11u8], "Diminished"@),
    {
        let ivs: Vec<u8> = vec![0, 2, 3, 5, 6, 8, 9, 11];
        assert(ivs@ =~= seq![0u8, 2u8, 3u8, 5u8, 6u8, 8u8, 9u8, 11u8]);
        Self::builtin(ivs, root, "Diminished")
    }

    /// Augmented scale.
    pub fn augmented(root: u8) -> (s: Self)
        ensures
            s.is_builtin(root, seq![0u8, 3u8, 4u8, 7u8, 8u8, 11u8], "Augmented"@),
    {
        let ivs: Vec<u8> = vec![0, 3, 4, 7, 8, 11];
        assert(ivs@ =~= seq![0u8, 3u8, 4u8, 7u8, 8u8, 11u8]);
        Self::builtin(ivs, root, "Augmented")
    }
}

} // verus!
