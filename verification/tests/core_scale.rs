use oxurack::scale::Scale;

#[test]
fn test_new_sorts_and_deduplicates() {
    assert_eq!(Scale::new(vec![7, 0, 4, 0, 4], 0, None).intervals(), &[0, 4, 7]);
}

#[test]
fn test_new_filters_out_of_range() {
    assert_eq!(Scale::new(vec![0, 12, 15, 5, 255], 0, None).intervals(), &[0, 5]);
}

#[test]
fn test_new_empty_intervals_defaults_to_root() {
    assert_eq!(Scale::new(vec![], 0, None).intervals(), &[0]);
}

#[test]
fn test_new_all_out_of_range_defaults_to_root() {
    assert_eq!(Scale::new(vec![12, 13, 200], 0, None).intervals(), &[0]);
}

#[test]
fn test_root_clamped_to_11() {
    assert_eq!(Scale::new(vec![0], 15, None).root(), 11);
}

#[test]
fn test_root_within_range() {
    assert_eq!(Scale::new(vec![0], 5, None).root(), 5);
}

#[test]
fn test_name_some() {
    assert_eq!(Scale::new(vec![0], 0, Some("Test".to_string())).name(), Some("Test"));
}

#[test]
fn test_name_none() {
    assert_eq!(Scale::new(vec![0], 0, None).name(), None);
}

#[test]
fn test_chromatic_intervals() {
    let scale = Scale::chromatic(0);
    assert_eq!(scale.intervals(), &[0, 1, 2, 3, 4, 5, 6, 7, 8, 9, 10, 11]);
    assert_eq!(scale.name(), Some("Chromatic"));
}

#[test]
fn test_major_intervals() {
    let scale = Scale::major(0);
    assert_eq!(scale.intervals(), &[0, 2, 4, 5, 7, 9, 11]);
    assert_eq!(scale.name(), Some("Major"));
}

#[test]
fn scale_test_natural_minor_intervals() {
    let scale = Scale::natural_minor(0);
    assert_eq!(scale.intervals(), &[0, 2, 3, 5, 7, 8, 10]);
    assert_eq!(scale.name(), Some("Natural Minor"));
}

#[test]
fn scale_test_harmonic_minor_intervals() {
    assert_eq!(Scale::harmonic_minor(0).intervals(), &[0, 2, 3, 5, 7, 8, 11]);
}

#[test]
fn test_pentatonic_major_intervals() {
    assert_eq!(Scale::pentatonic_major(0).intervals(), &[0, 2, 4, 7, 9]);
}

#[test]
fn scale_test_pentatonic_minor_intervals() {
    assert_eq!(Scale::pentatonic_minor(0).intervals(), &[0, 3, 5, 7, 10]);
}

#[test]
fn test_blues_intervals() {
    assert_eq!(Scale::blues(0).intervals(), &[0, 3, 5, 6, 7, 10]);
}

#[test]
fn scale_test_dorian_intervals() {
    assert_eq!(Scale::dorian(0).intervals(), &[0, 2, 3, 5, 7, 9, 10]);
}

#[test]
fn scale_test_phrygian_intervals() {
    assert_eq!(Scale::phrygian(0).intervals(), &[0, 1, 3, 5, 7, 8, 10]);
}

#[test]
fn scale_test_lydian_intervals() {
    assert_eq!(Scale::lydian(0).intervals(), &[0, 2, 4, 6, 7, 9, 11]);
}

#[test]
fn scale_test_mixolydian_intervals() {
    assert_eq!(Scale::mixolydian(0).intervals(), &[0, 2, 4, 5, 7, 9, 10]);
}

#[test]
fn scale_test_whole_tone_intervals() {
    assert_eq!(Scale::whole_tone(0).intervals(), &[0, 2, 4, 6, 8, 10]);
}

#[test]
fn scale_test_diminished_intervals() {
    assert_eq!(Scale::diminished(0).intervals(), &[0, 2, 3, 5, 6, 8, 9, 11]);
}

#[test]
fn scale_test_augmented_intervals() {
    assert_eq!(Scale::augmented(0).intervals(), &[0, 3, 4, 7, 8, 11]);
}

#[test]
fn test_quantize_in_scale_unchanged() {
    let scale = Scale::major(0);
    assert_eq!(scale.quantize(60), 60);
    assert_eq!(scale.quantize(62), 62);
    assert_eq!(scale.quantize(64), 64);
}

#[test]
fn test_quantize_snaps_down_on_tie() {
    assert_eq!(Scale::major(0).quantize(61), 60);
}

#[test]
fn test_quantize_snaps_to_nearest() {
    assert_eq!(Scale::major(0).quantize(63), 62);
}

#[test]
fn test_quantize_chromatic_identity() {
    let scale = Scale::chromatic(0);
    for note in 0..=127u8 {
        assert_eq!(scale.quantize(note), note);
    }
}

#[test]
fn test_quantize_with_root() {
    assert_eq!(Scale::major(2).quantize(60), 59);
}

#[test]
fn test_quantize_edge_note_0() {
    assert_eq!(Scale::major(0).quantize(0), 0);
}

#[test]
fn test_quantize_edge_note_127() {
    assert_eq!(Scale::major(0).quantize(127), 127);
}

#[test]
fn test_quantize_edge_note_1_not_in_c_major() {
    assert_eq!(Scale::major(0).quantize(1), 0);
}

#[test]
fn test_is_in_scale_root_c() {
    let scale = Scale::major(0);
    let expected = [true, false, true, false, true, true, false, true, false, true, false, true];
    for (note, &inside) in expected.iter().enumerate() {
        assert_eq!(scale.is_in_scale(note as u8), inside, "note {note}");
    }
}

#[test]
fn test_is_in_scale_with_root() {
    let scale = Scale::major(2);
    assert!(scale.is_in_scale(2));
    assert!(!scale.is_in_scale(3));
    assert!(scale.is_in_scale(4));
    assert!(!scale.is_in_scale(5));
    assert!(scale.is_in_scale(6));
    assert!(scale.is_in_scale(7));
    assert!(!scale.is_in_scale(8));
    assert!(scale.is_in_scale(9));
    assert!(!scale.is_in_scale(10));
    assert!(scale.is_in_scale(11));
    assert!(!scale.is_in_scale(0));
    assert!(scale.is_in_scale(1));
}

#[test]
fn test_is_in_scale_octave_equivalence() {
    let scale = Scale::major(0);
    assert!(scale.is_in_scale(0));
    assert!(scale.is_in_scale(12));
    assert!(scale.is_in_scale(24));
    assert!(scale.is_in_scale(60));
}

#[test]
fn test_debug() {
    let debug = format!("{:?}", Scale::major(0));
    assert!(debug.contains("Major"), "expected 'Major' in: {debug}");
}

#[test]
fn test_clone_eq() {
    let a = Scale::blues(3);
    let b = a.clone();
    assert_eq!(a, b);
}

#[test]
fn test_ne() {
    assert_ne!(Scale::major(0), Scale::pentatonic_minor(0));
}

#[test]
fn quantize_result_is_in_scale_and_idempotent() {
    let scales = [Scale::major(3), Scale::blues(7), Scale::whole_tone(1), Scale::new(vec![5], 11, None)];
    for scale in &scales {
        for note in 0..=255u8 {
            let q = scale.quantize(note);
            assert!(scale.is_in_scale(q), "{note} -> {q}");
            assert_eq!(scale.quantize(q), q);
        }
    }
}

#[test]
fn quantize_single_degree_high_note_goes_down() {
    // Root 11 with interval 0: pitch class 11 only; the highest such MIDI
    // note is 119, so notes above the MIDI range land there.
    let scale = Scale::new(vec![0], 11, None);
    assert_eq!(scale.quantize(255), 119);
    assert_eq!(scale.quantize(0), 11);
}

#[test]
fn quantize_result_stays_in_midi_range() {
    let chromatic = Scale::chromatic(0);
    assert_eq!(chromatic.quantize(200), 127);
    assert_eq!(chromatic.quantize(127), 127);
    for note in 0..=255u8 {
        assert!(Scale::major(5).quantize(note) <= 127, "{note}");
    }
}

#[test]
fn quantize_with_no_intervals_clamps_raw_note() {
    let empty = Scale { root: 0, intervals: vec![], name: None };
    assert_eq!(empty.quantize(50), 50);
    assert_eq!(empty.quantize(200), 127);
}
