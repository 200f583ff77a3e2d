use oxurack::midi::MidiWire;
use oxurack::quantizer::Scale;
use oxurack::shift_register::ShiftRegister;
use oxurack::turing::{StepSignals, TuringCore};
use oxurack::turing_midi::MidiRouting;

fn machine(bits: u16) -> TuringCore {
    TuringCore::new(ShiftRegister { bits })
}

fn locked_tick(tm: &mut TuringCore) -> StepSignals {
    let fb = tm.feedback_bit();
    tm.tick(fb, 0)
}

#[test]
fn new_core_defaults() {
    let tm = machine(0xBEEF);
    assert_eq!(tm.register_bits(), 0xBEEF);
    assert_eq!(tm.current_length(), 16);
    assert_eq!(tm.step_count(), 0);
}

#[test]
fn locked_loop_repeats_every_length_steps() {
    for len in [8usize, 10, 12, 16] {
        let mut tm = machine(0b1011_0010_0111_0101);
        tm.set_scale(Scale::major());
        tm.set_root(2);
        tm.set_length(len);
        let outs: Vec<StepSignals> = (0..2 * len).map(|_| locked_tick(&mut tm)).collect();
        for i in 0..len {
            assert_eq!(outs[i].note, outs[i + len].note, "note mismatch at step {i}, length {len}");
            assert_eq!(outs[i].velocity, outs[i + len].velocity);
            assert_eq!(outs[i].gate, outs[i + len].gate);
        }
    }
}

#[test]
fn step_shifts_in_the_written_bit_and_reads_the_window() {
    let mut tm = machine(0x00FF);
    tm.set_length(8);
    let s = tm.tick(true, 0xFF);
    assert_eq!(s.register_bits, 0x01FF);
    assert_eq!(s.length, 8);
    // Length 8: the DAC reads the low byte, 0xFF.
    assert!(s.gate);
    assert_eq!(s.velocity, Some(127));
    assert_eq!(s.noise_cc, 0x7F);
    assert_eq!(s.gates, [true; 8]);
    assert_eq!(s.pulses, [true; 6]);
    // Chromatic, range 36..=84: DAC 255 maps to 84.
    assert_eq!(s.note, Some(84));
    assert_eq!(s.scale_note, Some(84));
}

#[test]
fn pulses_are_and_of_adjacent_bits() {
    let mut tm = machine(0b0110_1101);
    let s = tm.tick(false, 3);
    for n in 0..6 {
        assert_eq!(s.pulses[n], s.gates[n] && s.gates[n + 1], "pulse[{n}]");
    }
    for n in 0..8 {
        assert_eq!(s.gates[n], (s.register_bits >> n) & 1 == 1);
    }
}

#[test]
fn dividers_fire_on_every_second_and_fourth_tick() {
    let mut tm = machine(0);
    let outs: Vec<(bool, bool)> = (0..8).map(|_| {
        let s = tm.tick(false, 0);
        (s.div2, s.div4)
    }).collect();
    assert_eq!(
        outs,
        vec![(false, false), (true, false), (false, false), (true, true), (false, false), (true, false), (false, false), (true, true)]
    );
    assert_eq!(tm.step_count(), 8);
}

#[test]
fn move_step_advances_register_but_not_clock() {
    let mut a = machine(0x1234);
    let mut b = machine(0x1234);
    let sa = a.move_step(true, 9);
    let sb = b.tick(true, 9);
    assert_ne!(a.register_bits(), 0x1234);
    assert_eq!(a.step_count(), 0);
    assert!(!sa.div2 && !sa.div4);
    assert_eq!(sa.note, sb.note);
    assert_eq!(sa.register_bits, sb.register_bits);
}

#[test]
fn reset_zeroes_register_and_counters() {
    let mut tm = machine(0xFFFF);
    tm.set_length(5);
    for _ in 0..3 {
        tm.tick(true, 1);
    }
    tm.reset();
    assert_eq!(tm.register_bits(), 0);
    assert_eq!(tm.step_count(), 0);
    assert_eq!(tm.current_length(), 5);
    let s = tm.tick(false, 0);
    assert!(!s.div2 && !s.div4);
}

#[test]
fn register_pattern_is_oldest_first() {
    let tm = machine(0x8001);
    let p = tm.register_pattern();
    assert!(p[0] && p[15]);
    assert!(p[1..15].iter().all(|b| !b));
}

#[test]
fn note_range_and_scale_output_are_independent() {
    let mut tm = machine(0);
    tm.set_note_range(60..=60);
    tm.set_scale_output_scale(Scale::major());
    tm.set_scale_output_root(14);
    let s = tm.tick(false, 0);
    assert_eq!(s.note, Some(60));
    // Scale output: root 14 clamps to 11 (B major). DAC 0 gives 36 (C),
    // which is out of B major; 35 and 37 tie, the lower wins, and the
    // result is clamped back up to the range start.
    assert_eq!(s.scale_note, Some(36));
}

fn signals(note: Option<u8>, velocity: Option<u8>, gate: bool, noise: u8) -> StepSignals {
    StepSignals {
        note,
        velocity,
        gate,
        scale_note: note,
        pulses: [false; 6],
        gates: [false; 8],
        div2: false,
        div4: false,
        noise_cc: noise,
        register_bits: 0,
        length: 16,
    }
}

#[test]
fn routing_plans_note_off_before_note_on() {
    let mut r = MidiRouting::new(3);
    let p1 = r.plan_tick(&signals(Some(60), Some(100), true, 5));
    assert_eq!(p1.messages, vec![MidiWire::note_on(3, 60, 100)]);
    r.commit(&p1, p1.messages.len());
    let p2 = r.plan_tick(&signals(Some(62), Some(90), true, 5));
    assert_eq!(p2.messages, vec![MidiWire::note_off(3, 60, 0), MidiWire::note_on(3, 62, 90)]);
    assert_eq!(p2.messages[1].to_bytes(), [0x93, 62, 90]);
}

#[test]
fn routing_gate_low_only_turns_off() {
    let mut r = MidiRouting::new(0);
    let p = r.plan_tick(&signals(Some(60), Some(100), true, 0));
    r.commit(&p, p.messages.len());
    let p = r.plan_tick(&signals(Some(61), Some(100), false, 0));
    assert_eq!(p.messages, vec![MidiWire::note_off(0, 60, 0)]);
    r.commit(&p, 1);
    let p = r.plan_tick(&signals(Some(61), Some(100), false, 0));
    assert!(p.messages.is_empty());
}

#[test]
fn routing_controllers_follow_the_notes() {
    let mut r = MidiRouting::new(20);
    r.route_noise_to_cc(0x81);
    r.route_note_to_cc(20);
    r.route_velocity_to_cc(21);
    let p = r.plan_tick(&signals(Some(50), None, true, 99));
    assert_eq!(
        p.messages,
        vec![
            MidiWire::note_on(15, 50, 64),
            MidiWire::cc(15, 1, 99),
            MidiWire::cc(15, 20, 50),
        ]
    );
}

#[test]
fn routing_commit_keeps_old_note_when_sends_fail() {
    let mut r = MidiRouting::new(1);
    let p = r.plan_tick(&signals(Some(60), Some(1), true, 0));
    r.commit(&p, 1);
    let p = r.plan_tick(&signals(Some(70), Some(1), true, 0));
    // Only the Note Off went out: 60 still counts as sounding.
    r.commit(&p, 1);
    assert_eq!(r.all_notes_off(), Some(MidiWire::note_off(1, 60, 0)));
    assert_eq!(r.all_notes_off(), None);
}

#[test]
fn routing_set_channel_clamps() {
    let mut r = MidiRouting::new(2);
    r.set_channel(200);
    let p = r.plan_tick(&signals(Some(1), Some(2), true, 0));
    assert_eq!(p.messages, vec![MidiWire::note_on(15, 1, 2)]);
}

#[test]
fn display_shows_brackets() {
    let mut tm = machine(0b1010_0000_1111_0001);
    tm.set_length(8);
    let display: String = tm.display_pattern().into_iter().collect();
    assert_eq!(display, "10100000[11110001]");
    assert_eq!(display.len(), 18);
    let open = display.find('[').unwrap();
    let close = display.find(']').unwrap();
    assert_eq!(close - open - 1, 8);
}

#[test]
fn display_full_length_window_starts_first() {
    let tm = machine(0xFFFF);
    let display: String = tm.display_pattern().into_iter().collect();
    assert_eq!(display, "[1111111111111111]");
}
