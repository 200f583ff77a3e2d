use oxurack::rt::PassthroughClock;

fn total_over(clock: &mut PassthroughClock, n: u64) -> u32 {
    let mut total = 0u32;
    for i in 0..n {
        total += clock.feed_clock(i * 20_833_333);
    }
    total
}

#[test]
fn test_passthrough_1_to_1() {
    let mut clock = PassthroughClock::new(1, 1, 1_000_000_000);
    assert_eq!(total_over(&mut clock, 24), 24, "1:1 should produce 24 output ticks from 24 inputs");
}

#[test]
fn test_passthrough_multiply_2() {
    let mut clock = PassthroughClock::new(2, 1, 1_000_000_000);
    assert_eq!(total_over(&mut clock, 24), 48, "multiply=2 should produce 48 output ticks from 24 inputs");
}

#[test]
fn test_passthrough_divide_2() {
    let mut clock = PassthroughClock::new(1, 2, 1_000_000_000);
    assert_eq!(total_over(&mut clock, 24), 12, "divide=2 should produce 12 output ticks from 24 inputs");
}

#[test]
fn test_passthrough_multiply_3_divide_2() {
    let mut clock = PassthroughClock::new(3, 2, 1_000_000_000);
    assert_eq!(total_over(&mut clock, 24), 36, "multiply=3, divide=2 should produce 36 output ticks from 24 inputs");
}

#[test]
fn test_passthrough_dropout() {
    let timeout_ns = 500_000_000;
    let mut clock = PassthroughClock::new(1, 1, timeout_ns);
    clock.feed_clock(1_000_000);
    assert!(!clock.check_dropout(100_000_000), "should not be a dropout within the timeout window");
    assert!(clock.check_dropout(1_000_000 + timeout_ns + 1), "should detect dropout after timeout");
}

#[test]
fn test_passthrough_no_dropout_before_ticks() {
    let clock = PassthroughClock::new(1, 1, 500_000_000);
    assert!(!clock.check_dropout(10_000_000_000), "should not report dropout when no tick has been received");
}

#[test]
fn test_passthrough_reset() {
    let mut clock = PassthroughClock::new(1, 1, 1_000_000_000);
    for i in 0..30 {
        let out = clock.feed_clock(i * 20_833_333);
        for _ in 0..out {
            clock.advance_output();
        }
    }
    assert!(clock.output_beat() > 0 || clock.output_subdivision() > 0, "position should have advanced");
    clock.reset();
    assert_eq!(clock.output_subdivision(), 0, "subdivision should be 0 after reset");
    assert_eq!(clock.output_beat(), 0, "beat should be 0 after reset");
}

#[test]
fn test_passthrough_advance_output_wraps_at_24() {
    let mut clock = PassthroughClock::new(1, 1, 1_000_000_000);
    for _ in 0..24 {
        clock.advance_output();
    }
    assert_eq!(clock.output_subdivision(), 0);
    assert_eq!(clock.output_beat(), 1);
    for _ in 0..6 {
        clock.advance_output();
    }
    assert_eq!(clock.output_subdivision(), 6);
    assert_eq!(clock.output_beat(), 1);
}

#[test]
fn test_passthrough_running_state() {
    let mut clock = PassthroughClock::new(1, 1, 1_000_000_000);
    assert!(clock.is_running(), "should be running initially");
    clock.set_running(false);
    assert!(!clock.is_running(), "should be stopped after set_running(false)");
    clock.set_running(true);
    assert!(clock.is_running(), "should be running after set_running(true)");
}

#[test]
fn test_passthrough_multiply_and_divide_clamped_to_1() {
    let mut clock = PassthroughClock::new(0, 0, 1_000_000_000);
    assert_eq!(total_over(&mut clock, 24), 24, "clamped (0,0) should behave as (1,1)");
}

#[test]
fn test_passthrough_set_position_from_spp() {
    let mut clock = PassthroughClock::new(1, 1, 1_000_000_000);
    clock.set_position_from_spp(7);
    assert_eq!(clock.output_beat(), 1);
    assert_eq!(clock.output_subdivision(), 18);
    clock.set_position_from_spp(0);
    assert_eq!(clock.output_beat(), 0);
    assert_eq!(clock.output_subdivision(), 0);
}

#[test]
fn test_passthrough_divide_produces_even_distribution() {
    let mut clock = PassthroughClock::new(1, 3, 1_000_000_000);
    let mut outputs = Vec::new();
    for i in 0..24 {
        outputs.push(clock.feed_clock(i * 20_833_333));
    }
    let total: u32 = outputs.iter().sum();
    assert_eq!(total, 8, "divide=3 from 24 inputs should produce 8 outputs");
    for (i, &out) in outputs.iter().enumerate() {
        if (i + 1) % 3 == 0 {
            assert_eq!(out, 1, "tick {} should produce 1 output", i);
        } else {
            assert_eq!(out, 0, "tick {} should produce 0 outputs", i);
        }
    }
}

#[test]
fn passthrough_total_is_floor_of_ratio() {
    // After n inputs, (n * multiply) / divide outputs in all.
    for (m, d) in [(3u8, 4u8), (5, 3), (7, 7), (1, 5)] {
        for n in 1..40u64 {
            let mut clock = PassthroughClock::new(m, d, 1_000);
            let total = total_over(&mut clock, n) as u64;
            assert_eq!(total, n * m as u64 / d as u64);
        }
    }
}

#[test]
fn passthrough_dropout_exactly_at_timeout_is_not_reported() {
    let mut clock = PassthroughClock::new(1, 1, 100);
    clock.feed_clock(1_000);
    assert!(!clock.check_dropout(1_100));
    assert!(clock.check_dropout(1_101));
}

#[test]
fn passthrough_reset_keeps_last_tick_for_dropout() {
    let mut clock = PassthroughClock::new(1, 1, 100);
    clock.feed_clock(1_000);
    clock.reset();
    assert!(clock.check_dropout(1_000_000));
    assert_eq!(clock.feed_clock(2_000), 1);
}
