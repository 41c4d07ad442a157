use digidist::filter::{smooth, Cascade};
use digidist::scale::{FLOOR, ONE};

#[test]
fn a_stage_moves_by_the_cutoff_fraction_of_the_gap() {
    assert_eq!(smooth(0, ONE, 100_000_000), 100_000_000);
    assert_eq!(smooth(ONE, 0, 100_000_000), 900_000_000);
    assert_eq!(smooth(-ONE, ONE, 250_000_000), -500_000_000);
    assert_eq!(smooth(400_000_000, 400_000_000, 700_000_000), 400_000_000);
}

#[test]
fn at_a_cutoff_of_one_a_stage_jumps_to_its_target() {
    assert_eq!(smooth(0, ONE, ONE), ONE);
    assert_eq!(smooth(-123, 456, ONE), 456);
    assert_eq!(smooth(i64::MIN, i64::MAX, ONE), i64::MAX);
    assert_eq!(smooth(i64::MAX, i64::MIN, ONE), i64::MIN);
}

#[test]
fn the_move_is_rounded_away_from_zero() {
    // Half of 3 is 1.5: the stage moves by 2.
    assert_eq!(smooth(0, 3, 500_000_000), 2);
    assert_eq!(smooth(0, -3, 500_000_000), -2);
    // A hundredth of one raw unit still moves the stage by one.
    assert_eq!(smooth(0, 1, FLOOR), 1);
    assert_eq!(smooth(0, -1, FLOOR), -1);
    assert_eq!(smooth(10, 9, 1), 9);
}

#[test]
fn a_cutoff_above_one_overshoots() {
    assert_eq!(smooth(0, ONE, 1_500_000_000), 1_500_000_000);
    assert_eq!(smooth(ONE, 0, 2 * ONE), -ONE);
}

#[test]
fn a_stage_saturates_at_the_ends_of_the_range() {
    assert_eq!(smooth(0, i64::MAX, 3 * ONE), i64::MAX);
    assert_eq!(smooth(0, i64::MIN, 3 * ONE), i64::MIN);
    assert_eq!(smooth(i64::MAX, i64::MIN, i64::MAX), i64::MIN);
    assert_eq!(smooth(i64::MIN, i64::MAX, i64::MAX), i64::MAX);
}

#[test]
fn a_new_cascade_is_at_rest() {
    let c = Cascade::new();
    assert_eq!(c.first, 0);
    assert_eq!(c.second, 0);
}

#[test]
fn a_full_scale_sample_at_a_cutoff_of_one_leaves_no_residual() {
    let mut c = Cascade::new();
    let out = c.push(ONE, ONE);
    assert_eq!(c.first, ONE);
    assert_eq!(c.second, ONE);
    assert_eq!(out, 0);
}

#[test]
fn the_second_stage_follows_the_first_stages_new_state() {
    let mut c = Cascade::new();
    assert_eq!(c.push(ONE, 500_000_000), 750_000_000);
    assert_eq!((c.first, c.second), (500_000_000, 250_000_000));
    assert_eq!(c.push(ONE, 500_000_000), 500_000_000);
    assert_eq!((c.first, c.second), (750_000_000, 500_000_000));
    assert_eq!(c.push(-ONE, 500_000_000), -1_187_500_000);
    assert_eq!((c.first, c.second), (-125_000_000, 187_500_000));
}

#[test]
fn the_residual_saturates() {
    let mut c = Cascade { first: i64::MIN, second: i64::MIN };
    // At the smallest cutoff the second stage hardly leaves the lower end.
    let out = c.push(ONE, 1);
    assert!(c.second < i64::MIN + 20);
    assert_eq!(out, i64::MAX);
}

#[test]
fn a_constant_input_is_approached_monotonically_and_reached() {
    let cutoffs: [i64; 4] = [FLOOR, 300_000_000, 999_999_999, ONE];
    let targets: [i64; 4] = [800_000_000, -ONE, 0, 1];
    let starts: [(i64, i64); 3] = [(0, 0), (-500_000_000, -ONE), (ONE, 2 * ONE)];
    for cutoff in cutoffs {
        for y in targets {
            for (first, second) in starts {
                // Only runs whose stages start in order toward the input.
                let rising = second <= first && first <= y;
                let falling = second >= first && first >= y;
                if !(rising || falling) {
                    continue;
                }
                let mut c = Cascade { first, second };
                let mut steps = 0;
                while (c.first, c.second) != (y, y) {
                    let before = c;
                    let out = c.push(y, cutoff);
                    if rising {
                        assert!(before.first <= c.first && c.first <= y);
                        assert!(before.second <= c.second && c.second <= c.first);
                    } else {
                        assert!(before.first >= c.first && c.first >= y);
                        assert!(before.second >= c.second && c.second >= c.first);
                    }
                    assert_eq!(out, y - c.second);
                    steps += 1;
                    assert!(steps < 100_000, "no rest at cutoff {} toward {}", cutoff, y);
                }
                assert_eq!(c.push(y, cutoff), 0);
                assert_eq!((c.first, c.second), (y, y));
            }
        }
    }
}

#[test]
fn stages_out_of_order_still_come_to_rest() {
    // The second stage starts beyond the input and first moves away from it.
    let mut c = Cascade { first: 0, second: 500_000_000 };
    c.push(ONE, 100_000_000);
    assert_eq!((c.first, c.second), (100_000_000, 460_000_000));
    let mut steps = 1;
    while (c.first, c.second) != (ONE, ONE) {
        c.push(ONE, 100_000_000);
        steps += 1;
        assert!(steps < 100_000);
    }
    assert_eq!(c.push(ONE, 100_000_000), 0);
}

#[test]
fn rest_is_reached_in_a_known_number_of_samples() {
    let mut c = Cascade::new();
    let mut steps = 0;
    while (c.first, c.second) != (800_000_000, 800_000_000) {
        c.push(800_000_000, 300_000_000);
        steps += 1;
    }
    assert_eq!(steps, 64);
    let mut c = Cascade::new();
    let mut steps = 0;
    while (c.first, c.second) != (ONE, ONE) {
        c.push(ONE, FLOOR);
        steps += 1;
    }
    assert_eq!(steps, 1942);
}

#[test]
fn within_full_scale_the_stages_stay_within_full_scale() {
    let mut c = Cascade { first: -ONE, second: ONE };
    let inputs: [i64; 8] = [ONE, -ONE, ONE, ONE, 0, -ONE, -ONE, 123_456_789];
    for round in 0..200 {
        let y = inputs[round % inputs.len()];
        let out = c.push(y, 370_000_000);
        assert!(-ONE <= c.first && c.first <= ONE);
        assert!(-ONE <= c.second && c.second <= ONE);
        assert!(-2 * ONE <= out && out <= 2 * ONE);
    }
}

#[test]
fn the_cascade_follows_the_formula_in_real_numbers() {
    let cutoff = 0.35_f64;
    let (mut s0, mut s1) = (0.0_f64, 0.0_f64);
    let mut c = Cascade::new();
    let inputs: [f64; 10] = [1.0, 0.5, -0.25, -1.0, 0.0, 0.125, 0.9, -0.7, 0.3, 0.3];
    for y in inputs {
        s0 = s0 + cutoff * (y - s0);
        s1 = s1 + cutoff * (s0 - s1);
        let expected = y - s1;
        let out = c.push((y * 1e9).round() as i64, (cutoff * 1e9).round() as i64);
        assert!((out as f64 / 1e9 - expected).abs() < 1e-7);
        assert!((c.first as f64 / 1e9 - s0).abs() < 1e-7);
        assert!((c.second as f64 / 1e9 - s1).abs() < 1e-7);
    }
}
