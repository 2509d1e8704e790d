//! Synthetic gestures, from single samples to whole reports, measured with the
//! daemon's trigonometry on doubles.

use std::f64::consts::PI;

use letsnote_wheelpad::config::Scroll;
use letsnote_wheelpad::daemon::{Daemon, FrameGate, Outcome, ReportSplitter, MAX_HELD_FRAMES};
use letsnote_wheelpad::detector::{
    has_moved, is_sharp_turn, radial_gate_ok, within_horizontal_arc, CircularDetector, TouchSample,
    WheelDelta,
};
use letsnote_wheelpad::evdev::{AxisRange, DeviceCaps, InputDevice, PositionRanges};
use letsnote_wheelpad::event::{
    InputEvent, ABS_MT_POSITION_X, ABS_MT_POSITION_Y, ABS_MT_SLOT, ABS_MT_TRACKING_ID, BTN_TOUCH,
    EV_ABS, EV_KEY, EV_SYN, REL_WHEEL, REL_WHEEL_HI_RES, SYN_REPORT,
};
use letsnote_wheelpad::fsm::{
    classify_intent, emit, Action, Fsm, FsmState, IntentDecision, TouchFrame, TrackedTouch,
};
use letsnote_wheelpad::geometry::{
    CurvatureReading, Geometry, IntentEvidence, Real, MAX_NOTCHES, MIN_RADIAL_TRAVEL,
    MIN_TURN_DIVISOR, RADIAL_RATIO_HALVES, STRAIGHT_SWEEP_DIVISOR, TRIGGER_ANGLE_DIVISOR,
};
use letsnote_wheelpad::uinput::{PhysicalPad, UinputTouchpad, UinputWheel};

const PRIMARY_TRACKING_ID: i32 = 100;

fn wrap_angle(mut angle: f64) -> f64 {
    if angle > PI {
        angle -= 2.0 * PI;
    }
    if angle < -PI {
        angle += 2.0 * PI;
    }
    angle
}

fn polar(center_x: i32, center_y: i32, sample: TouchSample) -> (f64, f64) {
    let x = (sample.x - center_x) as f64;
    let y = (sample.y - center_y) as f64;
    (y.atan2(x), x.hypot(y))
}

fn segment_angle(from: TouchSample, to: TouchSample) -> f64 {
    ((to.y - from.y) as f64).atan2((to.x - from.x) as f64)
}

fn evidence(center_x: i32, center_y: i32, samples: &Vec<TouchSample>) -> IntentEvidence {
    let (start, _) = polar(center_x, center_y, samples[0]);
    let (end, _) = polar(center_x, center_y, samples[samples.len() - 1]);
    let swept = wrap_angle(end - start);
    let mut tangential = 0.0;
    let mut radial = 0.0;
    for pair in samples.windows(2) {
        let (a0, r0) = polar(center_x, center_y, pair[0]);
        let (a1, r1) = polar(center_x, center_y, pair[1]);
        tangential += ((r0 + r1) * 0.5 * wrap_angle(a1 - a0)).abs();
        radial += (r1 - r0).abs();
    }
    let mut turn_sum = 0.0;
    for triple in samples.windows(3) {
        turn_sum +=
            wrap_angle(segment_angle(triple[1], triple[2]) - segment_angle(triple[0], triple[1]));
    }
    IntentEvidence {
        swept_trigger: swept.abs() >= PI / TRIGGER_ANGLE_DIVISOR as f64,
        swept_straight: swept.abs() >= PI / STRAIGHT_SWEEP_DIVISOR as f64,
        tangential_dominates: tangential >= radial,
        radial_travel: radial >= MIN_RADIAL_TRAVEL as f64,
        radial_dominates: radial > tangential * (RADIAL_RATIO_HALVES as f64 / 2.0),
        turn_aligned: turn_sum * swept.signum() >= PI / MIN_TURN_DIVISOR as f64,
    }
}

fn curvature(
    samples: &Vec<TouchSample>,
    sensitivity: i32,
    accumulator: Real,
    remainder: Real,
) -> CurvatureReading {
    let headings: Vec<f64> = samples.windows(2).map(|p| segment_angle(p[1], p[0])).collect();
    let mut sum = 0.0;
    for pair in headings.windows(2) {
        sum += wrap_angle(pair[0] - pair[1]);
    }
    let delta = sensitivity as f64 * (sum / (headings.len() - 1) as f64);
    let exact = f64::from_bits(remainder.bits) - delta * (120.0 / (2.0 * PI));
    let v120 = exact.round() as i32;
    let mut acc = f64::from_bits(accumulator.bits) + delta;
    let mut notches: i32 = 0;
    while acc > PI && notches > -MAX_NOTCHES {
        acc -= 2.0 * PI;
        notches -= 1;
    }
    while acc < -PI && notches < MAX_NOTCHES {
        acc += 2.0 * PI;
        notches += 1;
    }
    CurvatureReading {
        v120,
        v120_remainder: Real { bits: (exact - v120 as f64).to_bits() },
        notches,
        accumulator: Real { bits: acc.to_bits() },
    }
}

type Evidence = fn(i32, i32, &Vec<TouchSample>) -> IntentEvidence;
type Curvature = fn(&Vec<TouchSample>, i32, Real, Real) -> CurvatureReading;

fn geometry() -> Geometry<Evidence, Curvature> {
    Geometry { evidence, curvature }
}

/// N samples around a circle. Y is screen-down, so a positive sweep is
/// clockwise in screen space.
fn circle_samples(
    center_x: i32,
    center_y: i32,
    r: f64,
    start_rad: f64,
    total_sweep_rad: f64,
    n: usize,
) -> Vec<TouchSample> {
    let mut out = Vec::with_capacity(n);
    for i in 0..n {
        let t = i as f64 / (n - 1).max(1) as f64;
        let theta = start_rad + total_sweep_rad * t;
        let x = center_x + (r * theta.cos()).round() as i32;
        let y = center_y + (r * theta.sin()).round() as i32;
        out.push(TouchSample { x, y });
    }
    out
}

fn run_gesture(samples: &[TouchSample], sensitivity: i32) -> WheelDelta {
    let g = geometry();
    let mut d = CircularDetector::new();
    d.on_gesture_start();
    let mut total = WheelDelta::default();
    for s in samples {
        if d.push_if_moved(*s) {
            total += d.step(sensitivity, &g);
        }
    }
    total
}

// ---- the detector -------------------------------------------------------

#[test]
fn push_if_moved_reports_deadband_and_stationary_samples() {
    let mut d = CircularDetector::new();
    let start = TouchSample { x: 100, y: 100 };

    assert!(d.push_if_moved(start), "the first sample must be stored");
    assert!(
        !d.push_if_moved(start),
        "an identical stationary sample must be rejected"
    );
    assert!(
        !d.push_if_moved(TouchSample { x: 108, y: 100 }),
        "movement exactly on the 8-unit deadband must be rejected"
    );
    assert!(
        d.push_if_moved(TouchSample { x: 109, y: 100 }),
        "movement past the deadband must be stored"
    );
}

#[test]
fn full_clockwise_circle_emits_negative_ticks() {
    let samples = circle_samples(500, 500, 200.0, 0.0, 2.0 * PI, 40);
    let total = run_gesture(&samples, 0);
    assert!(
        total.discrete < 0,
        "clockwise circle should produce negative ticks (got {total:?})"
    );
    assert!(
        total.discrete.abs() >= 1,
        "full circle should produce at least one tick"
    );
    assert!(total.v120 < 0, "clockwise v120 must have the same sign");
}

#[test]
fn full_counterclockwise_circle_emits_positive_ticks() {
    let samples = circle_samples(500, 500, 200.0, 0.0, -2.0 * PI, 40);
    let total = run_gesture(&samples, 0);
    assert!(
        total.discrete > 0,
        "counterclockwise circle should produce positive ticks (got {total:?})"
    );
    assert!(total.v120 > 0);
}

#[test]
fn straight_line_produces_zero_ticks() {
    let samples: Vec<_> = (0..20)
        .map(|i| TouchSample {
            x: 100 + i * 30,
            y: 500,
        })
        .collect();
    let total = run_gesture(&samples, 0);
    assert_eq!(
        total,
        WheelDelta::default(),
        "straight line must not scroll"
    );
}

#[test]
fn zig_zag_does_not_engage() {
    let zigs: Vec<TouchSample> = [
        (100, 100),
        (130, 200),
        (160, 100),
        (190, 200),
        (220, 100),
        (250, 200),
        (280, 100),
        (310, 200),
        (340, 100),
        (370, 200),
        (400, 100),
        (430, 200),
        (460, 100),
        (490, 200),
        (520, 100),
        (550, 200),
        (580, 100),
        (610, 200),
        (640, 100),
        (670, 200),
    ]
    .iter()
    .map(|(x, y)| TouchSample { x: *x, y: *y })
    .collect();
    let total = run_gesture(&zigs, 0);
    assert_eq!(
        total,
        WheelDelta::default(),
        "zig-zag should not produce wheel movement (got {total:?})"
    );
}

#[test]
fn half_circle_does_not_exceed_full() {
    let full = run_gesture(&circle_samples(500, 500, 200.0, 0.0, 2.0 * PI, 40), 0);
    let half = run_gesture(&circle_samples(500, 500, 200.0, 0.0, PI, 20), 0);
    assert!(full.discrete < 0 && half.discrete < 0);
    assert!(
        half.discrete.abs() <= full.discrete.abs(),
        "half ({half:?}) should not exceed full ({full:?})"
    );
}

#[test]
fn reverse_circle_has_opposite_sign() {
    let cw = run_gesture(&circle_samples(500, 500, 200.0, 0.0, 2.0 * PI, 40), 0);
    let ccw = run_gesture(&circle_samples(500, 500, 200.0, 0.0, -2.0 * PI, 40), 0);
    assert!(cw.discrete < 0 && ccw.discrete > 0, "cw={cw:?} ccw={ccw:?}");
}

#[test]
fn sign_convention_positive_overflow_yields_negative_tick() {
    let g = geometry();
    let mut d = CircularDetector::new();
    d.on_gesture_start();
    for s in circle_samples(500, 500, 200.0, 0.0, 0.5, 5) {
        if d.push_if_moved(s) {
            let _ = d.step(0, &g);
        }
    }
    d.set_accumulator_for_test(Real { bits: (PI + 0.01).to_bits() });
    let delta = d.step(0, &g);
    assert_eq!(delta.discrete, -1);
}

#[test]
fn high_resolution_movement_precedes_a_legacy_notch() {
    let samples = circle_samples(385, 385, 340.0, 0.0, 8.0 * PI / 180.0, 3);
    let delta = run_gesture(&samples, 0);

    assert_ne!(delta.v120, 0, "the early arc should emit a v120 fraction");
    assert_eq!(
        delta.discrete, 0,
        "the same early arc should not yet emit a whole legacy notch"
    );
}

#[test]
fn stationary_pause_preserves_history_for_high_resolution_resume() {
    let g = geometry();
    let mut detector = CircularDetector::new();
    let initial = circle_samples(385, 385, 340.0, 0.0, 8.0 * PI / 180.0, 3);
    let mut initial_delta = WheelDelta::default();
    for sample in &initial {
        if detector.push_if_moved(*sample) {
            initial_delta += detector.step(0, &g);
        }
    }
    assert_ne!(initial_delta.v120, 0);

    let stationary = *initial.last().unwrap();
    for _ in 0..100 {
        assert!(!detector.push_if_moved(stationary));
    }

    let resumed = circle_samples(385, 385, 340.0, 10.0 * PI / 180.0, 0.0, 1)[0];
    assert!(detector.push_if_moved(resumed));
    let resumed_delta = detector.step(0, &g);
    assert_ne!(
        resumed_delta.v120, 0,
        "resuming the same contact should not refill detector history"
    );
}

#[test]
fn sub_v120_rounding_residue_is_not_lost() {
    let samples = circle_samples(0, 0, 5000.0, 0.0, 0.2, 101);
    let delta = run_gesture(&samples, -4);

    assert!(
        (-20..=-17).contains(&delta.v120),
        "unexpected accumulated fractional movement: {delta:?}"
    );
    assert_eq!(delta.discrete, 0);
}

#[test]
fn extended_low_sensitivity_reduces_high_resolution_distance() {
    let samples = circle_samples(500, 500, 200.0, 0.0, PI, 40);
    let lowest = run_gesture(&samples, -4);
    let previous_lowest = run_gesture(&samples, -2);

    assert!(lowest.v120.abs() < previous_lowest.v120.abs());
    assert!(lowest.v120.abs() * 2 <= previous_lowest.v120.abs() + 1);
}

#[test]
fn radial_gate_default_width_requires_outer_ring() {
    assert!(!radial_gate_ok(500, 500, TouchSample { x: 500, y: 500 }, 0));
    assert!(!radial_gate_ok(500, 500, TouchSample { x: 600, y: 500 }, 0)); // r = 100
    assert!(radial_gate_ok(500, 500, TouchSample { x: 700, y: 500 }, 0)); // r = 200
    assert!(radial_gate_ok(500, 500, TouchSample { x: 800, y: 500 }, 0)); // r = 300
}

#[test]
fn radial_gate_max_width_engages_anywhere() {
    assert!(radial_gate_ok(500, 500, TouchSample { x: 500, y: 500 }, 10));
    assert!(radial_gate_ok(500, 500, TouchSample { x: 600, y: 500 }, 10));
}

#[test]
fn horizontal_arc_default_45_to_135_is_bottom_edge() {
    let south = TouchSample { x: 500, y: 700 }; // dy=+200 → 90°
    let north = TouchSample { x: 500, y: 300 }; // dy=-200 → -90° = 270°
    let east = TouchSample { x: 700, y: 500 };
    let west = TouchSample { x: 300, y: 500 };
    assert!(within_horizontal_arc(500, 500, south, 2, 6));
    assert!(!within_horizontal_arc(500, 500, north, 2, 6));
    assert!(!within_horizontal_arc(500, 500, east, 2, 6));
    assert!(!within_horizontal_arc(500, 500, west, 2, 6));
}

#[test]
fn horizontal_arc_wraparound() {
    let east = TouchSample { x: 700, y: 500 }; // 0°
    let southeast = TouchSample {
        x: 500 + (200.0_f64 * (PI / 4.0).cos()).round() as i32,
        y: 500 + (200.0_f64 * (PI / 4.0).sin()).round() as i32,
    }; // 45°
    let southwest = TouchSample {
        x: 500 + (200.0_f64 * (3.0 * PI / 4.0).cos()).round() as i32,
        y: 500 + (200.0_f64 * (3.0 * PI / 4.0).sin()).round() as i32,
    }; // 135°
    assert!(within_horizontal_arc(500, 500, east, 14, 2));
    assert!(within_horizontal_arc(500, 500, southeast, 14, 2));
    assert!(!within_horizontal_arc(500, 500, southwest, 14, 2));
}

#[test]
fn horizontal_arc_agrees_with_atan2() {
    for dx in -40..=40 {
        for dy in -40..=40 {
            let s = TouchSample { x: 7 + dx, y: -3 + dy };
            let mut theta = (dy as f64).atan2(dx as f64);
            if theta < 0.0 {
                theta += 2.0 * PI;
            }
            for start in -1..=17 {
                for end in -1..=17 {
                    let from = start as f64 * (PI / 8.0);
                    let to = end as f64 * (PI / 8.0);
                    let expected = if from <= to {
                        theta >= from && theta <= to
                    } else {
                        theta >= from || theta <= to
                    };
                    assert_eq!(
                        within_horizontal_arc(7, -3, s, start, end),
                        expected,
                        "({dx}, {dy}) in {start}..{end}"
                    );
                }
            }
        }
    }
}

#[test]
fn gates_do_not_overflow_at_the_ends_of_the_range() {
    let low = TouchSample { x: i32::MIN, y: i32::MIN };
    let high = TouchSample { x: i32::MAX, y: i32::MAX };
    assert!(has_moved(low, high));
    assert!(radial_gate_ok(i32::MAX, i32::MAX, low, 0));
    assert!(within_horizontal_arc(i32::MIN, i32::MIN, high, 2, 2));
    assert!(!is_sharp_turn(high, TouchSample { x: 0, y: 0 }, low));
    assert!(is_sharp_turn(low, high, low));
}

#[test]
fn sharp_turns_begin_past_45_degrees() {
    let origin = TouchSample { x: 0, y: 0 };
    let east = TouchSample { x: 10, y: 0 };
    assert!(!is_sharp_turn(TouchSample { x: 20, y: 0 }, east, origin));
    assert!(!is_sharp_turn(TouchSample { x: 20, y: 10 }, east, origin)); // exactly 45°
    assert!(!is_sharp_turn(TouchSample { x: 20, y: -10 }, east, origin));
    assert!(is_sharp_turn(TouchSample { x: 20, y: 11 }, east, origin));
    assert!(is_sharp_turn(TouchSample { x: 20, y: -11 }, east, origin));
    assert!(is_sharp_turn(TouchSample { x: 10, y: 10 }, east, origin)); // 90°
    assert!(is_sharp_turn(origin, east, origin)); // back
}

#[test]
fn sharpness_is_the_same_in_a_mirror() {
    let p = |x: i32, y: i32| TouchSample { x, y };
    for (x, y) in [(20, 3), (20, 10), (20, 11), (15, 40), (3, -9), (10, 7)] {
        assert_eq!(
            is_sharp_turn(p(x, y), p(10, 0), p(0, 0)),
            is_sharp_turn(p(x, -y), p(10, 0), p(0, 0)),
            "({x}, {y})"
        );
    }
}

#[test]
fn a_straight_line_is_smooth_at_any_pace() {
    let p = |k: i32| TouchSample { x: 3 * k, y: -7 * k };
    assert!(!is_sharp_turn(p(9), p(8), p(1)));
    assert!(!is_sharp_turn(p(100_000), p(2), p(1)));
}

#[test]
fn a_wider_area_accepts_more() {
    let s = TouchSample { x: 590, y: 470 }; // r is just under 95
    let accepted: Vec<bool> = (-1..=11).map(|w| radial_gate_ok(500, 500, s, w)).collect();
    assert_eq!(accepted, (-1..=11).map(|w| w >= 6).collect::<Vec<bool>>());
    // The edge of the dead zone belongs to the ring.
    assert!(radial_gate_ok(500, 500, TouchSample { x: 700, y: 500 }, 0));
    assert!(!radial_gate_ok(500, 500, TouchSample { x: 699, y: 500 }, 0));
}

#[test]
fn wedges_in_both_orders_cover_the_pad() {
    for x in [-300, -124, 0, 51, 300] {
        for y in [-300, -51, 0, 124, 300] {
            let s = TouchSample { x, y };
            for (start, end) in [(2, 6), (0, 15), (14, 2), (7, 8)] {
                assert!(
                    within_horizontal_arc(0, 0, s, start, end)
                        || within_horizontal_arc(0, 0, s, end, start)
                );
            }
        }
    }
}

#[test]
fn the_wedge_does_not_depend_on_distance() {
    for (x, y) in [(5, 2), (2, 5), (-5, 2), (-1, -1), (12, -5), (0, 7)] {
        for sector in 0..16 {
            let near = TouchSample { x, y };
            let far = TouchSample { x: 1000 * x, y: 1000 * y };
            // A quarter turn moves the wedge by four sectors.
            let turned = TouchSample { x: -y, y: x };
            let next = (sector + 4) % 16;
            let here = within_horizontal_arc(0, 0, near, sector, 15);
            assert_eq!(here, within_horizontal_arc(0, 0, far, sector, 15));
            if sector < 12 {
                assert_eq!(
                    within_horizontal_arc(0, 0, near, sector, sector),
                    within_horizontal_arc(0, 0, turned, next, next)
                );
            }
        }
    }
}

#[test]
fn history_forgets_its_oldest_sample() {
    // The reading tells how many samples it was given, and which is the
    // oldest.
    fn reading(samples: &Vec<TouchSample>, _: i32, acc: Real, rem: Real) -> CurvatureReading {
        CurvatureReading {
            v120: samples[samples.len() - 1].x,
            v120_remainder: rem,
            notches: samples.len() as i32,
            accumulator: acc,
        }
    }
    let g = Geometry { evidence, curvature: reading };
    let mut d = CircularDetector::new();
    for i in 0..25 {
        assert!(d.push_if_moved(TouchSample { x: i * 10, y: 0 }));
        let delta = d.step(2, &g);
        if i >= 4 {
            assert_eq!(delta.discrete, (i + 1).min(20));
            assert_eq!(delta.v120, (i - 19).max(0) * 10);
        }
    }
    // A corner cuts the run: nothing moves until three turns follow it.
    for (y, discrete) in [(10, 0), (20, 0), (30, 0), (40, 5), (50, 6)] {
        assert!(d.push_if_moved(TouchSample { x: 240, y }));
        assert_eq!(d.step(2, &g).discrete, discrete, "y = {y}");
    }
}

#[test]
fn sensitivity_is_clamped_to_its_table() {
    let samples = circle_samples(500, 500, 200.0, 0.0, PI, 40);
    assert_eq!(run_gesture(&samples, 2), run_gesture(&samples, 9));
    assert_eq!(run_gesture(&samples, -4), run_gesture(&samples, -9));
    assert_ne!(run_gesture(&samples, 1), run_gesture(&samples, 2));
}

#[test]
fn a_reading_is_taken_over_exactly() {
    fn reading(_: &Vec<TouchSample>, sensitivity: i32, acc: Real, rem: Real) -> CurvatureReading {
        CurvatureReading {
            v120: sensitivity,
            v120_remainder: Real { bits: rem.bits + 1 },
            notches: -3,
            accumulator: Real { bits: acc.bits + 10 },
        }
    }
    let g = Geometry { evidence, curvature: reading };
    let mut d = CircularDetector::new();
    let arc = circle_samples(0, 0, 200.0, 0.0, 1.0, 8);
    let mut seen = Vec::new();
    for s in &arc {
        assert!(d.push_if_moved(*s));
        seen.push(d.step(-1, &g));
    }
    assert_eq!(seen[1], WheelDelta { v120: 0, discrete: 0 });
    assert_eq!(seen[2], WheelDelta { v120: 14, discrete: 0 });
    assert_eq!(seen[3], WheelDelta { v120: 14, discrete: 0 });
    assert_eq!(seen[4], WheelDelta { v120: 14, discrete: -3 });
    assert_eq!(seen[7], WheelDelta { v120: 14, discrete: -3 });
}

#[test]
fn a_full_accumulator_is_drained_at_once() {
    let g = geometry();
    let mut d = CircularDetector::new();
    for s in circle_samples(500, 500, 200.0, 0.0, 0.5, 5) {
        assert!(d.push_if_moved(s));
    }
    d.set_accumulator_for_test(Real { bits: 1e6f64.to_bits() });
    let notches = d.step(0, &g).discrete;
    assert!((-159157..=-159154).contains(&notches), "{notches}");
}

#[test]
fn wheel_deltas_add_and_reverse() {
    let mut d = WheelDelta { v120: 30, discrete: -1 };
    assert!(!d.is_zero());
    assert_eq!(d.reversed(), WheelDelta { v120: -30, discrete: 1 });
    d += WheelDelta { v120: 12, discrete: 3 };
    assert_eq!(d, WheelDelta { v120: 42, discrete: 2 });
    d += d.reversed();
    assert!(d.is_zero());
    assert!(!WheelDelta { v120: 0, discrete: 1 }.is_zero());
}

// ---- the state machine --------------------------------------------------

fn default_scroll() -> Scroll {
    Scroll::default()
}

fn lift() -> TouchFrame {
    TouchFrame {
        contact: false,
        touches: Vec::new(),
    }
}

fn touch(x: i32, y: i32) -> TouchFrame {
    touch_frame(&[(0, PRIMARY_TRACKING_ID, x, y)])
}

fn touch_frame(touches: &[(usize, i32, i32, i32)]) -> TouchFrame {
    TouchFrame {
        contact: !touches.is_empty(),
        touches: touches
            .iter()
            .map(|&(slot, tracking_id, x, y)| TrackedTouch {
                slot,
                tracking_id,
                pos: TouchSample { x, y },
            })
            .collect(),
    }
}

fn on_rim(theta: f64) -> (i32, i32) {
    (
        500 + (220.0 * theta.cos()).round() as i32,
        500 + (220.0 * theta.sin()).round() as i32,
    )
}

fn rim_touch(theta: f64) -> TouchFrame {
    let (x, y) = on_rim(theta);
    touch(x, y)
}

fn drive(
    fsm: &mut Fsm,
    detector: &mut CircularDetector,
    scroll: &Scroll,
    frames: &[TouchFrame],
) -> Vec<Action> {
    let g = geometry();
    let mut acc = Vec::new();
    for f in frames {
        let action = fsm.step(f, detector, scroll, &g);
        if !matches!(action, Action::Nothing) {
            acc.push(action);
        }
    }
    acc
}

#[test]
fn idle_to_contact_on_touchdown_inside_dead_zone() {
    let mut fsm = Fsm::new(500, 500);
    let mut det = CircularDetector::new();
    let scroll = default_scroll();
    let _ = drive(&mut fsm, &mut det, &scroll, &[touch(510, 510)]);
    assert!(matches!(fsm.state(), FsmState::Contact { .. }));
}

#[test]
fn idle_to_moving_on_touchdown_outside_dead_zone() {
    let mut fsm = Fsm::new(500, 500);
    let mut det = CircularDetector::new();
    let scroll = default_scroll();
    let _ = drive(&mut fsm, &mut det, &scroll, &[touch(720, 500)]); // r = 220
    assert!(matches!(fsm.state(), FsmState::Moving { .. }));
}

#[test]
fn contact_to_idle_on_lift() {
    let mut fsm = Fsm::new(500, 500);
    let mut det = CircularDetector::new();
    let scroll = default_scroll();
    drive(&mut fsm, &mut det, &scroll, &[touch(510, 510), lift()]);
    assert!(matches!(fsm.state(), FsmState::Idle));
}

#[test]
fn contact_does_not_engage_on_cross_gate_movement_d020() {
    let mut fsm = Fsm::new(500, 500);
    let mut det = CircularDetector::new();
    let scroll = default_scroll();
    // Touch inside dead zone, then slide outside.
    drive(
        &mut fsm,
        &mut det,
        &scroll,
        &[touch(510, 510), touch(550, 500), touch(720, 500)],
    );
    assert!(
        matches!(fsm.state(), FsmState::Contact { .. }),
        "expected to stay in Contact, got {:?}",
        fsm.state()
    );
}

#[test]
fn moving_to_idle_on_lift_before_engagement() {
    let mut fsm = Fsm::new(500, 500);
    let mut det = CircularDetector::new();
    let scroll = default_scroll();
    drive(&mut fsm, &mut det, &scroll, &[touch(720, 500), lift()]);
    assert!(matches!(fsm.state(), FsmState::Idle));
}

#[test]
fn moving_to_contact_on_slip_back_into_dead_zone() {
    let mut fsm = Fsm::new(500, 500);
    let mut det = CircularDetector::new();
    let scroll = default_scroll();
    // Engage outside, then slip back inside.
    drive(
        &mut fsm,
        &mut det,
        &scroll,
        &[touch(720, 500), touch(550, 500)],
    );
    assert!(matches!(fsm.state(), FsmState::Contact { .. }));
}

#[test]
fn a_slipped_candidate_stays_given_up_until_lift() {
    let mut fsm = Fsm::new(500, 500);
    let mut det = CircularDetector::new();
    let scroll = default_scroll();
    let trapped = FsmState::Contact { origin: TouchSample { x: 550, y: 500 } };
    drive(&mut fsm, &mut det, &scroll, &[touch(720, 500), touch(550, 500)]);
    assert_eq!(fsm.state(), trapped);
    let arc: Vec<_> = (0..12).map(|i| rim_touch(i as f64 * PI / 16.0)).collect();
    assert!(drive(&mut fsm, &mut det, &scroll, &arc).is_empty());
    assert_eq!(fsm.state(), trapped);
    drive(&mut fsm, &mut det, &scroll, &[lift()]);
    assert_eq!(fsm.state(), FsmState::Idle);
}

#[test]
fn moving_to_scrolling_on_swept_angle_past_trigger() {
    let mut fsm = Fsm::new(500, 500);
    let mut det = CircularDetector::new();
    let scroll = default_scroll();

    // engage_start at angle 0, r=220
    let start = touch(720, 500);
    // sweep to angle π/8 (= 22.5°), r=220
    let theta = PI / 8.0;
    let end_x = 500 + (220.0 * theta.cos()).round() as i32;
    let end_y = 500 + (220.0 * theta.sin()).round() as i32;
    let end = touch(end_x, end_y);

    drive(&mut fsm, &mut det, &scroll, &[start, end]);
    // A third sample completes the evidence.
    drive(&mut fsm, &mut det, &scroll, &[rim_touch(3.0 * PI / 16.0)]);
    assert!(matches!(fsm.state(), FsmState::Scrolling { .. }));
}

#[test]
fn scrolling_to_debounce_on_lift() {
    let mut fsm = Fsm::new(500, 500);
    let mut det = CircularDetector::new();
    let scroll = default_scroll();

    let start = touch(720, 500);
    let theta = PI / 8.0;
    let mid_x = 500 + (220.0 * theta.cos()).round() as i32;
    let mid_y = 500 + (220.0 * theta.sin()).round() as i32;
    let mid = touch(mid_x, mid_y);

    drive(&mut fsm, &mut det, &scroll, &[start, mid]);
    // A third sample completes the evidence.
    drive(&mut fsm, &mut det, &scroll, &[rim_touch(3.0 * PI / 16.0)]);
    assert!(matches!(fsm.state(), FsmState::Scrolling { .. }));

    drive(&mut fsm, &mut det, &scroll, &[lift()]);
    assert!(matches!(fsm.state(), FsmState::Debounce));
}

#[test]
fn stationary_frames_after_scrolling_do_not_emit_more_ticks() {
    let mut fsm = Fsm::new(500, 500);
    let mut det = CircularDetector::new();
    let scroll = default_scroll();

    let moving_frames: Vec<_> = (0..=18)
        .map(|i| {
            let theta = i as f64 * PI / 18.0;
            touch(
                500 + (220.0 * theta.cos()).round() as i32,
                500 + (220.0 * theta.sin()).round() as i32,
            )
        })
        .collect();
    let moving_actions = drive(&mut fsm, &mut det, &scroll, &moving_frames);
    assert!(matches!(fsm.state(), FsmState::Scrolling { .. }));
    assert!(
        !moving_actions.is_empty(),
        "the setup gesture must emit at least one scroll tick"
    );

    let stationary = moving_frames.last().unwrap().clone();
    let stationary_frames = vec![stationary; 100];
    let stationary_actions = drive(&mut fsm, &mut det, &scroll, &stationary_frames);
    assert!(
        stationary_actions.is_empty(),
        "stationary frames unexpectedly emitted {stationary_actions:?}"
    );
    assert!(matches!(fsm.state(), FsmState::Scrolling { .. }));
}

#[test]
fn second_finger_before_capture_prioritizes_multitouch_until_all_lift() {
    let mut fsm = Fsm::new(500, 500);
    let mut det = CircularDetector::new();
    let scroll = default_scroll();

    drive(&mut fsm, &mut det, &scroll, &[touch(720, 500)]);
    assert!(matches!(fsm.state(), FsmState::Moving { .. }));

    let two_fingers = touch_frame(&[(0, PRIMARY_TRACKING_ID, 500, 720), (1, 101, 600, 600)]);
    let actions = drive(&mut fsm, &mut det, &scroll, &[two_fingers]);
    assert!(actions.is_empty());
    assert!(matches!(fsm.state(), FsmState::MultiTouch));

    let far_around_the_rim = touch(500, 720);
    let actions = drive(&mut fsm, &mut det, &scroll, &[far_around_the_rim]);
    assert!(actions.is_empty());
    assert!(matches!(fsm.state(), FsmState::MultiTouch));

    drive(&mut fsm, &mut det, &scroll, &[lift()]);
    assert!(matches!(fsm.state(), FsmState::Idle));
}

#[test]
fn gesture_starting_with_multiple_fingers_is_passthrough_only() {
    let mut fsm = Fsm::new(500, 500);
    let mut det = CircularDetector::new();
    let scroll = default_scroll();

    let frames: Vec<_> = (0..12)
        .map(|i| {
            let theta = i as f64 * PI / 18.0;
            touch_frame(&[
                (
                    0,
                    PRIMARY_TRACKING_ID,
                    500 + (220.0 * theta.cos()).round() as i32,
                    500 + (220.0 * theta.sin()).round() as i32,
                ),
                (1, 101, 600, 600),
            ])
        })
        .collect();
    let actions = drive(&mut fsm, &mut det, &scroll, &frames);
    assert!(actions.is_empty());
    assert!(matches!(fsm.state(), FsmState::MultiTouch));
}

#[test]
fn captured_scroll_stays_locked_to_original_tracking_id() {
    let mut fsm = Fsm::new(500, 500);
    let mut det = CircularDetector::new();
    let scroll = default_scroll();
    const CAPTURED_ID: i32 = 101;
    const ADDED_ID: i32 = 202;

    // Deliberately start in slot 1, then add a lower-numbered slot after
    // capture. The recognizer must follow the tracking ID, not slot order.
    let start = touch_frame(&[(1, CAPTURED_ID, 720, 500)]);
    let theta = PI / 8.0;
    let engage = touch_frame(&[(
        1,
        CAPTURED_ID,
        500 + (220.0 * theta.cos()).round() as i32,
        500 + (220.0 * theta.sin()).round() as i32,
    )]);
    drive(&mut fsm, &mut det, &scroll, &[start, engage]);
    // A third sample completes the evidence.
    let (x, y) = on_rim(5.0 * PI / 36.0);
    drive(&mut fsm, &mut det, &scroll, &[touch_frame(&[(1, CAPTURED_ID, x, y)])]);
    assert!(matches!(
        fsm.state(),
        FsmState::Scrolling {
            tracking_id: CAPTURED_ID,
            slot: 1
        }
    ));

    let with_added_finger: Vec<_> = (3..=18)
        .map(|i| {
            let theta = i as f64 * PI / 18.0;
            touch_frame(&[
                (0, ADDED_ID, 510, 510),
                (
                    1,
                    CAPTURED_ID,
                    500 + (220.0 * theta.cos()).round() as i32,
                    500 + (220.0 * theta.sin()).round() as i32,
                ),
            ])
        })
        .collect();
    let actions = drive(&mut fsm, &mut det, &scroll, &with_added_finger);
    assert!(
        !actions.is_empty(),
        "the captured finger should keep producing circular scroll ticks"
    );

    let replacement_motion: Vec<_> = (0..20)
        .map(|i| {
            let theta = i as f64 * PI / 9.0;
            touch_frame(&[(
                0,
                ADDED_ID,
                500 + (220.0 * theta.cos()).round() as i32,
                500 + (220.0 * theta.sin()).round() as i32,
            )])
        })
        .collect();
    let actions = drive(&mut fsm, &mut det, &scroll, &replacement_motion);
    assert!(actions.is_empty());
    assert!(matches!(
        fsm.state(),
        FsmState::Scrolling {
            tracking_id: CAPTURED_ID,
            slot: 1
        }
    ));

    drive(&mut fsm, &mut det, &scroll, &[lift()]);
    assert!(matches!(fsm.state(), FsmState::Debounce));
}

#[test]
fn other_fingers_make_no_difference_to_a_captured_gesture() {
    let g = geometry();
    let scroll = default_scroll();
    let play = |with_others: bool| {
        let mut fsm = Fsm::new(500, 500);
        let mut det = CircularDetector::new();
        let mut actions = Vec::new();
        for i in 0..30 {
            let (x, y) = on_rim(i as f64 * PI / 16.0);
            let own = (2, 7, x, y);
            let frame = if with_others && i > 4 {
                touch_frame(&[(0, 8, 510, 500 + i), own, (3, 9 + i, x - 30, y)])
            } else {
                touch_frame(&[own])
            };
            actions.push(fsm.step(&frame, &mut det, &scroll, &g));
            if i > 4 {
                assert_eq!(fsm.state(), FsmState::Scrolling { tracking_id: 7, slot: 2 });
            }
        }
        actions
    };
    assert!(play(true).iter().any(|action| *action != Action::Nothing));
    assert_eq!(play(true), play(false));
}

#[test]
fn force_idle_resets_state() {
    let mut fsm = Fsm::new(500, 500);
    let mut det = CircularDetector::new();
    let scroll = default_scroll();

    let start = touch(720, 500);
    let theta = PI / 8.0;
    let mid = touch(
        500 + (220.0 * theta.cos()).round() as i32,
        500 + (220.0 * theta.sin()).round() as i32,
    );
    drive(&mut fsm, &mut det, &scroll, &[start, mid]);
    // A third sample completes the evidence.
    drive(&mut fsm, &mut det, &scroll, &[rim_touch(3.0 * PI / 16.0)]);
    assert!(matches!(fsm.state(), FsmState::Scrolling { .. }));

    fsm.force_idle(&mut det);
    assert!(matches!(fsm.state(), FsmState::Idle));
}

#[test]
fn debounce_to_idle_on_next_frame_no_timer() {
    let mut fsm = Fsm::new(500, 500);
    let mut det = CircularDetector::new();
    let scroll = default_scroll();

    let start = touch(720, 500);
    let theta = PI / 8.0;
    let mid_x = 500 + (220.0 * theta.cos()).round() as i32;
    let mid_y = 500 + (220.0 * theta.sin()).round() as i32;
    let mid = touch(mid_x, mid_y);

    // A third sample completes the evidence.
    let third = rim_touch(3.0 * PI / 16.0);
    drive(&mut fsm, &mut det, &scroll, &[start, mid, third, lift()]);
    assert!(matches!(fsm.state(), FsmState::Debounce));

    drive(&mut fsm, &mut det, &scroll, &[lift()]);
    assert!(matches!(fsm.state(), FsmState::Idle));
}

#[test]
fn debounce_to_idle_even_if_finger_back_down() {
    let mut fsm = Fsm::new(500, 500);
    let mut det = CircularDetector::new();
    let scroll = default_scroll();

    let start = touch(720, 500);
    let theta = PI / 8.0;
    let mid_x = 500 + (220.0 * theta.cos()).round() as i32;
    let mid_y = 500 + (220.0 * theta.sin()).round() as i32;
    let mid = touch(mid_x, mid_y);

    // A third sample completes the evidence.
    let third = rim_touch(3.0 * PI / 16.0);
    drive(&mut fsm, &mut det, &scroll, &[start, mid, third, lift()]);
    assert!(matches!(fsm.state(), FsmState::Debounce));

    drive(&mut fsm, &mut det, &scroll, &[touch(720, 500)]);
    assert!(matches!(fsm.state(), FsmState::Idle));
}

#[test]
fn disabled_scroll_holds_idle() {
    let mut fsm = Fsm::new(500, 500);
    let mut det = CircularDetector::new();
    let mut scroll = default_scroll();
    scroll.enable = false;
    drive(
        &mut fsm,
        &mut det,
        &scroll,
        &[touch(720, 500), touch(700, 520), lift()],
    );
    assert!(matches!(fsm.state(), FsmState::Idle));
}

#[test]
fn two_samples_are_not_enough_for_capture() {
    let mut fsm = Fsm::new(500, 500);
    let mut det = CircularDetector::new();
    let scroll = default_scroll();
    drive(&mut fsm, &mut det, &scroll, &[touch(720, 500), rim_touch(PI / 8.0)]);
    assert_eq!(
        fsm.state(),
        FsmState::Moving { tracking_id: PRIMARY_TRACKING_ID, slot: 0 }
    );
}

#[test]
fn radial_motion_is_pointer_input() {
    let mut fsm = Fsm::new(500, 500);
    let mut det = CircularDetector::new();
    let scroll = default_scroll();
    drive(
        &mut fsm,
        &mut det,
        &scroll,
        &[touch(710, 500), touch(735, 500), touch(760, 500)],
    );
    assert_eq!(fsm.state(), FsmState::Passthrough);
}

#[test]
fn a_sustained_straight_tangent_is_pointer_input() {
    let mut fsm = Fsm::new(500, 500);
    let mut det = CircularDetector::new();
    let scroll = default_scroll();
    let frames: Vec<_> = (0..10).map(|i| touch(720, 500 + i * 20)).collect();
    let actions = drive(&mut fsm, &mut det, &scroll, &frames);
    assert!(actions.is_empty());
    assert_eq!(fsm.state(), FsmState::Passthrough);
}

#[test]
fn twenty_undecided_samples_are_pointer_input() {
    // Back and forth along a short stretch: never far enough to sweep, never
    // enough travel across the ring.
    let mut fsm = Fsm::new(500, 500);
    let mut det = CircularDetector::new();
    let scroll = default_scroll();
    for i in 0..19 {
        let y = if i % 2 == 0 { 500 } else { 510 };
        drive(&mut fsm, &mut det, &scroll, &[touch(900, y)]);
        assert!(matches!(fsm.state(), FsmState::Moving { .. }), "sample {i}");
    }
    drive(&mut fsm, &mut det, &scroll, &[touch(900, 510)]);
    assert_eq!(fsm.state(), FsmState::Passthrough);
}

#[test]
fn another_finger_does_not_continue_a_candidate() {
    let mut fsm = Fsm::new(500, 500);
    let mut det = CircularDetector::new();
    let scroll = default_scroll();
    let (x, y) = on_rim(PI / 16.0);
    drive(
        &mut fsm,
        &mut det,
        &scroll,
        &[touch(720, 500), touch_frame(&[(0, PRIMARY_TRACKING_ID + 1, x, y)])],
    );
    assert_eq!(fsm.state(), FsmState::Passthrough);
}

#[test]
fn contact_without_a_known_finger_counts_as_lifted() {
    let mut fsm = Fsm::new(500, 500);
    let mut det = CircularDetector::new();
    let scroll = default_scroll();
    drive(&mut fsm, &mut det, &scroll, &[touch(720, 500)]);
    let blind = TouchFrame { contact: true, touches: Vec::new() };
    drive(&mut fsm, &mut det, &scroll, &[blind]);
    assert_eq!(fsm.state(), FsmState::Idle);
}

#[test]
fn cancelling_gives_a_candidate_up() {
    let mut fsm = Fsm::new(500, 500);
    let mut det = CircularDetector::new();
    let scroll = default_scroll();
    assert!(!fsm.cancel_pending());
    assert_eq!(fsm.state(), FsmState::Idle);
    drive(&mut fsm, &mut det, &scroll, &[touch(720, 500)]);
    assert!(fsm.cancel_pending());
    assert_eq!(fsm.state(), FsmState::Passthrough);
    assert!(!fsm.cancel_pending());
    assert!(!fsm.is_scrolling());
}

fn no_evidence() -> IntentEvidence {
    IntentEvidence {
        swept_trigger: false,
        swept_straight: false,
        tangential_dominates: false,
        radial_travel: false,
        radial_dominates: false,
        turn_aligned: false,
    }
}

#[test]
fn intent_follows_from_the_evidence() {
    let circle = IntentEvidence {
        swept_trigger: true,
        tangential_dominates: true,
        turn_aligned: true,
        ..no_evidence()
    };
    assert_eq!(classify_intent(2, circle), IntentDecision::Pending);
    assert_eq!(classify_intent(3, circle), IntentDecision::Circular);
    assert_eq!(classify_intent(20, circle), IntentDecision::Circular);

    let early = IntentEvidence { turn_aligned: false, ..circle };
    assert_eq!(classify_intent(3, early), IntentDecision::Pending);
    let line = IntentEvidence { swept_straight: true, ..early };
    assert_eq!(classify_intent(3, line), IntentDecision::Pointer);

    // Sweeping the capture angle by itself rejects nothing.
    let swept = IntentEvidence { swept_trigger: true, ..no_evidence() };
    assert_eq!(classify_intent(3, swept), IntentDecision::Pending);
    assert_eq!(classify_intent(19, swept), IntentDecision::Pending);

    let across = IntentEvidence { radial_travel: true, radial_dominates: true, ..no_evidence() };
    assert_eq!(classify_intent(3, across), IntentDecision::Pointer);
    let short = IntentEvidence { radial_dominates: true, ..no_evidence() };
    assert_eq!(classify_intent(3, short), IntentDecision::Pending);
    assert_eq!(classify_intent(19, no_evidence()), IntentDecision::Pending);
    assert_eq!(classify_intent(20, no_evidence()), IntentDecision::Pointer);
}

#[test]
fn wheel_direction_follows_the_flags_and_the_wedge() {
    let south = TouchSample { x: 500, y: 720 };
    let east = TouchSample { x: 720, y: 500 };
    let mut scroll = default_scroll();
    assert_eq!(emit(2, &scroll, 500, 500, south), Action::EmitWheelV(2));
    scroll.reverse_vertical = true;
    assert_eq!(emit(2, &scroll, 500, 500, south), Action::EmitWheelV(-2));
    scroll.horizontal_enable = true;
    assert_eq!(emit(2, &scroll, 500, 500, south), Action::EmitWheelH(2));
    assert_eq!(emit(2, &scroll, 500, 500, east), Action::EmitWheelV(-2));
    scroll.reverse_horizontal = true;
    assert_eq!(emit(2, &scroll, 500, 500, south), Action::EmitWheelH(-2));
}

#[test]
fn capture_loses_none_of_its_motion() {
    // The detector that took in the whole arc at once, and the one that was
    // seeded on capture, turn the wheel equally from then on.
    let scroll = default_scroll();
    let g = geometry();
    let mut fsm = Fsm::new(500, 500);
    let mut seeded = CircularDetector::new();
    let mut direct = CircularDetector::new();
    let mut from_fsm = 0;
    let mut from_direct = 0;
    for i in 0..=18 {
        let (x, y) = on_rim(i as f64 * PI / 18.0);
        match fsm.step(&touch(x, y), &mut seeded, &scroll, &g) {
            Action::EmitWheelV(t) => from_fsm += t,
            Action::EmitWheelH(_) => unreachable!(),
            Action::Nothing => {}
        }
        if direct.push_if_moved(TouchSample { x, y }) {
            from_direct += direct.step(scroll.sensitivity, &g).discrete;
        }
    }
    assert!(fsm.is_scrolling());
    assert_ne!(from_fsm, 0);
    assert_eq!(from_fsm, from_direct);
}

// ---- whole reports ------------------------------------------------------

fn ev(event_type: u16, code: u16, value: i32) -> InputEvent {
    InputEvent { event_type, code, value }
}

fn syn() -> InputEvent {
    ev(EV_SYN, SYN_REPORT, 0)
}

fn down(id: i32, x: i32, y: i32) -> Vec<InputEvent> {
    vec![
        ev(EV_ABS, ABS_MT_SLOT, 0),
        ev(EV_ABS, ABS_MT_TRACKING_ID, id),
        ev(EV_ABS, ABS_MT_POSITION_X, x),
        ev(EV_ABS, ABS_MT_POSITION_Y, y),
        ev(EV_KEY, BTN_TOUCH, 1),
        syn(),
    ]
}

fn to(x: i32, y: i32) -> Vec<InputEvent> {
    vec![ev(EV_ABS, ABS_MT_POSITION_X, x), ev(EV_ABS, ABS_MT_POSITION_Y, y), syn()]
}

fn up() -> Vec<InputEvent> {
    vec![ev(EV_ABS, ABS_MT_TRACKING_ID, -1), ev(EV_KEY, BTN_TOUCH, 0), syn()]
}

fn payload(events: &[InputEvent]) -> Vec<InputEvent> {
    events.iter().copied().filter(|e| e.event_type != EV_SYN).collect()
}

fn pad_device() -> InputDevice {
    let caps = DeviceCaps {
        absolute_axes: Some(vec![ABS_MT_POSITION_X, ABS_MT_POSITION_Y]),
        keys: Some(vec![BTN_TOUCH]),
    };
    let range = AxisRange { minimum: 0, maximum: 1000 };
    InputDevice::open(
        "/dev/input/event4".to_string(),
        &caps,
        Some(PositionRanges { x: range, y: range }),
    )
    .unwrap()
}

fn virtual_pad() -> UinputTouchpad {
    UinputTouchpad::create_from_physical(
        true,
        PhysicalPad {
            name: None,
            keys: Some(vec![BTN_TOUCH]),
            relative_axes: None,
            absolute_axes: None,
            absolute_state: None,
            misc: None,
            properties: Vec::new(),
        },
    )
    .unwrap()
}

struct Bench {
    daemon: Daemon,
    input: InputDevice,
    wheel: UinputWheel,
    pad: UinputTouchpad,
    scroll: Scroll,
}

impl Bench {
    fn new() -> Bench {
        let input = pad_device();
        Bench {
            daemon: Daemon::new(input.center_x, input.center_y),
            input,
            wheel: UinputWheel::create(true).unwrap(),
            pad: virtual_pad(),
            scroll: Scroll::default(),
        }
    }

    fn report(&mut self, events: Vec<InputEvent>, now: u64) -> Outcome {
        let g = geometry();
        self.daemon.on_report(
            &mut self.input,
            &self.wheel,
            &self.pad,
            events,
            &self.scroll,
            &g,
            now,
        )
    }

    fn capture(&mut self) {
        assert!(self.report(down(7, 720, 500), 0).pad.is_empty());
        for i in 1..=2 {
            let (x, y) = on_rim(i as f64 * PI / 16.0);
            assert!(self.report(to(x, y), 0).pad.is_empty());
        }
        assert_eq!(
            self.daemon.state(),
            FsmState::Scrolling { tracking_id: 7, slot: 0 }
        );
    }
}

#[test]
fn ordinary_frames_pass_verbatim() {
    let mut b = Bench::new();
    for events in [down(3, 510, 510), to(530, 520), to(720, 500), up()] {
        let out = b.report(events.clone(), 0);
        assert_eq!(out.pad, vec![payload(&events)]);
        assert!(out.wheel.is_none());
        assert!(!out.watchdog);
    }
    assert_eq!(b.daemon.state(), FsmState::Idle);
}

#[test]
fn a_given_up_candidate_is_replayed_in_order() {
    let mut b = Bench::new();
    let first = down(3, 720, 500);
    let second = to(722, 501);
    let third = to(560, 500);
    assert!(b.report(first.clone(), 0).pad.is_empty());
    assert!(b.report(second.clone(), 0).pad.is_empty());
    let out = b.report(third.clone(), 0);
    assert_eq!(out.pad, vec![payload(&first), payload(&second), payload(&third)]);
    assert!(matches!(b.daemon.state(), FsmState::Contact { .. }));
}

#[test]
fn a_tap_in_the_ring_is_replayed_on_lift() {
    let mut b = Bench::new();
    let tap = down(3, 720, 500);
    assert!(b.report(tap.clone(), 0).pad.is_empty());
    let out = b.report(up(), 0);
    assert_eq!(out.pad, vec![payload(&tap), payload(&up())]);
    assert_eq!(b.daemon.state(), FsmState::Idle);
}

#[test]
fn a_captured_contact_never_reaches_the_pad() {
    let mut b = Bench::new();
    b.capture();
    let mut turned = 0;
    for i in 3..=16 {
        let (x, y) = on_rim(i as f64 * PI / 16.0);
        let out = b.report(to(x, y), 10);
        assert!(out.pad.is_empty());
        if let Some(events) = out.wheel {
            assert_eq!(events.len(), 2);
            assert_eq!(events[0].code, REL_WHEEL_HI_RES);
            assert_eq!(events[1].code, REL_WHEEL);
            assert_eq!(events[0].value, events[1].value * 120);
            assert!(events[1].value < 0);
            turned += 1;
        }
    }
    assert!(turned > 0);
    let mut second_finger = down(8, 510, 510);
    second_finger[0] = ev(EV_ABS, ABS_MT_SLOT, 1);
    assert!(b.report(second_finger, 15).pad.is_empty());
    assert!(matches!(b.daemon.state(), FsmState::Scrolling { tracking_id: 7, slot: 0 }));
    assert!(b.report(vec![ev(EV_ABS, ABS_MT_TRACKING_ID, -1), syn()], 16).pad.is_empty());
    let out = b.report(up(), 20);
    assert!(out.pad.is_empty());
    assert_eq!(b.daemon.state(), FsmState::Debounce);
}

#[test]
fn captured_gestures_in_a_row_never_reach_the_pad() {
    let mut b = Bench::new();
    b.capture();
    assert!(b.report(up(), 10).pad.is_empty());
    assert_eq!(b.daemon.state(), FsmState::Debounce);
    for id in 8..11 {
        // The next report of a real pad is the next touch-down.
        assert!(b.report(down(id, 720, 500), 1000).pad.is_empty());
        assert_eq!(b.daemon.state(), FsmState::Idle);
        for i in 1..=3 {
            let (x, y) = on_rim(i as f64 * PI / 16.0);
            assert!(b.report(to(x, y), 1000).pad.is_empty());
        }
        assert_eq!(b.daemon.state(), FsmState::Scrolling { tracking_id: id, slot: 0 });
        assert!(b.report(up(), 1010).pad.is_empty());
        assert_eq!(b.daemon.state(), FsmState::Debounce);
    }
}

#[test]
fn a_touch_right_after_a_gesture_is_replayed_if_it_is_no_circle() {
    // In the dead zone, as a tap, and as one of two fingers.
    let mut two = to(700, 510);
    two.insert(0, ev(EV_ABS, ABS_MT_TRACKING_ID, 9));
    two.insert(0, ev(EV_ABS, ABS_MT_SLOT, 1));
    for (touch, next) in [
        (down(8, 510, 510), to(520, 520)),
        (down(8, 720, 500), up()),
        (down(8, 720, 500), two),
    ] {
        let mut b = Bench::new();
        b.capture();
        assert!(b.report(up(), 10).pad.is_empty());
        assert!(b.report(touch.clone(), 20).pad.is_empty());
        let out = b.report(next.clone(), 30);
        assert_eq!(out.pad, vec![payload(&touch), payload(&next)]);
    }
}

fn click(value: i32) -> Vec<InputEvent> {
    vec![ev(EV_KEY, 0x110, value), syn()]
}

#[test]
fn button_reports_pass_without_stepping_the_machine() {
    let mut b = Bench::new();
    // On an idle pad and in the dead zone.
    assert_eq!(b.report(click(1), 0).pad, vec![payload(&click(1))]);
    assert_eq!(b.daemon.state(), FsmState::Idle);
    b.report(down(3, 510, 510), 0);
    let trapped = b.daemon.state();
    assert_eq!(b.report(click(0), 0).pad, vec![payload(&click(0))]);
    assert_eq!(b.daemon.state(), trapped);
    b.report(up(), 0);

    // Behind the held frames of a candidate.
    let touch = down(4, 720, 500);
    assert!(b.report(touch.clone(), 0).pad.is_empty());
    let moving = b.daemon.state();
    assert!(b.report(click(1), 0).pad.is_empty());
    assert_eq!(b.daemon.state(), moving);
    let out = b.report(up(), 0);
    assert_eq!(out.pad, vec![payload(&touch), payload(&click(1)), payload(&up())]);

    // Suppressed with a captured stream, but not once it has ended.
    b.capture();
    let scrolling = b.daemon.state();
    let out = b.report(click(1), 0);
    assert!(out.pad.is_empty() && out.wheel.is_none());
    assert_eq!(b.daemon.state(), scrolling);
    b.report(up(), 0);
    assert_eq!(b.report(click(0), 0).pad, vec![payload(&click(0))]);
    assert_eq!(b.daemon.state(), FsmState::Debounce);

    // Behind the touch that follows, which is still captured unseen.
    assert!(b.report(down(8, 720, 500), 0).pad.is_empty());
    assert!(b.report(click(1), 0).pad.is_empty());
    for i in 1..=3 {
        let (x, y) = on_rim(i as f64 * PI / 16.0);
        assert!(b.report(to(x, y), 0).pad.is_empty());
    }
    assert_eq!(b.daemon.state(), FsmState::Scrolling { tracking_id: 8, slot: 0 });
}

#[test]
fn a_touch_with_too_many_reports_behind_it_is_given_up() {
    let mut b = Bench::new();
    b.capture();
    b.report(up(), 0);
    assert!(b.report(down(8, 720, 500), 0).pad.is_empty());
    for i in 2..MAX_HELD_FRAMES {
        assert!(b.report(click(1), 0).pad.is_empty(), "report {i}");
    }
    assert_eq!(b.report(click(0), 0).pad.len(), MAX_HELD_FRAMES);
    assert_eq!(b.daemon.state(), FsmState::Passthrough);
}

#[test]
fn the_watchdog_counts_every_packet() {
    let mut b = Bench::new();
    b.capture();
    assert!(!b.report(click(1), 4000).watchdog);
    let (x, y) = on_rim(3.0 * PI / 16.0);
    assert!(!b.report(to(x, y), 8000).watchdog);
    assert!(b.report(click(0), 13001).watchdog);
    assert_eq!(b.daemon.state(), FsmState::Idle);
}

#[test]
fn sixty_four_held_frames_are_released() {
    let mut b = Bench::new();
    assert!(b.report(down(3, 720, 500), 0).pad.is_empty());
    for i in 1..MAX_HELD_FRAMES - 1 {
        assert!(b.report(to(720, 500), 0).pad.is_empty(), "frame {i}");
        assert!(matches!(b.daemon.state(), FsmState::Moving { .. }));
    }
    let out = b.report(to(720, 500), 0);
    assert_eq!(out.pad.len(), MAX_HELD_FRAMES);
    assert_eq!(out.pad[0], payload(&down(3, 720, 500)));
    assert_eq!(b.daemon.state(), FsmState::Passthrough);
}

#[test]
fn the_watchdog_ends_a_starved_gesture() {
    let mut b = Bench::new();
    assert_eq!(b.daemon.poll_timeout_ms(), -1);
    assert!(!b.daemon.on_timeout());
    b.capture();
    assert_eq!(b.daemon.poll_timeout_ms(), 5000);
    assert!(b.daemon.on_timeout());
    assert_eq!(b.daemon.state(), FsmState::Idle);
}

#[test]
fn the_watchdog_counts_from_the_last_packet() {
    let mut b = Bench::new();
    b.capture();
    let (x, y) = on_rim(3.0 * PI / 16.0);
    assert!(!b.report(to(x, y), 5000).watchdog);
    assert!(!b.report(to(x, y), 10000).watchdog);
    let out = b.report(to(x, y), 15001);
    assert!(out.watchdog);
    assert!(out.pad.is_empty());
    assert_eq!(b.daemon.state(), FsmState::Idle);
}

#[test]
fn the_stream_is_cut_at_report_boundaries() {
    let mut s = ReportSplitter::new();
    let a = ev(EV_ABS, ABS_MT_POSITION_X, 1);
    let b = ev(EV_ABS, ABS_MT_POSITION_X, 2);
    let c = ev(EV_ABS, ABS_MT_POSITION_X, 3);
    assert_eq!(s.push(&vec![a]), Vec::<Vec<InputEvent>>::new());
    assert_eq!(s.push(&vec![syn(), b, syn(), c]), vec![vec![a, syn()], vec![b, syn()]]);
    assert_eq!(s.push(&vec![syn()]), vec![vec![c, syn()]]);
}

#[test]
fn batches_do_not_matter() {
    let stream: Vec<InputEvent> = [down(3, 720, 500), to(700, 560), up()].concat();
    let mut whole = ReportSplitter::new();
    let expected = whole.push(&stream);
    assert_eq!(expected.len(), 3);
    for size in 1..stream.len() {
        let mut s = ReportSplitter::new();
        let mut reports = Vec::new();
        for batch in stream.chunks(size) {
            reports.extend(s.push(&batch.to_vec()));
        }
        assert_eq!(reports, expected, "batches of {size}");

        let mut one = pad_device();
        let mut many = pad_device();
        one.next_frame(&stream);
        for batch in stream.chunks(size) {
            many.next_frame(&batch.to_vec());
        }
        assert_eq!(one.decoder.assemble_frame().touches, many.decoder.assemble_frame().touches);
    }
}

#[test]
fn equal_streams_have_equal_outcomes() {
    let play = || {
        let mut b = Bench::new();
        let mut seen = Vec::new();
        b.capture();
        for i in 3..=12 {
            let (x, y) = on_rim(i as f64 * PI / 16.0);
            let out = b.report(to(x, y), i as u64);
            seen.push((out.wheel, out.pad, out.watchdog, b.daemon.state()));
        }
        seen
    };
    assert_eq!(play(), play());
}

#[test]
fn the_gate_holds_releases_and_discards() {
    let frame = |n: i32| vec![ev(EV_ABS, ABS_MT_POSITION_X, n), syn()];
    let moving = FsmState::Moving { tracking_id: 1, slot: 0 };
    let scrolling = FsmState::Scrolling { tracking_id: 1, slot: 0 };
    let mut g = FrameGate::new();
    let (idle, debounce) = (FsmState::Idle, FsmState::Debounce);
    assert!(g.ration(idle, moving, true, frame(1)).is_empty());
    assert!(g.ration(moving, moving, true, frame(2)).is_empty());
    assert_eq!(g.len(), 2);
    assert_eq!(
        g.ration(moving, FsmState::MultiTouch, true, frame(3)),
        vec![frame(1), frame(2), frame(3)]
    );
    assert_eq!(g.len(), 0);
    assert!(g.ration(idle, moving, true, frame(4)).is_empty());
    assert!(g.ration(moving, scrolling, true, frame(5)).is_empty());
    assert_eq!(g.len(), 0);
    assert!(g.ration_aside(scrolling, frame(5)).is_empty());
    assert!(g.ration(scrolling, debounce, false, frame(6)).is_empty());
    assert_eq!(g.ration_aside(debounce, frame(6)), vec![frame(6)]);
    assert_eq!(g.ration(debounce, idle, false, frame(7)), vec![frame(7)]);
    assert!(g.ration(debounce, idle, true, frame(7)).is_empty());
    assert!(g.ration_aside(idle, frame(8)).is_empty());
    assert_eq!(g.ration(idle, idle, false, frame(9)), vec![frame(7), frame(8), frame(9)]);
    assert!(g.ration(idle, moving, true, frame(8)).is_empty());
    assert_eq!(g.release(), vec![frame(8)]);
}
