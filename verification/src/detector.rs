//! Gates on touch positions, and the curvature detector that integrates the
//! trajectory of a captured finger.

use std::collections::VecDeque;

use vstd::prelude::*;

use crate::geometry::{CurvatureReading, Geometry, GeometryModel, IntentEvidence, Real};

verus! {

/// Squared length of the longest move that still counts as standing still.
pub const SAMPLE_DEADBAND_SQ: i64 = 64;

/// Multipliers of the mean turn, from the least to the most sensitive.
pub const SENSITIVITY_TABLE: [i32; 7] = [5, 7, 10, 14, 20, 28, 40];

/// Samples that the detector remembers.
pub const HISTORY_CAPACITY: usize = 20;

/// Turns that must be smooth before whole notches are drained.
pub const LEGACY_TURNS: usize = 3;

/// One contact position in device units.
#[derive(Clone, Copy, Debug, PartialEq, Eq, Structural)]
pub struct TouchSample {
    pub x: i32,
    pub y: i32,
}

/// Squared distance between two positions.
pub open spec fn distance_sq(a: TouchSample, b: TouchSample) -> int {
    (a.x - b.x) * (a.x - b.x) + (a.y - b.y) * (a.y - b.y)
}

/// The step from `a` to `b` leaves the dead band.
pub open spec fn moved(a: TouchSample, b: TouchSample) -> bool {
    distance_sq(a, b) > SAMPLE_DEADBAND_SQ
}

proof fn lemma_square(a: int, bound: int)
    requires
        -bound <= a <= bound,
    ensures
        0 <= a * a <= bound * bound,
{
    assert(0 <= a * a <= bound * bound) by (nonlinear_arith)
        requires
            -bound <= a <= bound,
    ;
}

/// Whether the step from `a` to `b` leaves the dead band.
pub fn has_moved(a: TouchSample, b: TouchSample) -> (r: bool)
    ensures
        r == moved(a, b),
        r == ((a.x - b.x) * (a.x - b.x) + (a.y - b.y) * (a.y - b.y) > 64),
{
    let dx: i128 = a.x as i128 - b.x as i128;
    let dy: i128 = a.y as i128 - b.y as i128;
    proof {
        lemma_square(dx as int, 0x1_0000_0000);
        lemma_square(dy as int, 0x1_0000_0000);
    }
    dx * dx + dy * dy > SAMPLE_DEADBAND_SQ as i128
}

/// One logical wheel update in both Linux representations.
///
/// `v120` is the high-resolution delta where 120 units equal one detent.
/// `discrete` is the whole-detent approximation. Consumers choose one
/// stream; they must not add the two values together.
#[derive(Clone, Copy, Debug, PartialEq, Eq, Structural)]
pub struct WheelDelta {
    pub v120: i32,
    pub discrete: i32,
}

impl Default for WheelDelta {
    fn default() -> (d: WheelDelta)
        ensures
            d == WheelDelta::none(),
    {
        WheelDelta { v120: 0, discrete: 0 }
    }
}

impl WheelDelta {
    /// No movement.
    pub open spec fn none() -> WheelDelta {
        WheelDelta { v120: 0, discrete: 0 }
    }

    pub fn is_zero(self) -> (r: bool)
        ensures
            r == (self == WheelDelta::none()),
    {
        self.v120 == 0 && self.discrete == 0
    }

    pub fn reversed(self) -> (r: WheelDelta)
        requires
            self.v120 != i32::MIN,
            self.discrete != i32::MIN,
        ensures
            r.v120 == -self.v120,
            r.discrete == -self.discrete,
    {
        WheelDelta { v120: -self.v120, discrete: -self.discrete }
    }
}

impl std::ops::AddAssign for WheelDelta {
    fn add_assign(&mut self, rhs: WheelDelta)
        requires
            i32::MIN <= old(self).v120 + rhs.v120 <= i32::MAX,
            i32::MIN <= old(self).discrete + rhs.discrete <= i32::MAX,
        ensures
            final(self).v120 == old(self).v120 + rhs.v120,
            final(self).discrete == old(self).discrete + rhs.discrete,
    {
        self.v120 = self.v120 + rhs.v120;
        self.discrete = self.discrete + rhs.discrete;
    }
}

/// The centered position lies outside the inner dead zone. The zone's radius
/// is 20 units for each step that the detect area falls short of the whole
/// pad.
pub open spec fn radial_gate(
    center_x: i32,
    center_y: i32,
    s: TouchSample,
    detect_area_width: i32,
) -> bool {
    let shortfall = 10 - clamped(detect_area_width as int, 0, 10);
    distance_sq(s, TouchSample { x: center_x, y: center_y }) >= (20 * shortfall) * (20
        * shortfall)
}

/// `v`, moved to the nearest end of the range if it lies outside.
pub open spec fn clamped(v: int, low: int, high: int) -> int {
    if v < low {
        low
    } else if v > high {
        high
    } else {
        v
    }
}

/// Whether a position lies in the outer ring.
pub fn radial_gate_ok(
    center_x: i32,
    center_y: i32,
    s: TouchSample,
    detect_area_width: i32,
) -> (r: bool)
    ensures
        r == radial_gate(center_x, center_y, s, detect_area_width),
        0 <= detect_area_width <= 10 ==> r == ((s.x - center_x) * (s.x - center_x) + (s.y
            - center_y) * (s.y - center_y) >= (20 * (10 - detect_area_width)) * (20 * (10
            - detect_area_width))),
{
    let dx: i128 = s.x as i128 - center_x as i128;
    let dy: i128 = s.y as i128 - center_y as i128;
    proof {
        lemma_square(dx as int, 0x1_0000_0000);
        lemma_square(dy as int, 0x1_0000_0000);
    }
    let width: i32 = if detect_area_width < 0 {
        0
    } else if detect_area_width > 10 {
        10
    } else {
        detect_area_width
    };
    let w: i128 = (10 - width) as i128;
    proof {
        lemma_square(w as int, 10);
        assert((20 * w) * (20 * w) == (w * w) * 400) by (nonlinear_arith);
    }
    dx * dx + dy * dy >= (w * w) * 400
}

/// Where a vector points, on a dial of sixteen sectors of an eighth of a half
/// turn each, counted from the positive x axis towards the positive y axis.
pub struct Bearing {
    /// The sector, 0 to 15.
    pub sector: int,
    /// The vector lies on the ray at which its sector begins.
    pub on_ray: bool,
}

/// The sector of a vector with `a > 0` and `b >= 0`. The rays inside the
/// quadrant have the slopes `sqrt(2) - 1`, `1` and `sqrt(2) + 1`, and
/// `b < (sqrt(2) - 1) * a` says that the square of `a + b` is below twice the
/// square of `a`.
pub open spec fn quadrant_sector(a: int, b: int) -> int {
    if b < a {
        if (a + b) * (a + b) < 2 * (a * a) {
            0
        } else {
            1
        }
    } else {
        if (a + b) * (a + b) > 2 * (b * b) {
            2
        } else {
            3
        }
    }
}

/// Where `(dx, dy)` points. The zero vector counts as pointing along the
/// positive x axis. Only the rays at multiples of a quarter of a half turn
/// pass through points with integer coordinates.
pub open spec fn bearing(dx: int, dy: int) -> Bearing {
    if dx == 0 && dy == 0 {
        Bearing { sector: 0, on_ray: true }
    } else if dx > 0 && dy >= 0 {
        Bearing { sector: quadrant_sector(dx, dy), on_ray: dy == 0 || dy == dx }
    } else if dx <= 0 && dy > 0 {
        Bearing { sector: 4 + quadrant_sector(dy, -dx), on_ray: dx == 0 || -dx == dy }
    } else if dx < 0 {
        Bearing { sector: 8 + quadrant_sector(-dx, -dy), on_ray: dy == 0 || dy == dx }
    } else {
        Bearing { sector: 12 + quadrant_sector(-dy, dx), on_ray: dx == 0 || dx == -dy }
    }
}

/// The bearing is at or past the ray at which `sector` begins.
pub open spec fn at_or_past(b: Bearing, sector: int) -> bool {
    sector <= b.sector
}

/// The bearing is at or before the ray at which `sector` begins.
pub open spec fn at_or_before(b: Bearing, sector: int) -> bool {
    b.sector < sector || (b.sector == sector && b.on_ray)
}

/// The centered position points into the wedge from the ray of `start` to the
/// ray of `end`, both included. A wedge with `start > end` wraps across zero.
pub open spec fn horizontal_arc(
    center_x: i32,
    center_y: i32,
    s: TouchSample,
    start: i32,
    end: i32,
) -> bool {
    let b = bearing(s.x - center_x, s.y - center_y);
    if start <= end {
        at_or_past(b, start as int) && at_or_before(b, end as int)
    } else {
        at_or_past(b, start as int) || at_or_before(b, end as int)
    }
}

fn first_quadrant_sector(a: i128, b: i128) -> (r: i32)
    requires
        0 <= a <= 0x1_0000_0000,
        0 <= b <= 0x1_0000_0000,
    ensures
        r == quadrant_sector(a as int, b as int),
        0 <= r <= 3,
{
    proof {
        lemma_square(a as int, 0x1_0000_0000);
        lemma_square(b as int, 0x1_0000_0000);
        lemma_square(a + b, 0x2_0000_0000);
    }
    let sum: i128 = (a + b) * (a + b);
    if b < a {
        if sum < 2 * (a * a) {
            0
        } else {
            1
        }
    } else {
        if sum > 2 * (b * b) {
            2
        } else {
            3
        }
    }
}

/// Whether the centered position points into the configured wedge, in units
/// of an eighth of a half turn. Only meant for when horizontal scrolling is
/// enabled: vertical scrolling is never gated by angle.
pub fn within_horizontal_arc(
    center_x: i32,
    center_y: i32,
    s: TouchSample,
    horizontal_start: i32,
    horizontal_end: i32,
) -> (r: bool)
    ensures
        r == horizontal_arc(center_x, center_y, s, horizontal_start, horizontal_end),
{
    let dx: i128 = s.x as i128 - center_x as i128;
    let dy: i128 = s.y as i128 - center_y as i128;
    let sector: i32;
    let on_ray: bool;
    if dx == 0 && dy == 0 {
        sector = 0;
        on_ray = true;
    } else if dx > 0 && dy >= 0 {
        sector = first_quadrant_sector(dx, dy);
        on_ray = dy == 0 || dy == dx;
    } else if dx <= 0 && dy > 0 {
        sector = 4 + first_quadrant_sector(dy, -dx);
        on_ray = dx == 0 || -dx == dy;
    } else if dx < 0 {
        sector = 8 + first_quadrant_sector(-dx, -dy);
        on_ray = dy == 0 || dy == dx;
    } else {
        sector = 12 + first_quadrant_sector(-dy, dx);
        on_ray = dx == 0 || dx == -dy;
    }
    let past_start: bool = horizontal_start <= sector;
    let before_end: bool = sector < horizontal_end || (sector == horizontal_end && on_ray);
    if horizontal_start <= horizontal_end {
        past_start && before_end
    } else {
        past_start || before_end
    }
}

/// The motion vector from `from` to `to`. Standing still counts as a move
/// along the positive x axis.
pub open spec fn heading(from: TouchSample, to: TouchSample) -> (int, int) {
    if from == to {
        (1, 0)
    } else {
        (to.x - from.x, to.y - from.y)
    }
}

/// `|v|`.
pub open spec fn magnitude(v: int) -> int {
    if v < 0 {
        -v
    } else {
        v
    }
}

/// The heading turns by more than an eighth of a full turn between the step
/// from `oldest` to `middle` and the step from `middle` to `newest`. The sine
/// and cosine of the turn are in the proportion of the cross and the dot
/// product of the two headings.
pub open spec fn sharp_turn(newest: TouchSample, middle: TouchSample, oldest: TouchSample) -> bool {
    let u = heading(middle, newest);
    let v = heading(oldest, middle);
    let dot = u.0 * v.0 + u.1 * v.1;
    let cross = u.0 * v.1 - u.1 * v.0;
    dot <= 0 || magnitude(cross) > dot
}

fn heading_of(from: TouchSample, to: TouchSample) -> (r: (i128, i128))
    ensures
        (r.0 as int, r.1 as int) == heading(from, to),
        -0x1_0000_0000 <= r.0 <= 0x1_0000_0000,
        -0x1_0000_0000 <= r.1 <= 0x1_0000_0000,
{
    if from.x == to.x && from.y == to.y {
        (1, 0)
    } else {
        (to.x as i128 - from.x as i128, to.y as i128 - from.y as i128)
    }
}

proof fn lemma_product(a: int, b: int, bound: int)
    requires
        -bound <= a <= bound,
        -bound <= b <= bound,
    ensures
        -(bound * bound) <= a * b <= bound * bound,
{
    assert(-(bound * bound) <= a * b <= bound * bound) by (nonlinear_arith)
        requires
            -bound <= a <= bound,
            -bound <= b <= bound,
    ;
}

/// Whether the trajectory turns too sharply to be part of a circle.
pub fn is_sharp_turn(newest: TouchSample, middle: TouchSample, oldest: TouchSample) -> (r: bool)
    ensures
        r == sharp_turn(newest, middle, oldest),
{
    let u: (i128, i128) = heading_of(middle, newest);
    let v: (i128, i128) = heading_of(oldest, middle);
    proof {
        lemma_product(u.0 as int, v.0 as int, 0x1_0000_0000);
        lemma_product(u.1 as int, v.1 as int, 0x1_0000_0000);
        lemma_product(u.0 as int, v.1 as int, 0x1_0000_0000);
        lemma_product(u.1 as int, v.0 as int, 0x1_0000_0000);
    }
    let dot: i128 = u.0 * v.0 + u.1 * v.1;
    let cross: i128 = u.0 * v.1 - u.1 * v.0;
    let size: i128 = if cross < 0 {
        -cross
    } else {
        cross
    };
    dot <= 0 || size > dot
}

/// How many turns, from the newest back, come before the first sharp one.
/// `history` is newest first.
pub open spec fn smooth_turns(history: Seq<TouchSample>) -> int
    decreases history.len(),
{
    if history.len() < 3 || sharp_turn(history[0], history[1], history[2]) {
        0
    } else {
        1 + smooth_turns(history.drop_first())
    }
}

/// The run of smooth turns is long enough to be integrated. With three or
/// four samples one turn is enough; a longer history whose run is shorter
/// than three was cut by noise.
pub open spec fn usable(available: int, valid: int) -> bool {
    valid > 0 && (available < LEGACY_TURNS || valid >= LEGACY_TURNS)
}

/// The multiplier that a sensitivity setting selects.
pub open spec fn sensitivity_multiplier(adjust: i32) -> i32 {
    SENSITIVITY_TABLE[clamped(adjust as int, -4, 2) + 4]
}

/// What a detector remembers: the stored samples, newest first, the last one
/// that left the dead band, and the two carried doubles.
pub struct DetectorView {
    pub history: Seq<TouchSample>,
    pub last_stored: Option<TouchSample>,
    pub accumulator: Real,
    pub v120_remainder: Real,
}

impl DetectorView {
    /// Nothing seen yet.
    pub open spec fn fresh() -> DetectorView {
        DetectorView {
            history: Seq::empty(),
            last_stored: None,
            accumulator: Real::zero(),
            v120_remainder: Real::zero(),
        }
    }

    /// The history is bounded, its newest sample is the last one stored, and
    /// each step in it left the dead band.
    pub open spec fn wf(self) -> bool {
        &&& self.history.len() <= HISTORY_CAPACITY
        &&& self.last_stored == if self.history.len() == 0 {
            None
        } else {
            Some(self.history[0])
        }
        &&& forall|i: int|
            0 <= i < self.history.len() - 1 ==> moved(
                #[trigger] self.history[i],
                self.history[i + 1],
            )
    }

    /// The sample is the first, or leaves the dead band of the last one.
    pub open spec fn accepts(self, s: TouchSample) -> bool {
        self.last_stored matches Some(prev) ==> moved(s, prev)
    }

    /// The detector with `s` as its newest sample; a full history forgets its
    /// oldest.
    pub open spec fn store(self, s: TouchSample) -> DetectorView {
        let kept = if self.history.len() == HISTORY_CAPACITY {
            self.history.drop_last()
        } else {
            self.history
        };
        DetectorView { history: seq![s] + kept, last_stored: Some(s), ..self }
    }

    /// The number of turns in the history.
    pub open spec fn available(self) -> int {
        self.history.len() - 2
    }

    /// The history holds a run of turns that can be integrated.
    pub open spec fn ready(self) -> bool {
        &&& self.history.len() >= 3
        &&& usable(self.available(), smooth_turns(self.history))
    }

    /// The samples of the run of smooth turns, newest first.
    pub open spec fn run(self) -> Seq<TouchSample> {
        self.history.take(smooth_turns(self.history) + 2)
    }

    /// The detector after a reading of its run: the remainder is always
    /// carried on, the accumulator only once whole notches are drained.
    pub open spec fn settled(self, reading: CurvatureReading) -> DetectorView {
        DetectorView {
            v120_remainder: reading.v120_remainder,
            accumulator: if smooth_turns(self.history) >= LEGACY_TURNS {
                reading.accumulator
            } else {
                self.accumulator
            },
            ..self
        }
    }

    /// The movement that a reading of the run amounts to.
    pub open spec fn delta(self, reading: CurvatureReading) -> WheelDelta {
        WheelDelta {
            v120: reading.v120,
            discrete: if smooth_turns(self.history) >= LEGACY_TURNS {
                reading.notches
            } else {
                0
            },
        }
    }

    /// `reading` is an answer to what the detector asks about its run.
    pub open spec fn measured(self, adjust: i32, g: GeometryModel, reading: CurvatureReading) -> bool {
        (g.curvature)(
            self.run(),
            sensitivity_multiplier(adjust),
            self.accumulator,
            self.v120_remainder,
            reading,
        )
    }

    /// Integrating the newest sample may lead to `post` and the movement
    /// `delta`.
    pub open spec fn integrates(
        self,
        adjust: i32,
        g: GeometryModel,
        post: DetectorView,
        delta: WheelDelta,
    ) -> bool {
        if self.ready() {
            exists|reading: CurvatureReading| #[trigger]
                self.measured(adjust, g, reading) && post == self.settled(reading) && delta
                    == self.delta(reading)
        } else {
            post == self && delta == WheelDelta::none()
        }
    }
}

/// The curvature detector: a bounded history of samples and the two doubles
/// that integration carries from one sample to the next.
pub struct CircularDetector {
    history: VecDeque<TouchSample>,
    last_stored: Option<TouchSample>,
    accumulator: Real,
    v120_remainder: Real,
}

impl View for CircularDetector {
    type V = DetectorView;

    closed spec fn view(&self) -> DetectorView {
        DetectorView {
            history: self.history@,
            last_stored: self.last_stored,
            accumulator: self.accumulator,
            v120_remainder: self.v120_remainder,
        }
    }
}

impl Default for CircularDetector {
    fn default() -> (d: CircularDetector)
        ensures
            d@ == DetectorView::fresh(),
            d@.wf(),
    {
        CircularDetector::new()
    }
}

impl CircularDetector {
    pub fn new() -> (d: CircularDetector)
        ensures
            d@ == DetectorView::fresh(),
            d@.wf(),
    {
        CircularDetector {
            history: VecDeque::with_capacity(HISTORY_CAPACITY),
            last_stored: None,
            accumulator: Real { bits: 0 },
            v120_remainder: Real { bits: 0 },
        }
    }

    pub fn on_gesture_start(&mut self)
        ensures
            final(self)@ == DetectorView::fresh(),
            final(self)@.wf(),
    {
        self.history.clear();
        self.last_stored = None;
        self.accumulator = Real { bits: 0 };
        self.v120_remainder = Real { bits: 0 };
    }

    /// Store the sample if it left the dead band of the previously stored
    /// one. Returns `true` only when it was stored. Callers must not run
    /// [`Self::step`] otherwise: that would integrate the same turns again
    /// for every report of a resting finger.
    pub fn push_if_moved(&mut self, s: TouchSample) -> (stored: bool)
        requires
            old(self)@.wf(),
        ensures
            stored == old(self)@.accepts(s),
            final(self)@ == if old(self)@.accepts(s) {
                old(self)@.store(s)
            } else {
                old(self)@
            },
            final(self)@.wf(),
    {
        if let Some(prev) = self.last_stored {
            if !has_moved(s, prev) {
                return false;
            }
        }
        self.last_stored = Some(s);
        if self.history.len() == HISTORY_CAPACITY {
            self.history.pop_back();
        }
        self.history.push_front(s);
        proof {
            lemma_store_wf(old(self)@, s);
            assert(self.history@ =~= old(self)@.store(s).history);
        }
        true
    }

    /// The run of turns before the first sharp one.
    fn count_smooth_turns(&self) -> (valid: usize)
        requires
            self@.wf(),
            self@.history.len() >= 3,
        ensures
            valid == smooth_turns(self@.history),
            valid <= self@.available(),
    {
        let n: usize = self.history.len();
        let available: usize = n - 2;
        let mut valid: usize = 0;
        proof {
            assert(self@.history.skip(0) =~= self@.history);
        }
        while valid < available && !is_sharp_turn(
            self.history[valid],
            self.history[valid + 1],
            self.history[valid + 2],
        )
            invariant
                n == self@.history.len(),
                self@.history == self.history@,
                available == n - 2,
                n >= 3,
                n <= HISTORY_CAPACITY,
                0 <= valid <= available,
                smooth_turns(self@.history) == valid + smooth_turns(
                    self@.history.skip(valid as int),
                ),
            ensures
                valid <= available,
                smooth_turns(self@.history) == valid,
            decreases available - valid,
        {
            proof {
                let rest = self@.history.skip(valid as int);
                assert(rest[0] == self@.history[valid as int]);
                assert(rest[1] == self@.history[valid + 1]);
                assert(rest[2] == self@.history[valid + 2]);
                assert(rest.drop_first() =~= self@.history.skip(valid + 1));
            }
            valid = valid + 1;
        }
        valid
    }

    /// Integrate the newest sample into both high-resolution movement and
    /// whole notches. Positive curvature maps to negative wheel movement; the
    /// user-facing reversal is applied by the state machine.
    pub fn step<E, C>(&mut self, scroll_speed_adjust: i32, geometry: &Geometry<E, C>) -> (delta:
        WheelDelta) where
        E: Fn(i32, i32, &Vec<TouchSample>) -> IntentEvidence,
        C: Fn(&Vec<TouchSample>, i32, Real, Real) -> CurvatureReading,

        requires
            old(self)@.wf(),
            geometry.total(),
        ensures
            old(self)@.integrates(scroll_speed_adjust, geometry.model(), final(self)@, delta),
            final(self)@.wf(),
            final(self)@.history == old(self)@.history,
            final(self)@.last_stored == old(self)@.last_stored,
    {
        let n: usize = self.history.len();
        if n < 3 {
            return WheelDelta { v120: 0, discrete: 0 };
        }
        let valid: usize = self.count_smooth_turns();
        if valid == 0 || (n - 2 >= LEGACY_TURNS && valid < LEGACY_TURNS) {
            return WheelDelta { v120: 0, discrete: 0 };
        }
        let index: i32 = if scroll_speed_adjust < -4 {
            0
        } else if scroll_speed_adjust > 2 {
            6
        } else {
            scroll_speed_adjust + 4
        };
        let sensitivity: i32 = SENSITIVITY_TABLE[index as usize];
        let run: Vec<TouchSample> = self.newest(valid + 2);
        let reading: CurvatureReading = geometry.ask_curvature(
            &run,
            sensitivity,
            self.accumulator,
            self.v120_remainder,
        );
        proof {
            assert(old(self)@.measured(scroll_speed_adjust, geometry.model(), reading));
        }
        self.settle(valid, reading)
    }

    /// Take over the reading of a run of `valid` smooth turns.
    fn settle(&mut self, valid: usize, reading: CurvatureReading) -> (delta: WheelDelta)
        requires
            old(self)@.wf(),
            valid == smooth_turns(old(self)@.history),
        ensures
            final(self)@ == old(self)@.settled(reading),
            delta == old(self)@.delta(reading),
            final(self)@.v120_remainder == reading.v120_remainder,
            valid >= LEGACY_TURNS ==> final(self)@.accumulator == reading.accumulator
                && delta.discrete == reading.notches,
    {
        self.v120_remainder = reading.v120_remainder;
        let mut discrete: i32 = 0;
        if valid >= LEGACY_TURNS {
            self.accumulator = reading.accumulator;
            discrete = reading.notches;
        }
        WheelDelta { v120: reading.v120, discrete }
    }

    /// The `count` newest samples, newest first.
    fn newest(&self, count: usize) -> (samples: Vec<TouchSample>)
        requires
            count <= self@.history.len(),
        ensures
            samples@ == self@.history.take(count as int),
    {
        let mut samples: Vec<TouchSample> = Vec::with_capacity(count);
        let mut i: usize = 0;
        while i < count
            invariant
                0 <= i <= count,
                count <= self@.history.len(),
                self@.history == self.history@,
                samples@ == self@.history.take(i as int),
            decreases count - i,
        {
            samples.push(self.history[i]);
            i = i + 1;
        }
        samples
    }

    /// Replace the accumulator, to drive the drain without a gesture.
    pub fn set_accumulator_for_test(&mut self, v: Real)
        ensures
            final(self)@ == (DetectorView { accumulator: v, ..old(self)@ }),
    {
        self.accumulator = v;
    }
}

/// Storing an accepted sample keeps the detector well formed.
pub proof fn lemma_store_wf(d: DetectorView, s: TouchSample)
    requires
        d.wf(),
        d.accepts(s),
    ensures
        d.store(s).wf(),
{
    let post = d.store(s);
    assert forall|i: int| 0 <= i < post.history.len() - 1 implies moved(
        #[trigger] post.history[i],
        post.history[i + 1],
    ) by {
        if i > 0 {
            assert(post.history[i] == d.history[i - 1]);
            assert(post.history[i + 1] == d.history[i]);
            assert(moved(d.history[i - 1], d.history[i - 1 + 1]));
        }
    }
}

/// Every vector points into one of the sixteen sectors.
pub proof fn law_bearing_is_on_the_dial(dx: int, dy: int)
    ensures
        0 <= bearing(dx, dy).sector < 16,
{
}

/// A quarter turn moves a bearing by four sectors.
pub proof fn law_quarter_turn_moves_four_sectors(dx: int, dy: int)
    requires
        dx != 0 || dy != 0,
    ensures
        bearing(-dy, dx).sector == (bearing(dx, dy).sector + 4) % 16,
        bearing(-dy, dx).on_ray == bearing(dx, dy).on_ray,
{
}

proof fn lemma_scaled_squares(k: int, u: int, v: int)
    requires
        k > 0,
    ensures
        (k * u) * (k * u) < 2 * ((k * v) * (k * v)) <==> u * u < 2 * (v * v),
        (k * u) * (k * u) > 2 * ((k * v) * (k * v)) <==> u * u > 2 * (v * v),
{
    let s = k * k;
    let m = u * u;
    let n = 2 * (v * v);
    assert(s > 0) by (nonlinear_arith)
        requires
            k > 0,
            s == k * k,
    ;
    assert((k * u) * (k * u) == s * m) by (nonlinear_arith)
        requires
            s == k * k,
            m == u * u,
    ;
    assert(2 * ((k * v) * (k * v)) == s * n) by (nonlinear_arith)
        requires
            s == k * k,
            n == 2 * (v * v),
    ;
    assert((s * m < s * n) == (m < n)) by (nonlinear_arith)
        requires
            s > 0,
    ;
    assert((s * m > s * n) == (m > n)) by (nonlinear_arith)
        requires
            s > 0,
    ;
}

proof fn lemma_scaled_sign(k: int, v: int)
    requires
        k > 0,
    ensures
        k * v > 0 <==> v > 0,
        k * v < 0 <==> v < 0,
{
    assert((k * v > 0) == (v > 0)) by (nonlinear_arith)
        requires
            k > 0,
    ;
    assert((k * v < 0) == (v < 0)) by (nonlinear_arith)
        requires
            k > 0,
    ;
}

proof fn lemma_quadrant_scale(k: int, a: int, b: int)
    requires
        k > 0,
    ensures
        quadrant_sector(k * a, k * b) == quadrant_sector(a, b),
        k * b == k * a <==> a == b,
{
    assert(k * a + k * b == k * (a + b)) by (nonlinear_arith);
    lemma_scaled_squares(k, a + b, a);
    lemma_scaled_squares(k, a + b, b);
    lemma_scaled_sign(k, a - b);
    assert(k * (a - b) == k * a - k * b) by (nonlinear_arith);
}

/// A bearing depends on the direction alone, not on the distance.
pub proof fn law_bearing_ignores_distance(k: int, dx: int, dy: int)
    requires
        k > 0,
    ensures
        bearing(k * dx, k * dy) == bearing(dx, dy),
{
    lemma_scaled_sign(k, dx);
    lemma_scaled_sign(k, dy);
    assert(k * (-dx) == -(k * dx) && k * (-dy) == -(k * dy)) by (nonlinear_arith);
    lemma_quadrant_scale(k, dx, dy);
    lemma_quadrant_scale(k, dy, -dx);
    lemma_quadrant_scale(k, -dx, -dy);
    lemma_quadrant_scale(k, -dy, dx);
    lemma_scaled_sign(k, dx - dy);
    lemma_scaled_sign(k, dx + dy);
    assert(k * (dx - dy) == k * dx - k * dy && k * (dx + dy) == k * dx + k * dy)
        by (nonlinear_arith);
}

/// Two wedges with the same two rays, taken in both orders, cover the pad.
pub proof fn law_opposite_wedges_cover_the_pad(
    center_x: i32,
    center_y: i32,
    s: TouchSample,
    start: i32,
    end: i32,
)
    requires
        start != end,
    ensures
        horizontal_arc(center_x, center_y, s, start, end) || horizontal_arc(
            center_x,
            center_y,
            s,
            end,
            start,
        ),
{
}

/// With the detect area at its widest the whole pad is in the ring.
pub proof fn law_widest_area_accepts_everything(
    center_x: i32,
    center_y: i32,
    s: TouchSample,
    detect_area_width: i32,
)
    requires
        detect_area_width >= 10,
    ensures
        radial_gate(center_x, center_y, s, detect_area_width),
{
    let dx = s.x - center_x;
    let dy = s.y - center_y;
    assert(dx * dx >= 0 && dy * dy >= 0) by (nonlinear_arith);
}

/// Widening the detect area never shuts a position out.
pub proof fn law_wider_area_accepts_more(
    center_x: i32,
    center_y: i32,
    s: TouchSample,
    width: i32,
    wider: i32,
)
    requires
        width <= wider,
        radial_gate(center_x, center_y, s, width),
    ensures
        radial_gate(center_x, center_y, s, wider),
{
    let a = 10 - clamped(width as int, 0, 10);
    let b = 10 - clamped(wider as int, 0, 10);
    assert((20 * b) * (20 * b) <= (20 * a) * (20 * a)) by (nonlinear_arith)
        requires
            0 <= b <= a,
    ;
}

/// A sample is accepted once at most: reported again from the same place, it
/// lies in its own dead band.
pub proof fn law_stored_sample_is_not_accepted_again(d: DetectorView, s: TouchSample)
    ensures
        !d.store(s).accepts(s),
{
    assert(distance_sq(s, s) == 0) by (nonlinear_arith)
        requires
            distance_sq(s, s) == (s.x - s.x) * (s.x - s.x) + (s.y - s.y) * (s.y - s.y),
    ;
}

/// A trajectory whose newest turn is sharp moves nothing and leaves no trace:
/// a zig-zag never scrolls.
pub proof fn law_sharp_turn_moves_nothing(
    d: DetectorView,
    adjust: i32,
    g: GeometryModel,
    post: DetectorView,
    delta: WheelDelta,
)
    requires
        d.history.len() >= 3,
        sharp_turn(d.history[0], d.history[1], d.history[2]),
        d.integrates(adjust, g, post, delta),
    ensures
        post == d,
        delta == WheelDelta::none(),
{
}

/// Whole notches need three smooth turns; fewer move the high-resolution
/// stream alone.
pub proof fn law_notches_need_three_turns(
    d: DetectorView,
    adjust: i32,
    g: GeometryModel,
    post: DetectorView,
    delta: WheelDelta,
)
    requires
        d.integrates(adjust, g, post, delta),
        smooth_turns(d.history) < LEGACY_TURNS,
    ensures
        delta.discrete == 0,
        post.accumulator == d.accumulator,
{
}

/// A turn is as sharp from the other side: mirroring the trajectory changes
/// nothing.
pub proof fn law_sharpness_is_symmetric(
    a: TouchSample,
    b: TouchSample,
    c: TouchSample,
    ma: TouchSample,
    mb: TouchSample,
    mc: TouchSample,
)
    requires
        a != b,
        b != c,
        ma.x == a.x && mb.x == b.x && mc.x == c.x,
        ma.y == -a.y && mb.y == -b.y && mc.y == -c.y,
    ensures
        sharp_turn(a, b, c) == sharp_turn(ma, mb, mc),
{
    let u = heading(b, a);
    let v = heading(c, b);
    assert((-u.1) * (-v.1) == u.1 * v.1) by (nonlinear_arith);
    assert(u.0 * (-v.1) == -(u.0 * v.1)) by (nonlinear_arith);
    assert((-u.1) * v.0 == -(u.1 * v.0)) by (nonlinear_arith);
}

/// A finger that keeps its heading makes no sharp turn, whatever the lengths
/// of its steps.
pub proof fn law_straight_line_is_smooth(
    a: TouchSample,
    b: TouchSample,
    c: TouchSample,
    k: int,
    m: int,
    dx: int,
    dy: int,
)
    requires
        k > 0,
        m > 0,
        dx != 0 || dy != 0,
        a.x - b.x == k * dx,
        a.y - b.y == k * dy,
        b.x - c.x == m * dx,
        b.y - c.y == m * dy,
    ensures
        !sharp_turn(a, b, c),
{
    lemma_scaled_sign(k, dx);
    lemma_scaled_sign(k, dy);
    lemma_scaled_sign(m, dx);
    lemma_scaled_sign(m, dy);
    let u = heading(b, a);
    let v = heading(c, b);
    assert(u.0 * v.1 == u.1 * v.0) by (nonlinear_arith)
        requires
            u.0 == k * dx,
            u.1 == k * dy,
            v.0 == m * dx,
            v.1 == m * dy,
    ;
    assert(u.0 * v.0 + u.1 * v.1 > 0) by {
        let km = k * m;
        let q = dx * dx + dy * dy;
        assert(km > 0) by (nonlinear_arith)
            requires
                k > 0,
                m > 0,
                km == k * m,
        ;
        assert(q > 0) by (nonlinear_arith)
            requires
                dx != 0 || dy != 0,
                q == dx * dx + dy * dy,
        ;
        assert(u.0 * v.0 + u.1 * v.1 == km * q) by (nonlinear_arith)
            requires
                u.0 == k * dx,
                u.1 == k * dy,
                v.0 == m * dx,
                v.1 == m * dy,
                km == k * m,
                q == dx * dx + dy * dy,
        ;
        lemma_scaled_sign(km, q);
    }
}

} // verus!
