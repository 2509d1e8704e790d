//! What the gates and the curvature detector are for, said of positions,
//! turns and readings.

use vstd::prelude::*;

use crate::detector::{DetectorView, TouchSample, WheelDelta};
use crate::geometry::{CurvatureReading, Geometry, GeometryModel, IntentEvidence, Real};

verus! {

proof fn lemma_square_of_negation(a: int)
    ensures
        (-a) * (-a) == a * a,
{
    assert((-a) * (-a) == a * a) by (nonlinear_arith);
}

/// A position is in the ring exactly if its distance from the centre reaches
/// the radius of the dead zone: twenty units for each of the ten steps that
/// the detect area leaves out. Widths outside 0 to 10 count as the nearest
/// end.
pub proof fn law_ring_begins_at_the_radius(
    center_x: i32,
    center_y: i32,
    s: TouchSample,
    detect_area_width: i32,
    radius: int,
)
    requires
        detect_area_width <= 0 ==> radius == 200,
        0 < detect_area_width < 10 ==> radius == 200 - 20 * detect_area_width,
        detect_area_width >= 10 ==> radius == 0,
    ensures
        crate::detector::radial_gate(center_x, center_y, s, detect_area_width) <==> (s.x - center_x)
            * (s.x - center_x) + (s.y - center_y) * (s.y - center_y) >= radius * radius,
{
}

/// Whether a position is in the ring depends on its distance from the centre
/// alone: not on the sign of either offset, nor on which axis carries which,
/// nor on where the centre lies.
pub proof fn law_ring_is_round(
    center_x: i32,
    center_y: i32,
    s: TouchSample,
    other_x: i32,
    other_y: i32,
    t: TouchSample,
    detect_area_width: i32,
)
    requires
        ({
            let dx = s.x - center_x;
            let dy = s.y - center_y;
            let ex = t.x - other_x;
            let ey = t.y - other_y;
            ||| (ex == dx || ex == -dx) && (ey == dy || ey == -dy)
            ||| (ex == dy || ex == -dy) && (ey == dx || ey == -dx)
        }),
    ensures
        crate::detector::radial_gate(center_x, center_y, s, detect_area_width)
            == crate::detector::radial_gate(other_x, other_y, t, detect_area_width),
{
    lemma_square_of_negation(s.x - center_x);
    lemma_square_of_negation(s.y - center_y);
}

/// Moving away from the centre along either axis does not leave the ring.
pub proof fn law_ring_is_outermost(
    center_x: i32,
    center_y: i32,
    s: TouchSample,
    t: TouchSample,
    detect_area_width: i32,
)
    requires
        crate::detector::radial_gate(center_x, center_y, s, detect_area_width),
        crate::detector::magnitude(s.x - center_x) <= crate::detector::magnitude(t.x - center_x),
        crate::detector::magnitude(s.y - center_y) <= crate::detector::magnitude(t.y - center_y),
    ensures
        crate::detector::radial_gate(center_x, center_y, t, detect_area_width),
{
    lemma_larger_square(s.x - center_x, t.x - center_x);
    lemma_larger_square(s.y - center_y, t.y - center_y);
}

proof fn lemma_larger_square(a: int, b: int)
    requires
        crate::detector::magnitude(a) <= crate::detector::magnitude(b),
    ensures
        a * a <= b * b,
{
    assert(a * a <= b * b) by (nonlinear_arith)
        requires
            -b <= a <= b || b <= a <= -b,
    ;
}

/// A step leaves the dead band exactly if it is longer than eight units, in
/// whichever direction and wherever it is made.
pub proof fn law_dead_band_is_eight_units(a: TouchSample, b: TouchSample)
    ensures
        crate::detector::moved(a, b) <==> (a.x - b.x) * (a.x - b.x) + (a.y - b.y) * (a.y - b.y) > 8
            * 8,
        crate::detector::moved(a, b) == crate::detector::moved(b, a),
        a.y == b.y ==> (crate::detector::moved(a, b) <==> a.x - b.x > 8 || b.x - a.x > 8),
        a.x == b.x ==> (crate::detector::moved(a, b) <==> a.y - b.y > 8 || b.y - a.y > 8),
{
    let dx = a.x - b.x;
    let dy = a.y - b.y;
    lemma_square_of_negation(dx);
    lemma_square_of_negation(dy);
    assert(dx * dx > 64 <==> dx > 8 || dx < -8) by (nonlinear_arith);
    assert(dy * dy > 64 <==> dy > 8 || dy < -8) by (nonlinear_arith);
    assert(dx == 0 ==> dx * dx == 0) by (nonlinear_arith);
    assert(dy == 0 ==> dy * dy == 0) by (nonlinear_arith);
}

/// A vector points into a quadrant by the signs of its coordinates, and lies
/// on a ray exactly if it runs along an axis or a diagonal. No vector at all
/// counts as one along the positive x axis.
pub proof fn law_bearing_follows_the_quadrant(dx: int, dy: int)
    ensures
        crate::detector::bearing(0, 0) == crate::detector::bearing(1, 0),
        dx != 0 || dy != 0 ==> ({
            let b = crate::detector::bearing(dx, dy);
            &&& 0 <= b.sector < 4 <==> dx > 0 && dy >= 0
            &&& 4 <= b.sector < 8 <==> dx <= 0 && dy > 0
            &&& 8 <= b.sector < 12 <==> dx < 0 && dy <= 0
            &&& 12 <= b.sector < 16 <==> dx >= 0 && dy < 0
            &&& b.on_ray <==> dx == 0 || dy == 0 || dx == dy || dx == -dy
        }),
{
}

/// Doubling the angle of a vector doubles its bearing. With the quadrants this
/// fixes where every sector begins.
pub proof fn law_doubled_angle_doubles_the_bearing(dx: int, dy: int)
    requires
        dx != 0 || dy != 0,
    ensures
        crate::detector::bearing(dx * dx - dy * dy, 2 * (dx * dy)).sector / 2
            == crate::detector::bearing(dx, dy).sector % 8,
{
    if dx > 0 && dy >= 0 {
        lemma_doubled_in_quadrant(dx, dy);
    } else if dx <= 0 && dy > 0 {
        lemma_doubled_in_quadrant(dy, -dx);
        lemma_doubled_after_quarter_turn(dy, -dx);
    } else if dx < 0 {
        lemma_doubled_in_quadrant(-dx, -dy);
        lemma_square_of_negation(dx);
        lemma_square_of_negation(dy);
        assert((-dx) * (-dy) == dx * dy) by (nonlinear_arith);
    } else {
        lemma_doubled_in_quadrant(-dy, dx);
        lemma_doubled_after_quarter_turn(-dy, dx);
        assert((-dy) * dx == -(dx * dy)) by (nonlinear_arith);
        lemma_square_of_negation(dy);
    }
}

proof fn lemma_doubled_in_quadrant(a: int, b: int)
    requires
        a > 0,
        b >= 0,
    ensures
        crate::detector::bearing(a * a - b * b, 2 * (a * b)).sector / 2
            == crate::detector::quadrant_sector(a, b),
        0 <= crate::detector::quadrant_sector(a, b) < 4,
        a * a - b * b != 0 || 2 * (a * b) != 0,
{
    let p = a * a - b * b;
    let q = 2 * (a * b);
    assert((a + b) * (a + b) == a * a + 2 * (a * b) + b * b) by (nonlinear_arith);
    assert(a * b >= 0) by (nonlinear_arith)
        requires
            a > 0,
            b >= 0,
    ;
    assert(b < a ==> p > 0) by (nonlinear_arith)
        requires
            a > 0,
            b >= 0,
            p == a * a - b * b,
    ;
    assert(b >= a ==> p <= 0 && q > 0) by (nonlinear_arith)
        requires
            a > 0,
            b >= 0,
            p == a * a - b * b,
            q == 2 * (a * b),
    ;
}

/// Turning a vector by a quarter turns its doubled vector by a half.
proof fn lemma_doubled_after_quarter_turn(a: int, b: int)
    requires
        a != 0 || b != 0,
        a * a - b * b != 0 || 2 * (a * b) != 0,
    ensures
        crate::detector::bearing(b * b - a * a, -(2 * (a * b))).sector == (
        crate::detector::bearing(a * a - b * b, 2 * (a * b)).sector + 8) % 16,
        (-b) * (-b) == b * b,
        (-b) * a == -(a * b),
        b * (-a) == -(a * b),
        a * (-b) == -(a * b),
        (-a) * (-a) == a * a,
{
    let p = a * a - b * b;
    let q = 2 * (a * b);
    crate::detector::law_quarter_turn_moves_four_sectors(p, q);
    crate::detector::law_quarter_turn_moves_four_sectors(-q, p);
    lemma_square_of_negation(a);
    lemma_square_of_negation(b);
    assert((-b) * a == -(a * b) && b * (-a) == -(a * b) && a * (-b) == -(a * b))
        by (nonlinear_arith);
}

/// A wedge holds the directions from its first ray to its last, both included,
/// whatever the distance. One whose first ray comes after its last goes the
/// other way round, through the positive x axis.
pub proof fn law_wedge_runs_from_ray_to_ray(
    center_x: i32,
    center_y: i32,
    s: TouchSample,
    start: i32,
    end: i32,
)
    ensures
        ({
            let b = crate::detector::bearing(s.x - center_x, s.y - center_y);
            let inside = crate::detector::horizontal_arc(center_x, center_y, s, start, end);
            let reached = b.sector >= start;
            let passed = b.sector > end || (b.sector == end && !b.on_ray);
            &&& start <= end ==> (inside <==> reached && !passed)
            &&& start > end ==> (inside <==> reached || !passed)
        }),
{
}

/// A turn is smooth exactly if its heading changes by an eighth of a full turn
/// at most: the second step, taken apart along and across the first, goes
/// forward by at least as much as it goes aside. Standing still counts as a
/// step along the positive x axis.
pub proof fn law_smooth_turns_go_forward(
    newest: TouchSample,
    middle: TouchSample,
    oldest: TouchSample,
)
    ensures
        ({
            let ux = if newest == middle {
                1
            } else {
                newest.x - middle.x
            };
            let uy = newest.y - middle.y;
            let vx = if middle == oldest {
                1
            } else {
                middle.x - oldest.x
            };
            let vy = middle.y - oldest.y;
            let along = ux * vx + uy * vy;
            let aside = ux * vy - uy * vx;
            crate::detector::sharp_turn(newest, middle, oldest) <==> !(along > 0 && aside <= along
                && -aside <= along)
        }),
{
}

/// Retracing a trajectory, or turning it by a quarter, keeps its turns as
/// sharp as they are.
pub proof fn law_sharpness_is_seen_from_everywhere(
    a: TouchSample,
    b: TouchSample,
    c: TouchSample,
    ta: TouchSample,
    tb: TouchSample,
    tc: TouchSample,
)
    requires
        a != b,
        b != c,
        ta.x - tb.x == -(a.y - b.y) && ta.y - tb.y == a.x - b.x,
        tb.x - tc.x == -(b.y - c.y) && tb.y - tc.y == b.x - c.x,
    ensures
        crate::detector::sharp_turn(a, b, c) == crate::detector::sharp_turn(c, b, a),
        crate::detector::sharp_turn(a, b, c) == crate::detector::sharp_turn(ta, tb, tc),
{
    let ux = a.x - b.x;
    let uy = a.y - b.y;
    let vx = b.x - c.x;
    let vy = b.y - c.y;
    assert((-vx) * (-ux) == ux * vx && (-vy) * (-uy) == uy * vy && (-vx) * (-uy) == vx * uy && (-vy)
        * (-ux) == vy * ux) by (nonlinear_arith);
    assert((-uy) * (-vy) == uy * vy && (-uy) * vx == -(uy * vx) && ux * (-vy) == -(ux * vy))
        by (nonlinear_arith);
    assert(ux * vy == vy * ux && uy * vx == vx * uy) by (nonlinear_arith);
}

/// The run of smooth turns goes from the newest sample back to the first sharp
/// turn, or to the end of the history: every turn in it is smooth, and the
/// next one is not.
pub proof fn law_smooth_run_ends_at_the_first_sharp_turn(history: Seq<TouchSample>)
    ensures
        ({
            let n = crate::detector::smooth_turns(history);
            &&& 0 <= n
            &&& history.len() < 3 ==> n == 0
            &&& history.len() >= 3 ==> n <= history.len() - 2
            &&& forall|i: int|
                0 <= i < n ==> !crate::detector::sharp_turn(
                    #[trigger] history[i],
                    history[i + 1],
                    history[i + 2],
                )
            &&& n + 2 < history.len() ==> crate::detector::sharp_turn(
                history[n],
                history[n + 1],
                history[n + 2],
            )
        }),
    decreases history.len(),
{
    if history.len() >= 3 && !crate::detector::sharp_turn(history[0], history[1], history[2]) {
        let rest = history.drop_first();
        law_smooth_run_ends_at_the_first_sharp_turn(rest);
        let n = crate::detector::smooth_turns(history);
        assert forall|i: int| 0 <= i < n implies !crate::detector::sharp_turn(
            #[trigger] history[i],
            history[i + 1],
            history[i + 2],
        ) by {
            if i > 0 {
                assert(!crate::detector::sharp_turn(rest[i - 1], rest[i - 1 + 1], rest[i - 1 + 2]));
            }
        }
    }
}

/// Each step of the sensitivity setting has its own multiplier, and a higher
/// setting never turns the wheel less. Settings outside -4 to 2 count as the
/// nearest end.
pub proof fn law_sensitivity_selects_its_multiplier(adjust: i32, higher: i32)
    requires
        adjust <= higher,
    ensures
        ({
            let m = crate::detector::sensitivity_multiplier(adjust);
            &&& adjust <= -4 ==> m == 5
            &&& adjust == -3 ==> m == 7
            &&& adjust == -2 ==> m == 10
            &&& adjust == -1 ==> m == 14
            &&& adjust == 0 ==> m == 20
            &&& adjust == 1 ==> m == 28
            &&& adjust >= 2 ==> m == 40
            &&& m <= crate::detector::sensitivity_multiplier(higher)
        }),
{
    assert(crate::detector::SENSITIVITY_TABLE@ =~= seq![5i32, 7, 10, 14, 20, 28, 40]);
}

/// A fresh detector knows no sample, takes the first one wherever it lies, and
/// carries two zeros.
pub proof fn law_fresh_detector_is_blank(s: TouchSample)
    ensures
        DetectorView::fresh().history.len() == 0,
        DetectorView::fresh().last_stored is None,
        DetectorView::fresh().accumulator == (Real { bits: 0 }),
        DetectorView::fresh().v120_remainder == (Real { bits: 0 }),
        DetectorView::fresh().accepts(s),
{
}

/// A sample is taken exactly if it is the first or lies more than eight units
/// from the last one that was taken, not from where the gesture started.
pub proof fn law_only_moves_are_stored(d: DetectorView, s: TouchSample)
    requires
        d.wf(),
    ensures
        d.history.len() == 0 ==> d.accepts(s),
        d.history.len() > 0 ==> (d.accepts(s) <==> (s.x - d.history[0].x) * (s.x - d.history[0].x)
            + (s.y - d.history[0].y) * (s.y - d.history[0].y) > 64),
{
}

/// A stored sample becomes the newest one. The older ones stay as they are,
/// the twenty newest of all are kept, and nothing that integration carries is
/// touched.
pub proof fn law_storing_keeps_the_twenty_newest(d: DetectorView, s: TouchSample)
    requires
        d.history.len() <= 20,
    ensures
        ({
            let post = d.store(s);
            &&& post.last_stored == Some(s)
            &&& post.history.len() == if d.history.len() < 20 {
                d.history.len() + 1
            } else {
                20
            }
            &&& post.history[0] == s
            &&& forall|i: int|
                0 < i < post.history.len() ==> #[trigger] post.history[i] == d.history[i - 1]
            &&& post.accumulator == d.accumulator
            &&& post.v120_remainder == d.v120_remainder
        }),
{
}

/// `reading` answers what integrating the `turns + 2` newest samples of `d`
/// asks: those samples, newest first, the multiplier, and the two doubles that
/// `d` carries.
pub open spec fn answers(
    d: DetectorView,
    turns: int,
    multiplier: i32,
    g: GeometryModel,
    reading: CurvatureReading,
) -> bool {
    (g.curvature)(
        d.history.take(turns + 2),
        multiplier,
        d.accumulator,
        d.v120_remainder,
        reading,
    )
}

/// Integration waits for three samples, and for a smooth newest turn. With
/// five samples or more it also waits for three smooth turns. Until then
/// nothing moves and nothing is carried on.
pub proof fn law_integration_waits_for_smooth_turns(
    d: DetectorView,
    adjust: i32,
    g: GeometryModel,
    post: DetectorView,
    delta: WheelDelta,
)
    requires
        d.integrates(adjust, g, post, delta),
        d.history.len() < 3 || crate::detector::smooth_turns(d.history) == 0 || (d.history.len()
            >= 5 && crate::detector::smooth_turns(d.history) < 3),
    ensures
        post == d,
        delta.v120 == 0,
        delta.discrete == 0,
{
    law_smooth_run_ends_at_the_first_sharp_turn(d.history);
}

/// Otherwise one reading of the whole smooth run decides. Its units and its
/// remainder are taken over. With three smooth turns or more, so are its
/// notches and its accumulator; with fewer, both are left for later. The
/// samples stay.
pub proof fn law_reading_is_taken_over(
    d: DetectorView,
    adjust: i32,
    g: GeometryModel,
    post: DetectorView,
    delta: WheelDelta,
    turns: int,
)
    requires
        d.integrates(adjust, g, post, delta),
        d.history.len() >= 3,
        turns == crate::detector::smooth_turns(d.history),
        turns >= 3 || (turns >= 1 && d.history.len() < 5),
    ensures
        post.history == d.history,
        post.last_stored == d.last_stored,
        exists|reading: CurvatureReading| #[trigger]
            answers(d, turns, crate::detector::sensitivity_multiplier(adjust), g, reading)
                && post.v120_remainder == reading.v120_remainder && delta.v120 == reading.v120 && (
            turns >= 3 ==> post.accumulator == reading.accumulator && delta.discrete
                == reading.notches) && (turns < 3 ==> post.accumulator == d.accumulator
                && delta.discrete == 0),
{
    let reading = choose|reading: CurvatureReading| #[trigger]
        d.measured(adjust, g, reading) && post == d.settled(reading) && delta == d.delta(reading);
    assert(answers(d, turns, crate::detector::sensitivity_multiplier(adjust), g, reading));
}

/// A stretch of integration: the detector when it is asked, for each sample,
/// and what it was left with.
pub open spec fn integrates_in_turn(
    asked: Seq<DetectorView>,
    left: Seq<DetectorView>,
    deltas: Seq<WheelDelta>,
    samples: Seq<TouchSample>,
    adjust: i32,
    g: GeometryModel,
) -> bool {
    &&& asked.len() == samples.len()
    &&& left.len() == samples.len()
    &&& deltas.len() == samples.len()
    &&& forall|i: int|
        0 <= i < samples.len() ==> {
            &&& (#[trigger] asked[i]).integrates(adjust, g, left[i], deltas[i])
            &&& asked[i].history.len() >= 3
            &&& crate::detector::smooth_turns(asked[i].history) >= 3
            &&& i > 0 ==> asked[i] == left[i - 1].store(samples[i])
        }
}

/// `reading` gave this step its movement and its doubles.
pub open spec fn gave(
    asked: DetectorView,
    left: DetectorView,
    delta: WheelDelta,
    adjust: i32,
    g: GeometryModel,
    reading: CurvatureReading,
) -> bool {
    &&& answers(
        asked,
        crate::detector::smooth_turns(asked.history),
        crate::detector::sensitivity_multiplier(adjust),
        g,
        reading,
    )
    &&& delta.v120 == reading.v120
    &&& delta.discrete == reading.notches
    &&& left.accumulator == reading.accumulator
    &&& left.v120_remainder == reading.v120_remainder
}

/// No angle is lost between samples: throughout a smooth stretch each reading
/// is asked with the accumulator and the remainder that the reading before it
/// returned.
pub proof fn law_undrained_angle_is_carried_on(
    asked: Seq<DetectorView>,
    left: Seq<DetectorView>,
    deltas: Seq<WheelDelta>,
    samples: Seq<TouchSample>,
    adjust: i32,
    g: GeometryModel,
) -> (readings: Seq<CurvatureReading>)
    requires
        integrates_in_turn(asked, left, deltas, samples, adjust, g),
    ensures
        readings.len() == samples.len(),
        forall|i: int|
            0 <= i < samples.len() ==> #[trigger] gave(
                asked[i],
                left[i],
                deltas[i],
                adjust,
                g,
                readings[i],
            ),
        forall|i: int|
            0 < i < samples.len() ==> (#[trigger] asked[i]).accumulator == readings[i
                - 1].accumulator && asked[i].v120_remainder == readings[i - 1].v120_remainder,
{
    let readings = Seq::new(
        samples.len(),
        |i: int| choose|r: CurvatureReading| gave(asked[i], left[i], deltas[i], adjust, g, r),
    );
    assert forall|i: int| 0 <= i < samples.len() implies #[trigger] gave(
        asked[i],
        left[i],
        deltas[i],
        adjust,
        g,
        readings[i],
    ) by {
        let turns = crate::detector::smooth_turns(asked[i].history);
        law_reading_is_taken_over(asked[i], adjust, g, left[i], deltas[i], turns);
        let m = crate::detector::sensitivity_multiplier(adjust);
        let r = choose|r: CurvatureReading| #[trigger]
            answers(asked[i], turns, m, g, r) && left[i].v120_remainder == r.v120_remainder
                && deltas[i].v120 == r.v120 && (turns >= 3 ==> left[i].accumulator
                == r.accumulator && deltas[i].discrete == r.notches) && (turns < 3
                ==> left[i].accumulator == asked[i].accumulator && deltas[i].discrete == 0);
        assert(gave(asked[i], left[i], deltas[i], adjust, g, r));
    }
    assert forall|i: int| 0 < i < samples.len() implies (#[trigger] asked[i]).accumulator
        == readings[i - 1].accumulator && asked[i].v120_remainder == readings[i
        - 1].v120_remainder by {
        assert(asked[i] == left[i - 1].store(samples[i]));
        assert(gave(asked[i - 1], left[i - 1], deltas[i - 1], adjust, g, readings[i - 1]));
    }
    readings
}

/// The bounds of the evidence: a capture angle of 7.5 degrees, a straight line
/// told at 18, a least turn of one, travel across the ring that counts from 40
/// units on and dominates beyond one and a half times that along it.
pub proof fn law_evidence_has_its_bounds()
    ensures
        2 * 180 == 15 * crate::geometry::TRIGGER_ANGLE_DIVISOR,
        180 == 18 * crate::geometry::STRAIGHT_SWEEP_DIVISOR,
        180 == crate::geometry::MIN_TURN_DIVISOR,
        crate::geometry::MIN_RADIAL_TRAVEL == 40,
        crate::geometry::RADIAL_RATIO_HALVES == 3,
{
}

/// The model holds exactly the answers that the two closures may give to the
/// very questions asked.
pub proof fn law_model_is_what_the_closures_answer<E, C>(
    geometry: Geometry<E, C>,
    x: i32,
    y: i32,
    samples: Vec<TouchSample>,
    ev: IntentEvidence,
    sensitivity: i32,
    acc: Real,
    rem: Real,
    r: CurvatureReading,
) where
    E: Fn(i32, i32, &Vec<TouchSample>) -> IntentEvidence,
    C: Fn(&Vec<TouchSample>, i32, Real, Real) -> CurvatureReading,

    ensures
        call_ensures(geometry.evidence, (x, y, &samples), ev) ==> (geometry.model().evidence)(
            x,
            y,
            samples@,
            ev,
        ),
        (geometry.model().evidence)(x, y, samples@, ev) ==> exists|v: Vec<TouchSample>|
            v@ == samples@ && #[trigger] call_ensures(geometry.evidence, (x, y, &v), ev),
        call_ensures(geometry.curvature, (&samples, sensitivity, acc, rem), r) ==> (
        geometry.model().curvature)(samples@, sensitivity, acc, rem, r),
        (geometry.model().curvature)(samples@, sensitivity, acc, rem, r) ==> exists|
            v: Vec<TouchSample>,
        |
            v@ == samples@ && #[trigger] call_ensures(
                geometry.curvature,
                (&v, sensitivity, acc, rem),
                r,
            ),
{
}

} // verus!
