//! What the library asks of floating-point trigonometry.
//!
//! Angles of trajectories and sums of turns are computed on doubles by the
//! caller. The library says which samples to look at and with which
//! sensitivity, and decides what follows from the answers. A double that has
//! to survive between two frames is kept as its bit pattern and never
//! interpreted here.

use vstd::prelude::*;

use crate::detector::TouchSample;

verus! {

/// The capture angle, as a fraction of a half turn.
pub const TRIGGER_ANGLE_DIVISOR: u32 = 24;

/// The sweep at which a straight line is told from an arc, as a fraction of a
/// half turn.
pub const STRAIGHT_SWEEP_DIVISOR: u32 = 10;

/// The least net turn of a circle, as a fraction of a half turn.
pub const MIN_TURN_DIVISOR: u32 = 180;

/// Travel across the ring from which on it counts, in device units.
pub const MIN_RADIAL_TRAVEL: u32 = 40;

/// Travel across the ring exceeds travel along it if it is more than this
/// many halves of it.
pub const RADIAL_RATIO_HALVES: u32 = 3;

/// The most notches that one reading may drain, so that a whole candidate of
/// them still fits a wheel event in high-resolution units. The accumulator of
/// a gesture drains a handful at a time.
pub const MAX_NOTCHES: i32 = 894784;

/// A double, carried by its IEEE 754 bit pattern.
#[derive(Clone, Copy, Debug, PartialEq, Eq, Structural)]
pub struct Real {
    pub bits: u64,
}

impl Real {
    /// The pattern of positive zero.
    pub open spec fn zero() -> Real {
        Real { bits: 0 }
    }
}

/// What the early trajectory of a candidate gesture shows. Each flag is one
/// comparison of a measured angle or distance with a fixed bound.
#[derive(Clone, Copy, Debug, PartialEq, Eq, Structural)]
pub struct IntentEvidence {
    /// The sweep around the pad's centre, from the first sample to the
    /// newest, reached the capture angle.
    pub swept_trigger: bool,
    /// The same sweep reached the angle at which a straight line is told
    /// from an arc.
    pub swept_straight: bool,
    /// Travel along the ring is at least travel across it.
    pub tangential_dominates: bool,
    /// Travel across the ring reached the distance at which it counts.
    pub radial_travel: bool,
    /// Travel across the ring exceeds one and a half times travel along it.
    pub radial_dominates: bool,
    /// The net turn of the trajectory, counted in the direction of the
    /// sweep, reached the least curvature of a circle.
    pub turn_aligned: bool,
}

/// The outcome of integrating one run of turns.
#[derive(Clone, Copy, Debug, PartialEq, Eq, Structural)]
pub struct CurvatureReading {
    /// Whole high-resolution units, 120 to a notch.
    pub v120: i32,
    /// What rounding to whole units left over.
    pub v120_remainder: Real,
    /// Whole notches drained from the accumulator.
    pub notches: i32,
    /// The accumulator after the drain.
    pub accumulator: Real,
}

/// The two measurements, as functions of plain values.
///
/// `evidence` takes the pad's centre and the samples of a candidate gesture,
/// oldest first. `curvature` takes the samples of a run of turns, newest
/// first, the sensitivity multiplier, the accumulator and the remainder.
pub struct Geometry<E, C> {
    pub evidence: E,
    pub curvature: C,
}

/// The answers that a geometry may give, as relations between what is asked
/// and what comes back.
pub struct GeometryModel {
    pub evidence: spec_fn(i32, i32, Seq<TouchSample>, IntentEvidence) -> bool,
    pub curvature: spec_fn(Seq<TouchSample>, i32, Real, Real, CurvatureReading) -> bool,
}

impl GeometryModel {
    /// No reading drains more notches than a wheel event can carry.
    pub open spec fn moderate(self) -> bool {
        forall|
            samples: Seq<TouchSample>,
            sensitivity: i32,
            acc: Real,
            rem: Real,
            r: CurvatureReading,
        | #[trigger]
            (self.curvature)(samples, sensitivity, acc, rem, r) ==> -MAX_NOTCHES <= r.notches
                <= MAX_NOTCHES
    }
}

impl<E, C> Geometry<E, C> where
    E: Fn(i32, i32, &Vec<TouchSample>) -> IntentEvidence,
    C: Fn(&Vec<TouchSample>, i32, Real, Real) -> CurvatureReading,
 {
    /// Both measurements answer every question.
    pub open spec fn total(self) -> bool {
        &&& forall|x: i32, y: i32, samples: &Vec<TouchSample>| #[trigger]
            call_requires(self.evidence, (x, y, samples))
        &&& forall|samples: &Vec<TouchSample>, sensitivity: i32, acc: Real, rem: Real| #[trigger]
            call_requires(self.curvature, (samples, sensitivity, acc, rem))
    }

    /// The answers this geometry may give.
    pub open spec fn model(self) -> GeometryModel {
        GeometryModel {
            evidence: |x: i32, y: i32, samples: Seq<TouchSample>, ev: IntentEvidence|
                exists|v: Vec<TouchSample>| v@ == samples && #[trigger] call_ensures(
                    self.evidence,
                    (x, y, &v),
                    ev,
                ),
            curvature: |
                samples: Seq<TouchSample>,
                sensitivity: i32,
                acc: Real,
                rem: Real,
                r: CurvatureReading,
            |
                exists|v: Vec<TouchSample>| v@ == samples && #[trigger] call_ensures(
                    self.curvature,
                    (&v, sensitivity, acc, rem),
                    r,
                ),
        }
    }

    pub(crate) fn ask_evidence(&self, x: i32, y: i32, samples: &Vec<TouchSample>) -> (ev:
        IntentEvidence)
        requires
            self.total(),
        ensures
            (self.model().evidence)(x, y, samples@, ev),
    {
        (self.evidence)(x, y, samples)
    }

    pub(crate) fn ask_curvature(
        &self,
        samples: &Vec<TouchSample>,
        sensitivity: i32,
        accumulator: Real,
        remainder: Real,
    ) -> (r: CurvatureReading)
        requires
            self.total(),
        ensures
            (self.model().curvature)(samples@, sensitivity, accumulator, remainder, r),
    {
        (self.curvature)(samples, sensitivity, accumulator, remainder)
    }
}

} // verus!
