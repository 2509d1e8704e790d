//! The state machine that arbitrates between ordinary pointer input,
//! multi-finger gestures and circular scrolling.

use vstd::prelude::*;

use crate::config::Scroll;
use crate::detector::{
    has_moved, radial_gate_ok, within_horizontal_arc, CircularDetector, DetectorView, TouchSample,
    WheelDelta,
};
use crate::geometry::{
    CurvatureReading, Geometry, GeometryModel, IntentEvidence, Real, MAX_NOTCHES,
};

verus! {

/// Samples that a candidate must have before it is judged.
pub const INTENT_MIN_SAMPLES: usize = 3;

/// Samples after which an undecided candidate counts as pointer input.
pub const INTENT_MAX_SAMPLES: usize = 20;

/// Who owns the contact stream.
#[derive(Clone, Copy, Debug, PartialEq, Eq, Structural)]
pub enum FsmState {
    /// No finger, or none seen yet.
    Idle,
    /// The finger came down inside the dead zone, or slipped back into it
    /// while its intent was open. It stays trapped until it lifts.
    Contact { origin: TouchSample },
    /// The finger came down in the outer ring; its intent is still open.
    Moving { tracking_id: i32, slot: usize },
    /// Two or more contacts were seen before circular scrolling was captured.
    /// The stream is forwarded and circular scrolling is not reconsidered
    /// until every finger has lifted.
    MultiTouch,
    /// The candidate was classified as ordinary pointer input. It is forwarded
    /// until every finger has lifted and is never captured mid-gesture.
    Passthrough,
    /// Circular scrolling owns the stream and follows one tracking id.
    Scrolling { tracking_id: i32, slot: usize },
    /// The frame after the lift that ended circular scrolling. There is no
    /// timer: the next frame leads back to `Idle`.
    Debounce,
}

/// One active contact.
#[derive(Clone, Copy, Debug, PartialEq, Eq, Structural)]
pub struct TrackedTouch {
    pub slot: usize,
    pub tracking_id: i32,
    pub pos: TouchSample,
}

/// One complete touch report.
#[derive(Clone, Debug)]
pub struct TouchFrame {
    /// The pad's summary of whether any finger is down.
    pub contact: bool,
    /// All active slots, ordered by slot number.
    pub touches: Vec<TrackedTouch>,
}

/// Wheel movement that the state machine asks for. Whether frames are held,
/// replayed or suppressed follows from the states before and after the step.
#[derive(Clone, Copy, Debug, PartialEq, Eq, Structural)]
pub enum Action {
    Nothing,
    EmitWheelV(i32),
    EmitWheelH(i32),
}

/// What a candidate's trajectory says about its intent.
#[derive(Clone, Copy, Debug, PartialEq, Eq, Structural)]
pub enum IntentDecision {
    Pending,
    Circular,
    Pointer,
}

/// The state machine's state: who owns the stream, the pad's centre, and the
/// samples of an open candidate, oldest first.
pub struct FsmView {
    pub state: FsmState,
    pub center_x: i32,
    pub center_y: i32,
    pub samples: Seq<TouchSample>,
}

impl TouchFrame {
    /// A finger is down and at least one contact is known.
    pub open spec fn has_contact(self) -> bool {
        self.contact && self.touches@.len() > 0
    }
}

/// The first contact that carries the tracking id.
pub open spec fn contact_of(touches: Seq<TrackedTouch>, id: i32) -> Option<TrackedTouch>
    decreases touches.len(),
{
    if touches.len() == 0 {
        None
    } else if touches[0].tracking_id == id {
        Some(touches[0])
    } else {
        contact_of(touches.drop_first(), id)
    }
}

/// The decision on a candidate of `count` samples that shows `ev`.
pub open spec fn decided(count: int, ev: IntentEvidence) -> IntentDecision {
    if count < INTENT_MIN_SAMPLES {
        IntentDecision::Pending
    } else if ev.swept_trigger && ev.tangential_dominates && ev.turn_aligned {
        IntentDecision::Circular
    } else if (ev.radial_travel && ev.radial_dominates) || (ev.swept_straight && !ev.turn_aligned)
        || count >= INTENT_MAX_SAMPLES {
        IntentDecision::Pointer
    } else {
        IntentDecision::Pending
    }
}

/// Decide on a candidate of `count` samples from what its trajectory shows.
///
/// Crossing the capture angle without enough curvature is inconclusive: a
/// slowly developing or slightly noisy circle is still observed.
pub fn classify_intent(count: usize, ev: IntentEvidence) -> (d: IntentDecision)
    ensures
        d is Circular <==> count >= INTENT_MIN_SAMPLES && ev.swept_trigger
            && ev.tangential_dominates && ev.turn_aligned,
        d is Pointer && count < INTENT_MAX_SAMPLES ==> (ev.radial_travel && ev.radial_dominates)
            || (ev.swept_straight && !ev.turn_aligned),
        d == decided(count as int, ev),
{
    if count < INTENT_MIN_SAMPLES {
        IntentDecision::Pending
    } else if ev.swept_trigger && ev.tangential_dominates && ev.turn_aligned {
        IntentDecision::Circular
    } else if (ev.radial_travel && ev.radial_dominates) || (ev.swept_straight && !ev.turn_aligned)
        || count >= INTENT_MAX_SAMPLES {
        IntentDecision::Pointer
    } else {
        IntentDecision::Pending
    }
}

/// The wheel is turned sideways at this position.
pub open spec fn sideways(scroll: Scroll, center_x: i32, center_y: i32, at: TouchSample) -> bool {
    scroll.horizontal_enable && crate::detector::horizontal_arc(
        center_x,
        center_y,
        at,
        scroll.horizontal_start,
        scroll.horizontal_end,
    )
}

/// The direction in which the wheel is turned is reversed at this position.
pub open spec fn reversal(scroll: Scroll, center_x: i32, center_y: i32, at: TouchSample) -> bool {
    if sideways(scroll, center_x, center_y, at) {
        scroll.reverse_horizontal
    } else {
        scroll.reverse_vertical
    }
}

/// The wheel movement that `ticks` notches amount to at this position.
pub open spec fn emitted(
    ticks: int,
    scroll: Scroll,
    center_x: i32,
    center_y: i32,
    at: TouchSample,
) -> Action {
    let signed = (if reversal(scroll, center_x, center_y, at) {
        -ticks
    } else {
        ticks
    }) as i32;
    if sideways(scroll, center_x, center_y, at) {
        Action::EmitWheelH(signed)
    } else {
        Action::EmitWheelV(signed)
    }
}

/// As [`emitted`], with nothing to do for no notches.
pub open spec fn outcome(
    ticks: int,
    scroll: Scroll,
    center_x: i32,
    center_y: i32,
    at: TouchSample,
) -> Action {
    if ticks == 0 {
        Action::Nothing
    } else {
        emitted(ticks, scroll, center_x, center_y, at)
    }
}

/// Apply the reverse flags and the horizontal wedge. The wedge is only
/// consulted when horizontal scrolling is enabled.
pub fn emit(ticks: i32, scroll: &Scroll, center_x: i32, center_y: i32, current: TouchSample) -> (a:
    Action)
    requires
        ticks == i32::MIN ==> !reversal(*scroll, center_x, center_y, current),
    ensures
        a == emitted(ticks as int, *scroll, center_x, center_y, current),
        a matches Action::EmitWheelH(moved) ==> moved == if scroll.reverse_horizontal {
            -ticks
        } else {
            ticks as int
        },
        a matches Action::EmitWheelV(moved) ==> moved == if scroll.reverse_vertical {
            -ticks
        } else {
            ticks as int
        },
{
    if scroll.horizontal_enable && within_horizontal_arc(
        center_x,
        center_y,
        current,
        scroll.horizontal_start,
        scroll.horizontal_end,
    ) {
        let signed: i32 = if scroll.reverse_horizontal {
            -ticks
        } else {
            ticks
        };
        Action::EmitWheelH(signed)
    } else {
        let signed: i32 = if scroll.reverse_vertical {
            -ticks
        } else {
            ticks
        };
        Action::EmitWheelV(signed)
    }
}

/// Handing `s` to the detector may lead to `post` and `ticks` notches. A
/// sample inside the dead band changes nothing.
pub open spec fn fed(
    d: DetectorView,
    s: TouchSample,
    adjust: i32,
    g: GeometryModel,
    post: DetectorView,
    ticks: int,
) -> bool {
    if d.accepts(s) {
        exists|delta: WheelDelta| #[trigger]
            d.store(s).integrates(adjust, g, post, delta) && ticks == delta.discrete
    } else {
        post == d && ticks == 0
    }
}

/// Handing `samples` to a fresh detector, oldest first, may lead to `post`
/// and `ticks` notches in all.
pub open spec fn seeded(
    samples: Seq<TouchSample>,
    adjust: i32,
    g: GeometryModel,
    post: DetectorView,
    ticks: int,
) -> bool
    decreases samples.len(),
{
    if samples.len() == 0 {
        post == DetectorView::fresh() && ticks == 0
    } else {
        exists|mid: DetectorView, more: int| #[trigger]
            fed(mid, samples.last(), adjust, g, post, more) && seeded(
                samples.drop_last(),
                adjust,
                g,
                mid,
                ticks - more,
            )
    }
}

proof fn lemma_seed_one(
    samples: Seq<TouchSample>,
    adjust: i32,
    g: GeometryModel,
    mid: DetectorView,
    before: int,
    post: DetectorView,
    ticks: int,
)
    requires
        samples.len() > 0,
        seeded(samples.drop_last(), adjust, g, mid, before),
        fed(mid, samples.last(), adjust, g, post, ticks - before),
    ensures
        seeded(samples, adjust, g, post, ticks),
{
    let more = ticks - before;
    assert(fed(mid, samples.last(), adjust, g, post, more));
    assert(ticks - more == before);
}

impl FsmView {
    /// Samples are kept exactly while a candidate is open; there are fewer
    /// than the limit, and each left the dead band of the one before.
    pub open spec fn wf(self) -> bool {
        &&& self.state is Moving ==> 1 <= self.samples.len() < INTENT_MAX_SAMPLES
        &&& !(self.state is Moving) ==> self.samples.len() == 0
        &&& spaced(self.samples)
    }

    /// The machine in `state`, with no candidate open.
    pub open spec fn at(self, state: FsmState) -> FsmView {
        FsmView { state, samples: Seq::empty(), ..self }
    }

    /// The state to which a frame leads by itself, where it does: neither the
    /// candidate's trajectory nor the detector is consulted, and the wheel
    /// does not move.
    pub open spec fn settles(self, frame: TouchFrame, scroll: Scroll) -> Option<FsmView> {
        if !scroll.enable {
            Some(self.at(FsmState::Idle))
        } else if !frame.has_contact() {
            if self.state is Scrolling {
                Some(self.at(FsmState::Debounce))
            } else {
                Some(self.at(FsmState::Idle))
            }
        } else {
            let first = frame.touches@[0];
            let alone = frame.touches@.len() == 1;
            let in_ring = crate::detector::radial_gate(
                self.center_x,
                self.center_y,
                first.pos,
                scroll.detect_area_width,
            );
            match self.state {
                FsmState::Idle => if !alone {
                    Some(self.at(FsmState::MultiTouch))
                } else if in_ring {
                    Some(
                        FsmView {
                            state: FsmState::Moving {
                                tracking_id: first.tracking_id,
                                slot: first.slot,
                            },
                            samples: seq![first.pos],
                            ..self
                        },
                    )
                } else {
                    Some(self.at(FsmState::Contact { origin: first.pos }))
                },
                FsmState::Moving { tracking_id, slot } => if !alone {
                    Some(self.at(FsmState::MultiTouch))
                } else if first.tracking_id != tracking_id {
                    Some(self.at(FsmState::Passthrough))
                } else if !in_ring {
                    Some(self.at(FsmState::Contact { origin: first.pos }))
                } else {
                    None
                },
                FsmState::Scrolling { tracking_id, slot } => if contact_of(
                    frame.touches@,
                    tracking_id,
                ) is None {
                    Some(self)
                } else {
                    None
                },
                FsmState::Debounce => Some(self.at(FsmState::Idle)),
                _ => Some(self),
            }
        }
    }

    /// The candidate's samples after it reached `s`.
    pub open spec fn extended(self, s: TouchSample) -> Seq<TouchSample> {
        if crate::detector::moved(s, self.samples.last()) {
            self.samples.push(s)
        } else {
            self.samples
        }
    }

    /// A candidate that reached `s` may be decided as `decision`. Standing
    /// still decides nothing, and nor do fewer samples than a judgement
    /// needs.
    pub open spec fn judged(self, s: TouchSample, g: GeometryModel, decision: IntentDecision) -> bool {
        let samples = self.extended(s);
        if !crate::detector::moved(s, self.samples.last()) || samples.len() < INTENT_MIN_SAMPLES {
            decision is Pending
        } else {
            exists|ev: IntentEvidence| #[trigger]
                (g.evidence)(self.center_x, self.center_y, samples, ev) && decision == decided(
                    samples.len() as int,
                    ev,
                )
        }
    }

    /// The machine may go from `self` and the detector `d` to `post` and
    /// `d_post` on this frame, asking for `action`.
    pub open spec fn steps(
        self,
        d: DetectorView,
        frame: TouchFrame,
        scroll: Scroll,
        g: GeometryModel,
        post: FsmView,
        d_post: DetectorView,
        action: Action,
    ) -> bool {
        match self.settles(frame, scroll) {
            Some(next) => post == next && d_post == d && action is Nothing,
            None => match self.state {
                FsmState::Moving { tracking_id, slot } => self.observes(
                    d,
                    frame.touches@[0].pos,
                    tracking_id,
                    slot,
                    scroll,
                    g,
                    post,
                    d_post,
                    action,
                ),
                FsmState::Scrolling { tracking_id, slot } => {
                    let pos = contact_of(frame.touches@, tracking_id)->0.pos;
                    &&& post == self
                    &&& self.follows(d, pos, scroll, g, d_post, action)
                },
                _ => false,
            },
        }
    }

    /// A captured finger at `pos` may lead the detector to `d_post`, asking
    /// for `action`.
    pub open spec fn follows(
        self,
        d: DetectorView,
        pos: TouchSample,
        scroll: Scroll,
        g: GeometryModel,
        d_post: DetectorView,
        action: Action,
    ) -> bool {
        exists|ticks: int| #[trigger]
            fed(d, pos, scroll.sensitivity, g, d_post, ticks) && action == outcome(
                ticks,
                scroll,
                self.center_x,
                self.center_y,
                pos,
            )
    }

    /// A candidate at `pos` stays open, is given up as pointer input, or is
    /// captured. On capture the detector starts afresh and takes in every
    /// sample of the candidate.
    pub open spec fn observes(
        self,
        d: DetectorView,
        pos: TouchSample,
        tracking_id: i32,
        slot: usize,
        scroll: Scroll,
        g: GeometryModel,
        post: FsmView,
        d_post: DetectorView,
        action: Action,
    ) -> bool {
        exists|decision: IntentDecision| #[trigger]
            self.judged(pos, g, decision) && match decision {
                IntentDecision::Pending => {
                    &&& post == FsmView { samples: self.extended(pos), ..self }
                    &&& d_post == d
                    &&& action is Nothing
                },
                IntentDecision::Pointer => {
                    &&& post == self.at(FsmState::Passthrough)
                    &&& d_post == d
                    &&& action is Nothing
                },
                IntentDecision::Circular => {
                    &&& post == self.at(FsmState::Scrolling { tracking_id, slot })
                    &&& self.captures(pos, scroll, g, d_post, action)
                },
            }
    }

    /// Capturing the candidate at `pos` may lead the detector to `d_post`,
    /// asking for `action`.
    pub open spec fn captures(
        self,
        pos: TouchSample,
        scroll: Scroll,
        g: GeometryModel,
        d_post: DetectorView,
        action: Action,
    ) -> bool {
        exists|ticks: int| #[trigger]
            seeded(self.extended(pos), scroll.sensitivity, g, d_post, ticks) && action == outcome(
                ticks,
                scroll,
                self.center_x,
                self.center_y,
                pos,
            )
    }
}

/// Each sample left the dead band of the one before.
pub open spec fn spaced(samples: Seq<TouchSample>) -> bool {
    forall|i: int|
        0 <= i < samples.len() - 1 ==> crate::detector::moved(#[trigger] samples[i + 1], samples[i])
}

/// The state machine.
pub struct Fsm {
    state: FsmState,
    center_x: i32,
    center_y: i32,
    intent_samples: Vec<TouchSample>,
}

impl View for Fsm {
    type V = FsmView;

    closed spec fn view(&self) -> FsmView {
        FsmView {
            state: self.state,
            center_x: self.center_x,
            center_y: self.center_y,
            samples: self.intent_samples@,
        }
    }
}

impl Fsm {
    pub fn new(center_x: i32, center_y: i32) -> (fsm: Fsm)
        ensures
            fsm@ == (FsmView {
                state: FsmState::Idle,
                center_x,
                center_y,
                samples: Seq::empty(),
            }),
            fsm@.wf(),
    {
        Fsm {
            state: FsmState::Idle,
            center_x,
            center_y,
            intent_samples: Vec::with_capacity(INTENT_MAX_SAMPLES),
        }
    }

    pub fn state(&self) -> (state: FsmState)
        ensures
            state == self@.state,
    {
        self.state
    }

    pub fn is_scrolling(&self) -> (r: bool)
        ensures
            r == (self@.state is Scrolling),
    {
        matches!(self.state, FsmState::Scrolling { .. })
    }

    /// Leave the candidate, if one is open, and go to `state`.
    fn go(&mut self, state: FsmState)
        ensures
            final(self)@ == old(self)@.at(state),
    {
        self.state = state;
        self.intent_samples.clear();
    }

    /// Give up a still open candidate as ordinary pointer input. `true` means
    /// that there was one, and that the frames held for it are to be
    /// replayed.
    pub fn cancel_pending(&mut self) -> (cancelled: bool)
        requires
            old(self)@.wf(),
        ensures
            cancelled == (old(self)@.state is Moving),
            final(self)@ == if old(self)@.state is Moving {
                old(self)@.at(FsmState::Passthrough)
            } else {
                old(self)@
            },
            final(self)@.wf(),
    {
        if matches!(self.state, FsmState::Moving { .. }) {
            self.go(FsmState::Passthrough);
            true
        } else {
            false
        }
    }

    /// Hand the stream to the pointer until every finger has lifted.
    pub(crate) fn pass_through(&mut self)
        ensures
            final(self)@ == old(self)@.at(FsmState::Passthrough),
            final(self)@.wf(),
    {
        self.go(FsmState::Passthrough);
    }

    /// Go back to `Idle` and forget the gesture, so that a fresh one does not
    /// start from a stale history.
    pub fn force_idle(&mut self, detector: &mut CircularDetector)
        ensures
            final(self)@ == old(self)@.at(FsmState::Idle),
            final(self)@.wf(),
            final(detector)@ == DetectorView::fresh(),
            final(detector)@.wf(),
    {
        self.go(FsmState::Idle);
        detector.on_gesture_start();
    }

    /// Take one more sample of an open candidate and judge it.
    fn observe_intent_sample<E, C>(&mut self, sample: TouchSample, geometry: &Geometry<E, C>) -> (d:
        IntentDecision) where
        E: Fn(i32, i32, &Vec<TouchSample>) -> IntentEvidence,
        C: Fn(&Vec<TouchSample>, i32, Real, Real) -> CurvatureReading,

        requires
            old(self)@.wf(),
            old(self)@.state is Moving,
            geometry.total(),
        ensures
            old(self)@.judged(sample, geometry.model(), d),
            final(self)@ == (FsmView { samples: old(self)@.extended(sample), ..old(self)@ }),
            spaced(final(self)@.samples),
            1 <= final(self)@.samples.len() <= INTENT_MAX_SAMPLES,
            d is Pending ==> final(self)@.samples.len() < INTENT_MAX_SAMPLES,
    {
        let n: usize = self.intent_samples.len();
        if !has_moved(sample, self.intent_samples[n - 1]) {
            return IntentDecision::Pending;
        }
        self.intent_samples.push(sample);
        if self.intent_samples.len() < INTENT_MIN_SAMPLES {
            return IntentDecision::Pending;
        }
        let ev: IntentEvidence = geometry.ask_evidence(
            self.center_x,
            self.center_y,
            &self.intent_samples,
        );
        classify_intent(self.intent_samples.len(), ev)
    }

    /// Hand the candidate's samples to a fresh detector.
    fn seed<E, C>(
        &mut self,
        detector: &mut CircularDetector,
        adjust: i32,
        geometry: &Geometry<E, C>,
    ) -> (ticks: i32) where
        E: Fn(i32, i32, &Vec<TouchSample>) -> IntentEvidence,
        C: Fn(&Vec<TouchSample>, i32, Real, Real) -> CurvatureReading,

        requires
            old(self)@.samples.len() <= INTENT_MAX_SAMPLES,
            geometry.total(),
            geometry.model().moderate(),
        ensures
            seeded(old(self)@.samples, adjust, geometry.model(), final(detector)@, ticks as int),
            ticks != i32::MIN,
            final(detector)@.wf(),
            final(self)@ == (FsmView { samples: Seq::empty(), ..old(self)@ }),
    {
        detector.on_gesture_start();
        let mut ticks: i32 = 0;
        let mut i: usize = 0;
        let n: usize = self.intent_samples.len();
        while i < n
            invariant
                0 <= i <= n,
                n == self.intent_samples@.len(),
                n <= INTENT_MAX_SAMPLES,
                self@ == old(self)@,
                self.intent_samples@ == self@.samples,
                geometry.total(),
                detector@.wf(),
                geometry.model().moderate(),
                -894784 * i <= ticks <= 894784 * i,
                seeded(
                    self@.samples.take(i as int),
                    adjust,
                    geometry.model(),
                    detector@,
                    ticks as int,
                ),
            decreases n - i,
        {
            let sample: TouchSample = self.intent_samples[i];
            let ghost before = detector@;
            let ghost ticks_before = ticks as int;
            let more: i32 = feed(detector, sample, adjust, geometry);
            ticks = ticks + more;
            i = i + 1;
            proof {
                let prefix = self@.samples.take(i as int);
                assert(prefix.drop_last() =~= self@.samples.take(i - 1));
                assert(prefix.last() == sample);
                lemma_seed_one(
                    prefix,
                    adjust,
                    geometry.model(),
                    before,
                    ticks_before,
                    detector@,
                    ticks as int,
                );
            }
        }
        proof {
            assert(self@.samples.take(n as int) =~= self@.samples);
        }
        self.intent_samples.clear();
        ticks
    }

    /// Advance by one touch frame. At most one wheel movement is asked for.
    pub fn step<E, C>(
        &mut self,
        frame: &TouchFrame,
        detector: &mut CircularDetector,
        scroll: &Scroll,
        geometry: &Geometry<E, C>,
    ) -> (action: Action) where
        E: Fn(i32, i32, &Vec<TouchSample>) -> IntentEvidence,
        C: Fn(&Vec<TouchSample>, i32, Real, Real) -> CurvatureReading,

        requires
            old(self)@.wf(),
            old(detector)@.wf(),
            geometry.total(),
            geometry.model().moderate(),
        ensures
            old(self)@.steps(
                old(detector)@,
                *frame,
                *scroll,
                geometry.model(),
                final(self)@,
                final(detector)@,
                action,
            ),
            final(self)@.wf(),
            final(detector)@.wf(),
    {
        if !scroll.enable {
            self.go(FsmState::Idle);
            return Action::Nothing;
        }
        let has_contact: bool = frame.contact && frame.touches.len() > 0;
        if !has_contact {
            let next: FsmState = if matches!(self.state, FsmState::Scrolling { .. }) {
                FsmState::Debounce
            } else {
                FsmState::Idle
            };
            self.go(next);
            return Action::Nothing;
        }
        let first: TrackedTouch = frame.touches[0];
        match self.state {
            FsmState::Idle => {
                if frame.touches.len() > 1 {
                    self.go(FsmState::MultiTouch);
                } else if radial_gate_ok(
                    self.center_x,
                    self.center_y,
                    first.pos,
                    scroll.detect_area_width,
                ) {
                    self.go(
                        FsmState::Moving { tracking_id: first.tracking_id, slot: first.slot },
                    );
                    self.intent_samples.push(first.pos);
                    assert(self@.samples =~= seq![first.pos]);
                } else {
                    self.go(FsmState::Contact { origin: first.pos });
                }
                Action::Nothing
            },
            FsmState::Moving { tracking_id, slot } => {
                if frame.touches.len() > 1 {
                    self.go(FsmState::MultiTouch);
                    return Action::Nothing;
                }
                if first.tracking_id != tracking_id {
                    self.go(FsmState::Passthrough);
                    return Action::Nothing;
                }
                if !radial_gate_ok(
                    self.center_x,
                    self.center_y,
                    first.pos,
                    scroll.detect_area_width,
                ) {
                    self.go(FsmState::Contact { origin: first.pos });
                    return Action::Nothing;
                }
                match self.observe_intent_sample(first.pos, geometry) {
                    IntentDecision::Pending => Action::Nothing,
                    IntentDecision::Pointer => {
                        self.go(FsmState::Passthrough);
                        Action::Nothing
                    },
                    IntentDecision::Circular => {
                        let ticks: i32 = self.seed(detector, scroll.sensitivity, geometry);
                        self.state = FsmState::Scrolling { tracking_id, slot };
                        let action: Action = if ticks != 0 {
                            emit(ticks, scroll, self.center_x, self.center_y, first.pos)
                        } else {
                            Action::Nothing
                        };
                        proof {
                            assert(old(self)@.captures(
                                first.pos,
                                *scroll,
                                geometry.model(),
                                detector@,
                                action,
                            ));
                        }
                        action
                    },
                }
            },
            FsmState::Scrolling { tracking_id, slot } => {
                match find_contact(&frame.touches, tracking_id) {
                    Some(touch) => {
                        let ghost before = detector@;
                        let ticks: i32 = feed(detector, touch.pos, scroll.sensitivity, geometry);
                        let action: Action = if ticks != 0 {
                            emit(ticks, scroll, self.center_x, self.center_y, touch.pos)
                        } else {
                            Action::Nothing
                        };
                        proof {
                            assert(fed(
                                before,
                                touch.pos,
                                scroll.sensitivity,
                                geometry.model(),
                                detector@,
                                ticks as int,
                            ));
                        }
                        action
                    },
                    None => Action::Nothing,
                }
            },
            FsmState::Debounce => {
                self.go(FsmState::Idle);
                Action::Nothing
            },
            _ => Action::Nothing,
        }
    }
}

/// The first contact that carries the tracking id.
fn find_contact(touches: &Vec<TrackedTouch>, tracking_id: i32) -> (r: Option<TrackedTouch>)
    ensures
        r == contact_of(touches@, tracking_id),
{
    let mut i: usize = 0;
    assert(touches@.skip(0) =~= touches@);
    while i < touches.len()
        invariant
            0 <= i <= touches@.len(),
            contact_of(touches@, tracking_id) == contact_of(touches@.skip(i as int), tracking_id),
        decreases touches@.len() - i,
    {
        let ghost rest = touches@.skip(i as int);
        assert(rest[0] == touches@[i as int]);
        if touches[i].tracking_id == tracking_id {
            return Some(touches[i]);
        }
        assert(rest.drop_first() =~= touches@.skip(i + 1));
        i = i + 1;
    }
    None
}

/// Hand a sample to the detector and count the notches.
fn feed<E, C>(
    detector: &mut CircularDetector,
    s: TouchSample,
    adjust: i32,
    geometry: &Geometry<E, C>,
) -> (ticks: i32) where
    E: Fn(i32, i32, &Vec<TouchSample>) -> IntentEvidence,
    C: Fn(&Vec<TouchSample>, i32, Real, Real) -> CurvatureReading,

    requires
        old(detector)@.wf(),
        geometry.total(),
        geometry.model().moderate(),
    ensures
        fed(old(detector)@, s, adjust, geometry.model(), final(detector)@, ticks as int),
        final(detector)@.wf(),
        -MAX_NOTCHES <= ticks <= MAX_NOTCHES,
{
    if detector.push_if_moved(s) {
        let delta: WheelDelta = detector.step(adjust, geometry);
        delta.discrete
    } else {
        0
    }
}

/// The notches that an action asks for.
pub open spec fn notches(action: Action) -> int {
    match action {
        Action::Nothing => 0,
        Action::EmitWheelV(t) => t as int,
        Action::EmitWheelH(t) => t as int,
    }
}

proof fn lemma_seeded_bounded(
    samples: Seq<TouchSample>,
    adjust: i32,
    g: GeometryModel,
    post: DetectorView,
    ticks: int,
)
    requires
        seeded(samples, adjust, g, post, ticks),
        g.moderate(),
    ensures
        -894784 * samples.len() <= ticks <= 894784 * samples.len(),
    decreases samples.len(),
{
    if samples.len() > 0 {
        let (mid, more) = choose|mid: DetectorView, more: int| #[trigger]
            fed(mid, samples.last(), adjust, g, post, more) && seeded(
                samples.drop_last(),
                adjust,
                g,
                mid,
                ticks - more,
            );
        lemma_seeded_bounded(samples.drop_last(), adjust, g, mid, ticks - more);
    }
}

/// One frame asks for no more notches than a wheel event can carry in
/// high-resolution units.
pub proof fn law_action_is_bounded(
    pre: FsmView,
    d: DetectorView,
    frame: TouchFrame,
    scroll: Scroll,
    g: GeometryModel,
    post: FsmView,
    d_post: DetectorView,
    action: Action,
)
    requires
        pre.wf(),
        pre.steps(d, frame, scroll, g, post, d_post, action),
        g.moderate(),
    ensures
        i32::MIN <= notches(action) * 120 <= i32::MAX,
{
    if pre.settles(frame, scroll) is None && pre.state is Moving && post.state is Scrolling {
        let pos = frame.touches@[0].pos;
        assert(pre.captures(pos, scroll, g, d_post, action));
        let ticks = choose|ticks: int| #[trigger]
            seeded(pre.extended(pos), scroll.sensitivity, g, d_post, ticks) && action == outcome(
                ticks,
                scroll,
                pre.center_x,
                pre.center_y,
                pos,
            );
        lemma_seeded_bounded(pre.extended(pos), scroll.sensitivity, g, d_post, ticks);
    }
}

} // verus!
