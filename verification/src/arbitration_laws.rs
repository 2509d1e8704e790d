//! What each frame does to the contact stream, said of fingers, evidence and
//! notches.

use vstd::prelude::*;

use crate::config::Scroll;
use crate::detector::{DetectorView, TouchSample, WheelDelta};
use crate::fsm::{Action, FsmState, FsmView, IntentDecision, TouchFrame, TrackedTouch};
use crate::geometry::{GeometryModel, IntentEvidence};

verus! {

/// A frame has contact exactly if the pad says that a finger is down and at
/// least one contact is known.
pub proof fn law_contact_needs_summary_and_finger(frame: TouchFrame)
    ensures
        frame.has_contact() <==> frame.contact && frame.touches@.len() >= 1,
{
}

/// The contact of a tracking id is the first one that carries it, and is
/// missing exactly if none does.
pub proof fn law_contact_is_the_first_with_its_id(touches: Seq<TrackedTouch>, id: i32)
    ensures
        match crate::fsm::contact_of(touches, id) {
            Some(t) => exists|i: int|
                0 <= i < touches.len() && #[trigger] touches[i] == t && t.tracking_id == id && (
                forall|j: int| 0 <= j < i ==> (#[trigger] touches[j]).tracking_id != id),
            None => forall|i: int|
                0 <= i < touches.len() ==> (#[trigger] touches[i]).tracking_id != id,
        },
    decreases touches.len(),
{
    if touches.len() > 0 {
        let rest = touches.drop_first();
        law_contact_is_the_first_with_its_id(rest, id);
        if touches[0].tracking_id != id {
            match crate::fsm::contact_of(rest, id) {
                Some(t) => {
                    let i = choose|i: int|
                        0 <= i < rest.len() && #[trigger] rest[i] == t && t.tracking_id == id && (
                        forall|j: int| 0 <= j < i ==> (#[trigger] rest[j]).tracking_id != id);
                    assert(touches[i + 1] == t);
                    assert forall|j: int| 0 <= j < i + 1 implies (#[trigger] touches[j]).tracking_id
                        != id by {
                        if j > 0 {
                            assert(rest[j - 1] == touches[j]);
                        }
                    }
                },
                None => {
                    assert forall|i: int| 0 <= i < touches.len() implies (
                    #[trigger] touches[i]).tracking_id != id by {
                        if i > 0 {
                            assert(rest[i - 1] == touches[i]);
                        }
                    }
                },
            }
        } else {
            assert(touches[0] == crate::fsm::contact_of(touches, id)->0);
        }
    }
}

/// Recognition is complete and sound: from the third sample on, and however
/// many there are, a trajectory is a circle exactly if it swept the capture
/// angle, went along the ring rather than across it, and turned with its
/// sweep.
pub proof fn law_circles_are_recognised(count: int, ev: IntentEvidence)
    ensures
        crate::fsm::decided(count, ev) is Circular <==> count >= 3 && ev.swept_trigger
            && ev.tangential_dominates && ev.turn_aligned,
{
}

/// Nothing is given up without a reason. Before the twentieth sample only
/// clear motion across the ring, or a sustained straight line, is pointer
/// input; at the twentieth everything is that is not a circle. Fewer than
/// three samples decide nothing.
pub proof fn law_pointer_needs_a_reason(count: int, ev: IntentEvidence)
    ensures
        ({
            let circle = ev.swept_trigger && ev.tangential_dominates && ev.turn_aligned;
            let across = ev.radial_travel && ev.radial_dominates;
            let straight = ev.swept_straight && !ev.turn_aligned;
            &&& count < 3 ==> crate::fsm::decided(count, ev) is Pending
            &&& 3 <= count < 20 ==> (crate::fsm::decided(count, ev) is Pointer <==> !circle && (
            across || straight))
            &&& count >= 20 ==> (crate::fsm::decided(count, ev) is Pointer <==> !circle)
        }),
{
}

/// More samples with the same evidence never turn a circle into anything else,
/// and never reopen what was given up.
pub proof fn law_more_samples_keep_a_decision(count: int, more: int, ev: IntentEvidence)
    requires
        count <= more,
        !(crate::fsm::decided(count, ev) is Pending),
    ensures
        crate::fsm::decided(more, ev) == crate::fsm::decided(count, ev),
{
}

/// The wheel is turned sideways exactly if horizontal scrolling is enabled and
/// the finger points into the configured wedge.
pub proof fn law_wedge_turns_the_wheel_sideways(
    ticks: int,
    scroll: Scroll,
    center_x: i32,
    center_y: i32,
    at: TouchSample,
)
    ensures
        crate::fsm::emitted(ticks, scroll, center_x, center_y, at) is EmitWheelH
            <==> scroll.horizontal_enable && crate::detector::horizontal_arc(
            center_x,
            center_y,
            at,
            scroll.horizontal_start,
            scroll.horizontal_end,
        ),
        crate::fsm::emitted(ticks, scroll, center_x, center_y, at) is EmitWheelV
            <==> !(scroll.horizontal_enable && crate::detector::horizontal_arc(
            center_x,
            center_y,
            at,
            scroll.horizontal_start,
            scroll.horizontal_end,
        )),
{
}

/// The wheel turns by the ticks, of either sign, and by their negation where
/// the reverse flag of the axis in use is set. The flag of the other axis
/// does not matter.
pub proof fn law_movement_is_the_ticks(
    ticks: int,
    scroll: Scroll,
    center_x: i32,
    center_y: i32,
    at: TouchSample,
)
    requires
        i32::MIN < ticks <= i32::MAX,
    ensures
        match crate::fsm::emitted(ticks, scroll, center_x, center_y, at) {
            Action::EmitWheelH(moved) => moved == if scroll.reverse_horizontal {
                -ticks
            } else {
                ticks
            },
            Action::EmitWheelV(moved) => moved == if scroll.reverse_vertical {
                -ticks
            } else {
                ticks
            },
            Action::Nothing => false,
        },
{
}

/// The two directions of a circle turn the wheel in opposite directions, on
/// the same axis.
pub proof fn law_opposite_ticks_turn_back(
    ticks: int,
    scroll: Scroll,
    center_x: i32,
    center_y: i32,
    at: TouchSample,
)
    requires
        i32::MIN < ticks <= i32::MAX,
    ensures
        match (
            crate::fsm::emitted(ticks, scroll, center_x, center_y, at),
            crate::fsm::emitted(-ticks, scroll, center_x, center_y, at),
        ) {
            (Action::EmitWheelV(a), Action::EmitWheelV(b)) => a == -b,
            (Action::EmitWheelH(a), Action::EmitWheelH(b)) => a == -b,
            _ => false,
        },
{
}

/// No notches ask for nothing, and any others for exactly the movement that
/// they amount to.
pub proof fn law_only_notches_turn_the_wheel(
    ticks: int,
    scroll: Scroll,
    center_x: i32,
    center_y: i32,
    at: TouchSample,
)
    ensures
        crate::fsm::outcome(ticks, scroll, center_x, center_y, at) is Nothing <==> ticks == 0,
        ticks != 0 ==> crate::fsm::outcome(ticks, scroll, center_x, center_y, at)
            == crate::fsm::emitted(ticks, scroll, center_x, center_y, at),
{
}

/// Handing a sample to the detector stores and integrates it once if it moved,
/// and does nothing otherwise; the notches are the whole ones.
pub proof fn law_feeding_integrates_each_move_once(
    d: DetectorView,
    s: TouchSample,
    adjust: i32,
    g: GeometryModel,
    post: DetectorView,
    ticks: int,
)
    ensures
        !d.accepts(s) ==> (crate::fsm::fed(d, s, adjust, g, post, ticks) <==> post == d && ticks
            == 0),
        d.accepts(s) ==> (crate::fsm::fed(d, s, adjust, g, post, ticks) <==> exists|
            delta: WheelDelta,
        | #[trigger]
            d.store(s).integrates(adjust, g, post, delta) && ticks == delta.discrete),
{
}

/// The sum of the numbers.
pub open spec fn total_of(numbers: Seq<int>) -> int
    decreases numbers.len(),
{
    if numbers.len() == 0 {
        0
    } else {
        total_of(numbers.drop_last()) + numbers.last()
    }
}

/// The detectors follow from one another by the samples, oldest first, each
/// with its notches.
pub open spec fn fed_in_turn(
    detectors: Seq<DetectorView>,
    samples: Seq<TouchSample>,
    ticks: Seq<int>,
    adjust: i32,
    g: GeometryModel,
) -> bool {
    &&& detectors.len() == samples.len() + 1
    &&& ticks.len() == samples.len()
    &&& forall|i: int|
        0 <= i < samples.len() ==> crate::fsm::fed(
            detectors[i],
            #[trigger] samples[i],
            adjust,
            g,
            detectors[i + 1],
            ticks[i],
        )
}

/// Seeding feeds a fresh detector every sample of the candidate, oldest first,
/// and counts the notches of all of them.
pub proof fn law_seeding_feeds_every_sample(
    samples: Seq<TouchSample>,
    adjust: i32,
    g: GeometryModel,
    post: DetectorView,
    ticks: int,
) -> (r: (Seq<DetectorView>, Seq<int>))
    requires
        crate::fsm::seeded(samples, adjust, g, post, ticks),
    ensures
        fed_in_turn(r.0, samples, r.1, adjust, g),
        r.0[0] == DetectorView::fresh(),
        r.0[samples.len() as int] == post,
        total_of(r.1) == ticks,
    decreases samples.len(),
{
    if samples.len() == 0 {
        (seq![post], Seq::empty())
    } else {
        let front = samples.drop_last();
        let (mid, more) = choose|mid: DetectorView, more: int| #[trigger]
            crate::fsm::fed(mid, samples.last(), adjust, g, post, more) && crate::fsm::seeded(
                front,
                adjust,
                g,
                mid,
                ticks - more,
            );
        let (ds, ts) = law_seeding_feeds_every_sample(front, adjust, g, mid, ticks - more);
        let detectors = ds.push(post);
        let counts = ts.push(more);
        assert(counts.drop_last() =~= ts);
        assert forall|i: int| 0 <= i < samples.len() implies crate::fsm::fed(
            detectors[i],
            #[trigger] samples[i],
            adjust,
            g,
            detectors[i + 1],
            counts[i],
        ) by {
            if i < front.len() {
                assert(front[i] == samples[i]);
            }
        }
        (detectors, counts)
    }
}

/// The pad's centre never changes.
pub proof fn law_centre_stays(
    pre: FsmView,
    d: DetectorView,
    frame: TouchFrame,
    scroll: Scroll,
    g: GeometryModel,
    post: FsmView,
    d_post: DetectorView,
    action: Action,
    state: FsmState,
)
    requires
        pre.steps(d, frame, scroll, g, post, d_post, action),
    ensures
        post.center_x == pre.center_x,
        post.center_y == pre.center_y,
        pre.at(state).center_x == pre.center_x,
        pre.at(state).center_y == pre.center_y,
        pre.at(state).state == state,
        pre.at(state).samples.len() == 0,
{
}

/// A finger that comes down alone opens a candidate if it is in the ring: with
/// its own id, its own slot and its position as the first sample. Inside the
/// dead zone it is trapped where it came down.
pub proof fn law_touch_down_opens_a_candidate_in_the_ring(
    pre: FsmView,
    d: DetectorView,
    frame: TouchFrame,
    scroll: Scroll,
    g: GeometryModel,
    post: FsmView,
    d_post: DetectorView,
    action: Action,
)
    requires
        pre.steps(d, frame, scroll, g, post, d_post, action),
        pre.state is Idle,
        scroll.enable,
        frame.contact,
        frame.touches@.len() == 1,
    ensures
        ({
            let t = frame.touches@[0];
            if crate::detector::radial_gate(
                pre.center_x,
                pre.center_y,
                t.pos,
                scroll.detect_area_width,
            ) {
                &&& post.state == (FsmState::Moving { tracking_id: t.tracking_id, slot: t.slot })
                &&& post.samples == seq![t.pos]
            } else {
                &&& post.state == (FsmState::Contact { origin: t.pos })
                &&& post.samples.len() == 0
            }
        }),
        d_post == d,
        action is Nothing,
{
}

/// Without a finger down every state goes back to `Idle`, but for a captured
/// stream, which ends by way of `Debounce`. The wheel and the detector rest.
pub proof fn law_lift_ends_every_stream(
    pre: FsmView,
    d: DetectorView,
    frame: TouchFrame,
    scroll: Scroll,
    g: GeometryModel,
    post: FsmView,
    d_post: DetectorView,
    action: Action,
)
    requires
        pre.steps(d, frame, scroll, g, post, d_post, action),
        !frame.contact || frame.touches@.len() == 0,
    ensures
        post.state == if scroll.enable && pre.state is Scrolling {
            FsmState::Debounce
        } else {
            FsmState::Idle
        },
        post.samples.len() == 0,
        d_post == d,
        action is Nothing,
{
}

/// `Debounce` lasts one frame, whatever the frame holds.
pub proof fn law_debounce_lasts_one_frame(
    pre: FsmView,
    d: DetectorView,
    frame: TouchFrame,
    scroll: Scroll,
    g: GeometryModel,
    post: FsmView,
    d_post: DetectorView,
    action: Action,
)
    requires
        pre.steps(d, frame, scroll, g, post, d_post, action),
        pre.state is Debounce,
    ensures
        post.state is Idle,
        post.samples.len() == 0,
        d_post == d,
        action is Nothing,
{
}

/// A candidate belongs to one finger in the ring. If another finger takes its
/// place the stream goes to the pointer; if it slips back into the dead zone
/// it is trapped where it is.
pub proof fn law_candidate_keeps_its_finger_in_the_ring(
    pre: FsmView,
    d: DetectorView,
    frame: TouchFrame,
    scroll: Scroll,
    g: GeometryModel,
    post: FsmView,
    d_post: DetectorView,
    action: Action,
    tracking_id: i32,
    slot: usize,
)
    requires
        pre.steps(d, frame, scroll, g, post, d_post, action),
        pre.state == (FsmState::Moving { tracking_id, slot }),
        scroll.enable,
        frame.contact,
        frame.touches@.len() == 1,
    ensures
        ({
            let t = frame.touches@[0];
            let in_ring = crate::detector::radial_gate(
                pre.center_x,
                pre.center_y,
                t.pos,
                scroll.detect_area_width,
            );
            &&& t.tracking_id != tracking_id ==> post.state is Passthrough
            &&& t.tracking_id == tracking_id && !in_ring ==> post.state == (FsmState::Contact {
                origin: t.pos,
            })
            &&& t.tracking_id != tracking_id || !in_ring ==> post.samples.len() == 0 && d_post == d
                && action is Nothing
        }),
{
}

/// The frame continues the open candidate: its own finger, alone and in the
/// ring.
pub open spec fn continues(
    pre: FsmView,
    frame: TouchFrame,
    scroll: Scroll,
    tracking_id: i32,
    slot: usize,
) -> bool {
    &&& pre.state == (FsmState::Moving { tracking_id, slot })
    &&& scroll.enable
    &&& frame.contact
    &&& frame.touches@.len() == 1
    &&& frame.touches@[0].tracking_id == tracking_id
    &&& crate::detector::radial_gate(
        pre.center_x,
        pre.center_y,
        frame.touches@[0].pos,
        scroll.detect_area_width,
    )
}

/// A candidate that stands still stays as it is.
pub proof fn law_standing_still_decides_nothing(
    pre: FsmView,
    d: DetectorView,
    frame: TouchFrame,
    scroll: Scroll,
    g: GeometryModel,
    post: FsmView,
    d_post: DetectorView,
    action: Action,
    tracking_id: i32,
    slot: usize,
)
    requires
        pre.steps(d, frame, scroll, g, post, d_post, action),
        continues(pre, frame, scroll, tracking_id, slot),
        !crate::detector::moved(frame.touches@[0].pos, pre.samples.last()),
    ensures
        post == pre,
        d_post == d,
        action is Nothing,
{
}

/// A move is added to the candidate's samples, and the candidate goes where
/// its evidence says. While it has fewer than three samples, and on evidence
/// that decides nothing, it stays open.
pub proof fn law_candidate_goes_where_its_evidence_says(
    pre: FsmView,
    d: DetectorView,
    frame: TouchFrame,
    scroll: Scroll,
    g: GeometryModel,
    post: FsmView,
    d_post: DetectorView,
    action: Action,
    tracking_id: i32,
    slot: usize,
)
    requires
        pre.steps(d, frame, scroll, g, post, d_post, action),
        continues(pre, frame, scroll, tracking_id, slot),
        crate::detector::moved(frame.touches@[0].pos, pre.samples.last()),
    ensures
        ({
            let samples = pre.samples.push(frame.touches@[0].pos);
            let stays = post.state == pre.state && post.samples == samples && d_post == d && action
                is Nothing;
            &&& samples.len() < 3 ==> stays
            &&& samples.len() >= 3 ==> exists|ev: IntentEvidence| #[trigger]
                (g.evidence)(pre.center_x, pre.center_y, samples, ev) && match crate::fsm::decided(
                    samples.len() as int,
                    ev,
                ) {
                    IntentDecision::Pending => stays,
                    IntentDecision::Pointer => post.state is Passthrough && post.samples.len() == 0
                        && d_post == d && action is Nothing,
                    IntentDecision::Circular => post.state == (FsmState::Scrolling {
                        tracking_id,
                        slot,
                    }) && post.samples.len() == 0,
                }
        }),
{
    let samples = pre.samples.push(frame.touches@[0].pos);
    assert(pre.extended(frame.touches@[0].pos) == samples);
}

/// Capture is complete: an open candidate whose new sample makes three or more
/// is captured on that frame if every answer about its trajectory shows the
/// capture angle swept, along the ring, with its turn.
pub proof fn law_clear_circle_is_captured_at_once(
    pre: FsmView,
    d: DetectorView,
    frame: TouchFrame,
    scroll: Scroll,
    g: GeometryModel,
    post: FsmView,
    d_post: DetectorView,
    action: Action,
    tracking_id: i32,
    slot: usize,
)
    requires
        pre.steps(d, frame, scroll, g, post, d_post, action),
        continues(pre, frame, scroll, tracking_id, slot),
        crate::detector::moved(frame.touches@[0].pos, pre.samples.last()),
        pre.samples.len() >= 2,
        forall|ev: IntentEvidence| #[trigger]
            (g.evidence)(
                pre.center_x,
                pre.center_y,
                pre.samples.push(frame.touches@[0].pos),
                ev,
            ) ==> ev.swept_trigger && ev.tangential_dominates && ev.turn_aligned,
    ensures
        post.state == (FsmState::Scrolling { tracking_id, slot }),
{
    law_candidate_goes_where_its_evidence_says(
        pre,
        d,
        frame,
        scroll,
        g,
        post,
        d_post,
        action,
        tracking_id,
        slot,
    );
}

/// An open candidate below the sample limit is only given up, alone and in the
/// ring, on an answer that shows clear motion across the ring or a straight
/// line.
pub proof fn law_candidate_is_given_up_for_a_reason(
    pre: FsmView,
    d: DetectorView,
    frame: TouchFrame,
    scroll: Scroll,
    g: GeometryModel,
    post: FsmView,
    d_post: DetectorView,
    action: Action,
    tracking_id: i32,
    slot: usize,
)
    requires
        pre.steps(d, frame, scroll, g, post, d_post, action),
        continues(pre, frame, scroll, tracking_id, slot),
        pre.samples.len() < 19,
        post.state is Passthrough,
    ensures
        exists|ev: IntentEvidence| #[trigger]
            (g.evidence)(
                pre.center_x,
                pre.center_y,
                pre.samples.push(frame.touches@[0].pos),
                ev,
            ) && ((ev.radial_travel && ev.radial_dominates) || (ev.swept_straight
                && !ev.turn_aligned)),
{
    if crate::detector::moved(frame.touches@[0].pos, pre.samples.last()) {
        law_candidate_goes_where_its_evidence_says(
            pre,
            d,
            frame,
            scroll,
            g,
            post,
            d_post,
            action,
            tracking_id,
            slot,
        );
    }
}

/// On capture a fresh detector takes in the whole candidate, the new sample
/// last, at the configured sensitivity, and the wheel turns by all the
/// notches of it, at the finger's position.
pub proof fn law_capture_turns_the_wheel_by_the_candidate(
    pre: FsmView,
    d: DetectorView,
    frame: TouchFrame,
    scroll: Scroll,
    g: GeometryModel,
    post: FsmView,
    d_post: DetectorView,
    action: Action,
    tracking_id: i32,
    slot: usize,
)
    requires
        pre.steps(d, frame, scroll, g, post, d_post, action),
        continues(pre, frame, scroll, tracking_id, slot),
        post.state is Scrolling,
    ensures
        ({
            let pos = frame.touches@[0].pos;
            exists|ticks: int| #[trigger]
                crate::fsm::seeded(
                    pre.samples.push(pos),
                    scroll.sensitivity,
                    g,
                    d_post,
                    ticks,
                ) && action == crate::fsm::outcome(
                    ticks,
                    scroll,
                    pre.center_x,
                    pre.center_y,
                    pos,
                )
        }),
{
    let pos = frame.touches@[0].pos;
    if crate::detector::moved(pos, pre.samples.last()) {
        assert(pre.extended(pos) == pre.samples.push(pos));
        assert(pre.captures(pos, scroll, g, d_post, action));
    }
}

/// A captured finger is followed: each position of it is fed to the detector
/// once, at the configured sensitivity, and the wheel turns by the notches, at
/// that position.
pub proof fn law_captured_finger_is_followed(
    pre: FsmView,
    d: DetectorView,
    frame: TouchFrame,
    scroll: Scroll,
    g: GeometryModel,
    post: FsmView,
    d_post: DetectorView,
    action: Action,
    tracking_id: i32,
    slot: usize,
    touch: TrackedTouch,
)
    requires
        pre.steps(d, frame, scroll, g, post, d_post, action),
        pre.state == (FsmState::Scrolling { tracking_id, slot }),
        scroll.enable,
        frame.contact,
        crate::fsm::contact_of(frame.touches@, tracking_id) == Some(touch),
    ensures
        post == pre,
        exists|ticks: int| #[trigger]
            crate::fsm::fed(d, touch.pos, scroll.sensitivity, g, d_post, ticks) && action
                == crate::fsm::outcome(ticks, scroll, pre.center_x, pre.center_y, touch.pos),
{
    law_contact_is_the_first_with_its_id(frame.touches@, tracking_id);
}

} // verus!
