//! What holds of the recogniser as a whole.
//!
//! A run of the state machine is a sequence of moments with one frame and one
//! action between each two. The laws are stated over every run that the
//! step contract allows, whatever the geometry answers.

use vstd::prelude::*;

use crate::config::Scroll;
use crate::detector::{DetectorView, TouchSample, WheelDelta, HISTORY_CAPACITY};
use crate::fsm::{
    Action, FsmState, FsmView, IntentDecision, TouchFrame, TrackedTouch, INTENT_MAX_SAMPLES,
    INTENT_MIN_SAMPLES,
};
use crate::geometry::{CurvatureReading, GeometryModel, IntentEvidence};

verus! {

/// The state machine and the detector between two frames.
pub struct Moment {
    pub fsm: FsmView,
    pub detector: DetectorView,
}

/// The moments follow from one another by the frames and actions.
pub open spec fn plays(
    run: Seq<Moment>,
    frames: Seq<TouchFrame>,
    actions: Seq<Action>,
    scroll: Scroll,
    g: GeometryModel,
) -> bool {
    &&& run.len() == frames.len() + 1
    &&& actions.len() == frames.len()
    &&& forall|i: int|
        0 <= i < frames.len() ==> run[i].fsm.steps(
            run[i].detector,
            #[trigger] frames[i],
            scroll,
            g,
            run[i + 1].fsm,
            run[i + 1].detector,
            actions[i],
        )
}

/// Every step keeps the machine and the detector well formed: a candidate
/// holds between one and nineteen samples, each outside the dead band of the
/// one before, and there are no samples without a candidate.
pub proof fn law_steps_keep_well_formed(
    pre: FsmView,
    d: DetectorView,
    frame: TouchFrame,
    scroll: Scroll,
    g: GeometryModel,
    post: FsmView,
    d_post: DetectorView,
    action: Action,
)
    requires
        pre.wf(),
        d.wf(),
        pre.steps(d, frame, scroll, g, post, d_post, action),
    ensures
        post.wf(),
        d_post.wf(),
{
    if pre.settles(frame, scroll) is None {
        match pre.state {
            FsmState::Moving { tracking_id, slot } => {
                let pos = frame.touches@[0].pos;
                let decision = choose|decision: IntentDecision| #[trigger]
                    pre.judged(pos, g, decision) && match decision {
                        IntentDecision::Pending => {
                            &&& post == FsmView { samples: pre.extended(pos), ..pre }
                            &&& d_post == d
                            &&& action is Nothing
                        },
                        IntentDecision::Pointer => {
                            &&& post == pre.at(FsmState::Passthrough)
                            &&& d_post == d
                            &&& action is Nothing
                        },
                        IntentDecision::Circular => {
                            &&& post == pre.at(FsmState::Scrolling { tracking_id, slot })
                            &&& pre.captures(pos, scroll, g, d_post, action)
                        },
                    };
                if decision is Circular {
                    let ticks = choose|ticks: int| #[trigger]
                        crate::fsm::seeded(
                            pre.extended(pos),
                            scroll.sensitivity,
                            g,
                            d_post,
                            ticks,
                        ) && action == crate::fsm::outcome(
                            ticks,
                            scroll,
                            pre.center_x,
                            pre.center_y,
                            pos,
                        );
                    lemma_seeded_wf(pre.extended(pos), scroll.sensitivity, g, d_post, ticks);
                }
            },
            FsmState::Scrolling { tracking_id, slot } => {
                let pos = crate::fsm::contact_of(frame.touches@, tracking_id)->0.pos;
                let ticks = choose|ticks: int| #[trigger]
                    crate::fsm::fed(d, pos, scroll.sensitivity, g, d_post, ticks) && action
                        == crate::fsm::outcome(ticks, scroll, pre.center_x, pre.center_y, pos);
                lemma_fed_wf(d, pos, scroll.sensitivity, g, d_post, ticks);
            },
            _ => {},
        }
    }
}

proof fn lemma_fed_wf(
    d: DetectorView,
    s: TouchSample,
    adjust: i32,
    g: GeometryModel,
    post: DetectorView,
    ticks: int,
)
    requires
        d.wf(),
        crate::fsm::fed(d, s, adjust, g, post, ticks),
    ensures
        post.wf(),
        post.history == if d.accepts(s) {
            d.store(s).history
        } else {
            d.history
        },
{
    if d.accepts(s) {
        crate::detector::lemma_store_wf(d, s);
    }
}

proof fn lemma_seeded_wf(
    samples: Seq<TouchSample>,
    adjust: i32,
    g: GeometryModel,
    post: DetectorView,
    ticks: int,
)
    requires
        crate::fsm::seeded(samples, adjust, g, post, ticks),
    ensures
        post.wf(),
    decreases samples.len(),
{
    if samples.len() > 0 {
        let (mid, more) = choose|mid: DetectorView, more: int| #[trigger]
            crate::fsm::fed(mid, samples.last(), adjust, g, post, more) && crate::fsm::seeded(
                samples.drop_last(),
                adjust,
                g,
                mid,
                ticks - more,
            );
        lemma_seeded_wf(samples.drop_last(), adjust, g, mid, ticks - more);
        lemma_fed_wf(mid, samples.last(), adjust, g, post, more);
    }
}

/// While scrolling is disabled, every frame leaves the machine idle, the
/// detector untouched and the wheel still.
pub proof fn law_disabled_scroll_holds_idle(
    run: Seq<Moment>,
    frames: Seq<TouchFrame>,
    actions: Seq<Action>,
    scroll: Scroll,
    g: GeometryModel,
)
    requires
        plays(run, frames, actions, scroll, g),
        !scroll.enable,
    ensures
        forall|i: int|
            0 <= i < frames.len() ==> #[trigger] actions[i] is Nothing && run[i + 1].fsm.state
                is Idle && run[i + 1].detector == run[i].detector,
{
    assert forall|i: int| 0 <= i < frames.len() implies #[trigger] actions[i] is Nothing && run[i
        + 1].fsm.state is Idle && run[i + 1].detector == run[i].detector by {
        let frame = frames[i];
    }
}

/// A stream that was handed to a multi-finger gesture, to the pointer or to
/// the dead zone stays there while any finger is down: the state does not
/// change, the detector is not touched and the wheel stays still.
pub proof fn law_given_up_streams_stay_given_up(
    run: Seq<Moment>,
    frames: Seq<TouchFrame>,
    actions: Seq<Action>,
    scroll: Scroll,
    g: GeometryModel,
    n: int,
)
    requires
        plays(run, frames, actions, scroll, g),
        run[0].fsm.state is MultiTouch || run[0].fsm.state is Passthrough || run[0].fsm.state
            is Contact,
        scroll.enable,
        forall|i: int| 0 <= i < frames.len() ==> (#[trigger] frames[i]).has_contact(),
        0 <= n <= frames.len(),
    ensures
        run[n] == run[0],
        forall|i: int| 0 <= i < n ==> #[trigger] actions[i] is Nothing,
    decreases n,
{
    if n > 0 {
        law_given_up_streams_stay_given_up(run, frames, actions, scroll, g, n - 1);
        let frame = frames[n - 1];
        assert(run[n - 1].fsm.steps(
            run[n - 1].detector,
            frame,
            scroll,
            g,
            run[n - 1 + 1].fsm,
            run[n - 1 + 1].detector,
            actions[n - 1],
        ));
    }
}

/// Before capture, a second finger wins: the stream goes to the multi-finger
/// gesture and the wheel stays still.
pub proof fn law_second_finger_wins_before_capture(
    pre: FsmView,
    d: DetectorView,
    frame: TouchFrame,
    scroll: Scroll,
    g: GeometryModel,
    post: FsmView,
    d_post: DetectorView,
    action: Action,
)
    requires
        pre.steps(d, frame, scroll, g, post, d_post, action),
        pre.state is Idle || pre.state is Moving,
        scroll.enable,
        frame.has_contact(),
        frame.touches@.len() > 1,
    ensures
        post.state is MultiTouch,
        d_post == d,
        action is Nothing,
{
}

/// Once captured, circular scrolling keeps the stream and its tracking id
/// while any finger is down.
pub proof fn law_captured_stream_stays_captured(
    run: Seq<Moment>,
    frames: Seq<TouchFrame>,
    actions: Seq<Action>,
    scroll: Scroll,
    g: GeometryModel,
    n: int,
)
    requires
        plays(run, frames, actions, scroll, g),
        run[0].fsm.state is Scrolling,
        scroll.enable,
        forall|i: int| 0 <= i < frames.len() ==> (#[trigger] frames[i]).has_contact(),
        0 <= n <= frames.len(),
    ensures
        run[n].fsm == run[0].fsm,
    decreases n,
{
    if n > 0 {
        law_captured_stream_stays_captured(run, frames, actions, scroll, g, n - 1);
        let frame = frames[n - 1];
        assert(run[n - 1].fsm.steps(
            run[n - 1].detector,
            frame,
            scroll,
            g,
            run[n - 1 + 1].fsm,
            run[n - 1 + 1].detector,
            actions[n - 1],
        ));
    }
}

/// Another finger is never substituted for the captured one: frames without
/// its tracking id change nothing.
pub proof fn law_no_finger_is_substituted(
    run: Seq<Moment>,
    frames: Seq<TouchFrame>,
    actions: Seq<Action>,
    scroll: Scroll,
    g: GeometryModel,
    tracking_id: i32,
    slot: usize,
    n: int,
)
    requires
        plays(run, frames, actions, scroll, g),
        run[0].fsm.state == (FsmState::Scrolling { tracking_id, slot }),
        scroll.enable,
        forall|i: int|
            0 <= i < frames.len() ==> (#[trigger] frames[i]).has_contact()
                && crate::fsm::contact_of(frames[i].touches@, tracking_id) is None,
        0 <= n <= frames.len(),
    ensures
        run[n] == run[0],
        forall|i: int| 0 <= i < n ==> #[trigger] actions[i] is Nothing,
    decreases n,
{
    if n > 0 {
        law_no_finger_is_substituted(run, frames, actions, scroll, g, tracking_id, slot, n - 1);
        let frame = frames[n - 1];
        assert(run[n - 1].fsm.steps(
            run[n - 1].detector,
            frame,
            scroll,
            g,
            run[n - 1 + 1].fsm,
            run[n - 1 + 1].detector,
            actions[n - 1],
        ));
    }
}

/// `alone` is `frame` with every contact but those of the tracking id taken
/// out, where it holds one, and `frame` itself otherwise.
pub open spec fn without_others(frame: TouchFrame, alone: TouchFrame, tracking_id: i32) -> bool {
    &&& alone.contact == frame.contact
    &&& alone.touches@ == if crate::fsm::contact_of(frame.touches@, tracking_id) is Some {
        frame.touches@.filter(|t: TrackedTouch| t.tracking_id == tracking_id)
    } else {
        frame.touches@
    }
}

proof fn lemma_contact_survives_filter(touches: Seq<TrackedTouch>, tracking_id: i32)
    ensures
        crate::fsm::contact_of(
            touches.filter(|t: TrackedTouch| t.tracking_id == tracking_id),
            tracking_id,
        ) == crate::fsm::contact_of(touches, tracking_id),
    decreases touches.len(),
{
    let own = |t: TrackedTouch| t.tracking_id == tracking_id;
    reveal(Seq::filter);
    assert(Seq::<TrackedTouch>::empty().filter(own) =~= Seq::empty());
    if touches.len() > 0 {
        let first = seq![touches[0]];
        let rest = touches.drop_first();
        lemma_contact_survives_filter(rest, tracking_id);
        assert(touches =~= first + rest);
        Seq::filter_distributes_over_add(first, rest, own);
        assert(first.drop_last() =~= Seq::empty());
        assert(first.last() == touches[0]);
        if own(touches[0]) {
            assert(first.filter(own) =~= first);
            assert(touches.filter(own)[0] == touches[0]);
        } else {
            assert(first.filter(own) =~= Seq::empty());
            assert(touches.filter(own) =~= rest.filter(own));
        }
    } else {
        assert(touches.filter(own) =~= touches);
    }
}

/// Other fingers make no difference to a captured gesture. It keeps the stream
/// while any finger is down. A frame that holds its finger has the outcomes
/// that it would have with that finger alone; one that does not changes
/// nothing.
pub proof fn law_other_fingers_make_no_difference(
    pre: FsmView,
    d: DetectorView,
    frame: TouchFrame,
    alone: TouchFrame,
    scroll: Scroll,
    g: GeometryModel,
    post: FsmView,
    d_post: DetectorView,
    action: Action,
    tracking_id: i32,
    slot: usize,
)
    requires
        pre.state == (FsmState::Scrolling { tracking_id, slot }),
        scroll.enable,
        frame.has_contact(),
        without_others(frame, alone, tracking_id),
    ensures
        pre.steps(d, frame, scroll, g, post, d_post, action) <==> pre.steps(
            d,
            alone,
            scroll,
            g,
            post,
            d_post,
            action,
        ),
        pre.steps(d, frame, scroll, g, post, d_post, action) ==> post == pre,
        crate::fsm::contact_of(frame.touches@, tracking_id) is None ==> (pre.steps(
            d,
            frame,
            scroll,
            g,
            post,
            d_post,
            action,
        ) <==> post == pre && d_post == d && action is Nothing),
{
    lemma_contact_survives_filter(frame.touches@, tracking_id);
}

/// Two runs of a captured gesture, with and without the other fingers, go the
/// same way throughout, where the geometry answers each question in one way.
pub proof fn law_captured_runs_ignore_other_fingers(
    run: Seq<Moment>,
    frames: Seq<TouchFrame>,
    actions: Seq<Action>,
    alone_run: Seq<Moment>,
    alone_frames: Seq<TouchFrame>,
    alone_actions: Seq<Action>,
    scroll: Scroll,
    g: GeometryModel,
    tracking_id: i32,
    slot: usize,
    n: int,
)
    requires
        functional(g),
        plays(run, frames, actions, scroll, g),
        plays(alone_run, alone_frames, alone_actions, scroll, g),
        alone_run[0] == run[0],
        run[0].fsm.state == (FsmState::Scrolling { tracking_id, slot }),
        scroll.enable,
        alone_frames.len() == frames.len(),
        forall|i: int|
            0 <= i < frames.len() ==> (#[trigger] frames[i]).has_contact() && without_others(
                frames[i],
                alone_frames[i],
                tracking_id,
            ),
        0 <= n <= frames.len(),
    ensures
        alone_run[n] == run[n],
        run[n].fsm == run[0].fsm,
        forall|i: int| 0 <= i < n ==> #[trigger] alone_actions[i] == actions[i],
    decreases n,
{
    if n > 0 {
        let i = n - 1;
        law_captured_runs_ignore_other_fingers(
            run,
            frames,
            actions,
            alone_run,
            alone_frames,
            alone_actions,
            scroll,
            g,
            tracking_id,
            slot,
            i,
        );
        let pre = run[i];
        let frame = frames[i];
        let alone = alone_frames[i];
        law_other_fingers_make_no_difference(
            pre.fsm,
            pre.detector,
            frame,
            alone,
            scroll,
            g,
            alone_run[i + 1].fsm,
            alone_run[i + 1].detector,
            alone_actions[i],
            tracking_id,
            slot,
        );
        law_step_has_one_outcome(
            pre.fsm,
            pre.detector,
            frame,
            scroll,
            g,
            run[i + 1].fsm,
            run[i + 1].detector,
            actions[i],
            alone_run[i + 1].fsm,
            alone_run[i + 1].detector,
            alone_actions[i],
        );
    }
}

/// A finger that rests inside the dead band of its last stored sample does
/// not turn the wheel, however many frames it rests.
pub proof fn law_resting_finger_is_silent(
    run: Seq<Moment>,
    frames: Seq<TouchFrame>,
    actions: Seq<Action>,
    scroll: Scroll,
    g: GeometryModel,
    tracking_id: i32,
    slot: usize,
    n: int,
)
    requires
        plays(run, frames, actions, scroll, g),
        run[0].fsm.state == (FsmState::Scrolling { tracking_id, slot }),
        scroll.enable,
        forall|i: int|
            0 <= i < frames.len() ==> (#[trigger] frames[i]).has_contact() && (
            crate::fsm::contact_of(frames[i].touches@, tracking_id) matches Some(touch)
                ==> !run[0].detector.accepts(touch.pos)),
        0 <= n <= frames.len(),
    ensures
        run[n] == run[0],
        forall|i: int| 0 <= i < n ==> #[trigger] actions[i] is Nothing,
    decreases n,
{
    if n > 0 {
        law_resting_finger_is_silent(run, frames, actions, scroll, g, tracking_id, slot, n - 1);
        let frame = frames[n - 1];
        assert(run[n - 1].fsm.steps(
            run[n - 1].detector,
            frame,
            scroll,
            g,
            run[n - 1 + 1].fsm,
            run[n - 1 + 1].detector,
            actions[n - 1],
        ));
    }
}

/// The wheel only moves while circular scrolling owns the stream.
pub proof fn law_wheel_moves_only_when_captured(
    pre: FsmView,
    d: DetectorView,
    frame: TouchFrame,
    scroll: Scroll,
    g: GeometryModel,
    post: FsmView,
    d_post: DetectorView,
    action: Action,
)
    requires
        pre.steps(d, frame, scroll, g, post, d_post, action),
    ensures
        !(action is Nothing) ==> post.state is Scrolling && frame.has_contact() && scroll.enable,
        d_post != d ==> post.state is Scrolling,
{
}

/// Capture needs an open candidate of at least three samples, its own finger
/// alone on the pad and in the ring, and a trajectory that swept the capture
/// angle, along rather than across the ring, and turned with its sweep.
pub proof fn law_capture_needs_evidence(
    pre: FsmView,
    d: DetectorView,
    frame: TouchFrame,
    scroll: Scroll,
    g: GeometryModel,
    post: FsmView,
    d_post: DetectorView,
    action: Action,
    tracking_id: i32,
    slot: usize,
)
    requires
        pre.steps(d, frame, scroll, g, post, d_post, action),
        !(pre.state is Scrolling),
        post.state == (FsmState::Scrolling { tracking_id, slot }),
    ensures
        pre.state == (FsmState::Moving { tracking_id, slot }),
        frame.has_contact(),
        frame.touches@.len() == 1,
        frame.touches@[0].tracking_id == tracking_id,
        crate::detector::radial_gate(
            pre.center_x,
            pre.center_y,
            frame.touches@[0].pos,
            scroll.detect_area_width,
        ),
        pre.extended(frame.touches@[0].pos).len() >= INTENT_MIN_SAMPLES,
        exists|ev: IntentEvidence| #[trigger]
            (g.evidence)(
                pre.center_x,
                pre.center_y,
                pre.extended(frame.touches@[0].pos),
                ev,
            ) && ev.swept_trigger && ev.tangential_dominates && ev.turn_aligned,
{
}

/// A captured gesture starts the detector afresh and loses none of its
/// motion: the history is the candidate's samples, newest first.
pub proof fn law_capture_takes_every_sample(
    pre: FsmView,
    d: DetectorView,
    frame: TouchFrame,
    scroll: Scroll,
    g: GeometryModel,
    post: FsmView,
    d_post: DetectorView,
    action: Action,
)
    requires
        pre.wf(),
        pre.steps(d, frame, scroll, g, post, d_post, action),
        !(pre.state is Scrolling),
        post.state is Scrolling,
    ensures
        d_post.history == pre.extended(frame.touches@[0].pos).reverse(),
        post.samples.len() == 0,
{
    let pos = frame.touches@[0].pos;
    let samples = pre.extended(pos);
    assert(pre.captures(pos, scroll, g, d_post, action));
    let ticks = choose|ticks: int| #[trigger]
        crate::fsm::seeded(samples, scroll.sensitivity, g, d_post, ticks) && action
            == crate::fsm::outcome(ticks, scroll, pre.center_x, pre.center_y, pos);
    lemma_seeded_history(samples, scroll.sensitivity, g, d_post, ticks);
}

proof fn lemma_seeded_history(
    samples: Seq<TouchSample>,
    adjust: i32,
    g: GeometryModel,
    post: DetectorView,
    ticks: int,
)
    requires
        crate::fsm::seeded(samples, adjust, g, post, ticks),
        crate::fsm::spaced(samples),
        samples.len() <= HISTORY_CAPACITY,
    ensures
        post.wf(),
        post.history == samples.reverse(),
    decreases samples.len(),
{
    if samples.len() > 0 {
        let front = samples.drop_last();
        let (mid, more) = choose|mid: DetectorView, more: int| #[trigger]
            crate::fsm::fed(mid, samples.last(), adjust, g, post, more) && crate::fsm::seeded(
                front,
                adjust,
                g,
                mid,
                ticks - more,
            );
        assert forall|i: int| 0 <= i < front.len() - 1 implies crate::detector::moved(
            #[trigger] front[i + 1],
            front[i],
        ) by {
            assert(crate::detector::moved(samples[i + 1], samples[i]));
        }
        lemma_seeded_history(front, adjust, g, mid, ticks - more);
        if front.len() > 0 {
            let k = front.len() - 1;
            assert(mid.history[0] == front[k]);
            assert(crate::detector::moved(samples[k + 1], samples[k]));
        }
        assert(mid.accepts(samples.last()));
        lemma_fed_wf(mid, samples.last(), adjust, g, post, more);
        assert(post.history =~= samples.reverse());
    } else {
        assert(post.history =~= samples.reverse());
    }
}

/// Lifting every finger ends any gesture: two frames later at most, whatever
/// they hold, a fresh arbitration starts from `Idle`.
pub proof fn law_all_up_starts_over(
    first: FsmView,
    d: DetectorView,
    lift: TouchFrame,
    scroll: Scroll,
    g: GeometryModel,
    second: FsmView,
    d_second: DetectorView,
    action: Action,
    next: TouchFrame,
    third: FsmView,
    d_third: DetectorView,
    next_action: Action,
)
    requires
        first.steps(d, lift, scroll, g, second, d_second, action),
        !lift.has_contact(),
        second.steps(d_second, next, scroll, g, third, d_third, next_action),
    ensures
        second.state is Idle || second.state is Debounce,
        second.state is Debounce <==> (scroll.enable && first.state is Scrolling),
        second.state is Debounce ==> third.state is Idle,
        !next.has_contact() ==> third.state is Idle,
        action is Nothing,
{
}

/// Sweeping the capture angle never speaks against a candidate: what is given
/// up with that sweep would be given up without it.
pub proof fn law_capture_sweep_rejects_nothing(count: int, ev: IntentEvidence)
    requires
        crate::fsm::decided(count, (IntentEvidence { swept_trigger: true, ..ev })) is Pointer,
    ensures
        crate::fsm::decided(count, (IntentEvidence { swept_trigger: false, ..ev })) is Pointer,
{
}

/// An open candidate does not stay open for ever: the sample that fills it up
/// decides it.
pub proof fn law_full_candidate_is_decided(
    pre: FsmView,
    d: DetectorView,
    frame: TouchFrame,
    scroll: Scroll,
    g: GeometryModel,
    post: FsmView,
    d_post: DetectorView,
    action: Action,
)
    requires
        pre.wf(),
        pre.steps(d, frame, scroll, g, post, d_post, action),
        pre.state is Moving,
        pre.samples.len() == INTENT_MAX_SAMPLES - 1,
        frame.has_contact(),
        crate::detector::moved(frame.touches@[0].pos, pre.samples.last()),
    ensures
        !(post.state is Moving),
{
}

/// Setting the reverse flag of the axis in use negates the movement.
pub proof fn law_reverse_flag_negates(
    ticks: int,
    scroll: Scroll,
    flipped: Scroll,
    center_x: i32,
    center_y: i32,
    at: TouchSample,
)
    requires
        i32::MIN < ticks <= i32::MAX,
        flipped == (Scroll {
            reverse_vertical: !scroll.reverse_vertical,
            reverse_horizontal: !scroll.reverse_horizontal,
            ..scroll
        }),
    ensures
        match (
            crate::fsm::emitted(ticks, scroll, center_x, center_y, at),
            crate::fsm::emitted(ticks, flipped, center_x, center_y, at),
        ) {
            (Action::EmitWheelV(a), Action::EmitWheelV(b)) => a == -b,
            (Action::EmitWheelH(a), Action::EmitWheelH(b)) => a == -b,
            _ => false,
        },
{
}

/// Without horizontal scrolling the wheel is never turned sideways.
pub proof fn law_vertical_is_not_gated_by_angle(
    ticks: int,
    scroll: Scroll,
    center_x: i32,
    center_y: i32,
    at: TouchSample,
)
    requires
        !scroll.horizontal_enable,
    ensures
        crate::fsm::emitted(ticks, scroll, center_x, center_y, at) is EmitWheelV,
{
}

/// The geometry answers each question in one way only.
pub open spec fn functional(g: GeometryModel) -> bool {
    &&& forall|x: i32, y: i32, s: Seq<TouchSample>, a: IntentEvidence, b: IntentEvidence|
        #[trigger] (g.evidence)(x, y, s, a) && #[trigger] (g.evidence)(x, y, s, b) ==> a == b
    &&& forall|
        s: Seq<TouchSample>,
        m: i32,
        acc: crate::geometry::Real,
        rem: crate::geometry::Real,
        a: CurvatureReading,
        b: CurvatureReading,
    |
        #[trigger] (g.curvature)(s, m, acc, rem, a) && #[trigger] (g.curvature)(s, m, acc, rem, b)
            ==> a == b
}

proof fn lemma_fed_functional(
    d: DetectorView,
    s: TouchSample,
    adjust: i32,
    g: GeometryModel,
    p1: DetectorView,
    t1: int,
    p2: DetectorView,
    t2: int,
)
    requires
        functional(g),
        crate::fsm::fed(d, s, adjust, g, p1, t1),
        crate::fsm::fed(d, s, adjust, g, p2, t2),
    ensures
        p1 == p2,
        t1 == t2,
{
    if d.accepts(s) {
        let q = d.store(s);
        let a = choose|delta: WheelDelta| #[trigger]
            q.integrates(adjust, g, p1, delta) && t1 == delta.discrete;
        let b = choose|delta: WheelDelta| #[trigger]
            q.integrates(adjust, g, p2, delta) && t2 == delta.discrete;
        if q.ready() {
            let ra = choose|r: CurvatureReading| #[trigger]
                q.measured(adjust, g, r) && p1 == q.settled(r) && a == q.delta(r);
            let rb = choose|r: CurvatureReading| #[trigger]
                q.measured(adjust, g, r) && p2 == q.settled(r) && b == q.delta(r);
            assert(ra == rb);
        }
    }
}

proof fn lemma_seeded_functional(
    samples: Seq<TouchSample>,
    adjust: i32,
    g: GeometryModel,
    p1: DetectorView,
    t1: int,
    p2: DetectorView,
    t2: int,
)
    requires
        functional(g),
        crate::fsm::seeded(samples, adjust, g, p1, t1),
        crate::fsm::seeded(samples, adjust, g, p2, t2),
    ensures
        p1 == p2,
        t1 == t2,
    decreases samples.len(),
{
    if samples.len() > 0 {
        let front = samples.drop_last();
        let last = samples.last();
        let (m1, a) = choose|mid: DetectorView, more: int| #[trigger]
            crate::fsm::fed(mid, last, adjust, g, p1, more) && crate::fsm::seeded(
                front,
                adjust,
                g,
                mid,
                t1 - more,
            );
        let (m2, b) = choose|mid: DetectorView, more: int| #[trigger]
            crate::fsm::fed(mid, last, adjust, g, p2, more) && crate::fsm::seeded(
                front,
                adjust,
                g,
                mid,
                t2 - more,
            );
        lemma_seeded_functional(front, adjust, g, m1, t1 - a, m2, t2 - b);
        lemma_fed_functional(m1, last, adjust, g, p1, a, p2, b);
    }
}

/// Where the geometry answers each question in one way, a frame has one
/// outcome: the step contract leaves nothing else open.
pub proof fn law_step_has_one_outcome(
    pre: FsmView,
    d: DetectorView,
    frame: TouchFrame,
    scroll: Scroll,
    g: GeometryModel,
    post1: FsmView,
    d1: DetectorView,
    action1: Action,
    post2: FsmView,
    d2: DetectorView,
    action2: Action,
)
    requires
        functional(g),
        pre.steps(d, frame, scroll, g, post1, d1, action1),
        pre.steps(d, frame, scroll, g, post2, d2, action2),
    ensures
        post1 == post2,
        d1 == d2,
        action1 == action2,
{
    if pre.settles(frame, scroll) is None {
        match pre.state {
            FsmState::Moving { tracking_id, slot } => {
                let pos = frame.touches@[0].pos;
                let samples = pre.extended(pos);
                if post1.state is Scrolling && post2.state is Scrolling {
                    assert(pre.captures(pos, scroll, g, d1, action1));
                    assert(pre.captures(pos, scroll, g, d2, action2));
                    let t1 = choose|ticks: int| #[trigger]
                        crate::fsm::seeded(samples, scroll.sensitivity, g, d1, ticks) && action1
                            == crate::fsm::outcome(ticks, scroll, pre.center_x, pre.center_y, pos);
                    let t2 = choose|ticks: int| #[trigger]
                        crate::fsm::seeded(samples, scroll.sensitivity, g, d2, ticks) && action2
                            == crate::fsm::outcome(ticks, scroll, pre.center_x, pre.center_y, pos);
                    lemma_seeded_functional(samples, scroll.sensitivity, g, d1, t1, d2, t2);
                }
            },
            FsmState::Scrolling { tracking_id, slot } => {
                let pos = crate::fsm::contact_of(frame.touches@, tracking_id)->0.pos;
                let t1 = choose|ticks: int| #[trigger]
                    crate::fsm::fed(d, pos, scroll.sensitivity, g, d1, ticks) && action1
                        == crate::fsm::outcome(ticks, scroll, pre.center_x, pre.center_y, pos);
                let t2 = choose|ticks: int| #[trigger]
                    crate::fsm::fed(d, pos, scroll.sensitivity, g, d2, ticks) && action2
                        == crate::fsm::outcome(ticks, scroll, pre.center_x, pre.center_y, pos);
                lemma_fed_functional(d, pos, scroll.sensitivity, g, d1, t1, d2, t2);
            },
            _ => {},
        }
    }
}

} // verus!
