//! What one report does to the daemon, said of frames, times and batches.

use vstd::prelude::*;

use crate::config::Scroll;
use crate::daemon::{DaemonView, Outcome};
use crate::detector::DetectorView;
use crate::event::{InputEvent, EV_SYN, SYN_REPORT};
use crate::fsm::{Action, FsmView, TouchFrame};
use crate::geometry::GeometryModel;

verus! {

/// The contents of several frames are those of each, at the same place.
pub proof fn law_contents_are_frame_by_frame(frames: Seq<Vec<InputEvent>>, i: int)
    requires
        0 <= i < frames.len(),
    ensures
        crate::daemon::contents(frames).len() == frames.len(),
        crate::daemon::contents(frames)[i] == frames[i]@,
{
}

/// Frames are put one after the other: none give nothing, and a further frame
/// goes behind the others, whole.
pub proof fn law_frames_are_put_one_after_the_other(
    frames: Seq<Seq<InputEvent>>,
    frame: Seq<InputEvent>,
)
    ensures
        crate::daemon::joined(Seq::empty()) == Seq::<InputEvent>::empty(),
        crate::daemon::joined(frames.push(frame)) == crate::daemon::joined(frames) + frame,
{
    assert(frames.push(frame).drop_last() =~= frames);
}

/// A report is complete exactly if its last event, and no other, is the
/// boundary. An unfinished one holds none.
pub proof fn law_boundary_completes_a_report(events: Seq<InputEvent>)
    ensures
        crate::daemon::complete_report(events) <==> events.len() > 0 && (forall|i: int|
            0 <= i < events.len() ==> (((#[trigger] events[i]).event_type == EV_SYN
                && events[i].code == SYN_REPORT) <==> i == events.len() - 1)),
        crate::daemon::open_report(events) <==> (forall|i: int|
            0 <= i < events.len() ==> !((#[trigger] events[i]).event_type == EV_SYN
                && events[i].code == SYN_REPORT)),
{
    if events.len() > 0 {
        assert(events.last() == events[events.len() - 1]);
    }
    if events.len() > 0 && (forall|i: int|
        0 <= i < events.len() ==> (((#[trigger] events[i]).event_type == EV_SYN && events[i].code
            == SYN_REPORT) <==> i == events.len() - 1)) {
        assert forall|i: int| 0 <= i < events.len() - 1 implies !(
        #[trigger] events[i]).closes_report() by {}
        assert(crate::daemon::complete_report(events));
    }
    if crate::daemon::open_report(events) {
        assert forall|i: int| 0 <= i < events.len() implies !((#[trigger] events[i]).event_type
            == EV_SYN && events[i].code == SYN_REPORT) by {
            assert(!events[i].closes_report());
        }
    }
    if forall|i: int|
        0 <= i < events.len() ==> !((#[trigger] events[i]).event_type == EV_SYN && events[i].code
            == SYN_REPORT) {
        assert forall|i: int| 0 <= i < events.len() implies !(
        #[trigger] events[i]).closes_report() by {}
        assert(crate::daemon::open_report(events));
    }
}

/// Each frame that is forwarded makes one batch of its own, of everything in
/// it but boundaries; one that holds nothing else makes none.
pub proof fn law_each_frame_is_a_batch(frames: Seq<Seq<InputEvent>>, frame: Seq<InputEvent>)
    ensures
        crate::daemon::written(Seq::empty()).len() == 0,
        ({
            let batch = frame.filter(|ev: InputEvent| ev.event_type != EV_SYN);
            crate::daemon::written(frames.push(frame)) == if batch.len() == 0 {
                crate::daemon::written(frames)
            } else {
                crate::daemon::written(frames).push(batch)
            }
        }),
{
    assert(frames.push(frame).drop_last() =~= frames);
    crate::stream_laws::law_forwarding_is_verbatim(frame, Seq::empty());
}

/// The state machine steps once on a frame and not at all on other reports,
/// and the wheel turns by what that step asks for. The machine is then where
/// the step led, unless the buffer filled up or the watchdog fired.
pub proof fn law_report_is_one_step(
    pre: DaemonView,
    frame: Option<TouchFrame>,
    events: Seq<InputEvent>,
    scroll: Scroll,
    g: GeometryModel,
    now: u64,
    post: DaemonView,
    outcome: Outcome,
)
    requires
        pre.handles(frame, events, scroll, g, now, post, outcome),
    ensures
        frame matches Some(f) ==> exists|fsm: FsmView, detector: DetectorView, action: Action|
            #[trigger] pre.fsm.steps(pre.detector, f, scroll, g, fsm, detector, action)
                && crate::daemon::turned(outcome.wheel, action) && (!outcome.watchdog
                ==> post.detector == detector) && (!outcome.watchdog && pre.held.len() < 63
                ==> post.fsm == fsm),
        frame is None ==> outcome.wheel is None && (!outcome.watchdog ==> post.detector
            == pre.detector) && (!outcome.watchdog && pre.held.len() < 63 ==> post.fsm == pre.fsm),
{
    let (fsm, detector, action) = choose|fsm: FsmView, detector: DetectorView, action: Action|
        #[trigger] pre.moves(frame, scroll, g, fsm, detector, action) && ({
            let (mid, forwarded) = (DaemonView { fsm, detector, ..pre }).passed_on(
                pre.fsm.state,
                frame,
                events,
            );
            &&& post == mid.watched(now)
            &&& outcome.watchdog == mid.starved(now)
            &&& crate::daemon::turned(outcome.wheel, action)
            &&& crate::daemon::contents(outcome.pad@) == crate::daemon::written(forwarded)
        });
    if let Some(f) = frame {
        assert(pre.fsm.steps(pre.detector, f, scroll, g, fsm, detector, action));
    }
}

/// A frame is held exactly while a candidate is open, and when a finger is
/// down right after a captured gesture. Any other report is held only behind
/// one that is.
pub proof fn law_only_open_questions_are_held(
    pre: DaemonView,
    frame: Option<TouchFrame>,
    events: Seq<InputEvent>,
    scroll: Scroll,
    g: GeometryModel,
    now: u64,
    post: DaemonView,
    outcome: Outcome,
)
    requires
        crate::stream_laws::serves(pre, frame, events, scroll, g, now, post, outcome),
    ensures
        frame matches Some(f) ==> (post.held.len() > 0 <==> post.fsm.state is Moving || (
        pre.fsm.state is Debounce && f.contact && f.touches@.len() > 0)),
        frame is None ==> (post.held.len() > 0 <==> 0 < pre.held.len() < 63),
        post.held.len() > 0 ==> post.held == pre.held.push(events),
{
}

/// Up to 63 frames are held. The next one that would be held gives the contact
/// up instead: the stream goes to the pointer and all 64 are forwarded.
pub proof fn law_the_64th_frame_gives_up(
    pre: DaemonView,
    frame: Option<TouchFrame>,
    events: Seq<InputEvent>,
    scroll: Scroll,
    g: GeometryModel,
    now: u64,
    post: DaemonView,
    outcome: Outcome,
)
    requires
        crate::stream_laws::serves(pre, frame, events, scroll, g, now, post, outcome),
    ensures
        pre.held.len() <= 63,
        pre.held.len() < 63 && post.fsm.state is Passthrough && frame is None ==> pre.fsm.state
            is Passthrough,
        pre.held.len() == 63 && frame is None ==> post.fsm.state is Passthrough
            && crate::daemon::contents(outcome.pad@) == crate::daemon::written(
            pre.held.push(events),
        ),
        pre.held.len() == 63 && post.fsm.state is Passthrough ==> crate::daemon::contents(
            outcome.pad@,
        ) == crate::daemon::written(pre.held.push(events)),
{
}

/// The watchdog fires exactly if circular scrolling owns the stream after the
/// report and its last packet came more than five seconds before. Then the
/// gesture is forgotten: nothing is left of it in the machine, the detector
/// or the clock. Otherwise a captured stream is watched from this packet on,
/// and nothing else is watched.
pub proof fn law_watchdog_counts_from_the_last_packet(
    pre: DaemonView,
    frame: Option<TouchFrame>,
    events: Seq<InputEvent>,
    scroll: Scroll,
    g: GeometryModel,
    now: u64,
    post: DaemonView,
    outcome: Outcome,
)
    requires
        crate::stream_laws::serves(pre, frame, events, scroll, g, now, post, outcome),
    ensures
        outcome.watchdog ==> pre.fsm.state is Scrolling && (pre.last_packet matches Some(last)
            && now - last > 5000),
        post.fsm.state is Scrolling && (pre.last_packet matches Some(last)) ==> now
            - pre.last_packet->0 <= 5000,
        outcome.watchdog ==> post.fsm.state is Idle && post.fsm.samples.len() == 0 && post.detector
            == DetectorView::fresh() && post.held.len() == 0 && post.last_packet is None,
        post.fsm.state is Scrolling ==> post.last_packet == Some(now),
        !(post.fsm.state is Scrolling) ==> post.last_packet is None,
{
    assert(pre.held.len() == 0 ==> pre.held =~= Seq::empty());
}

/// A wait that runs out forgets a captured gesture, and keeps the centre of
/// the pad and what is held.
pub proof fn law_forgotten_gesture_leaves_nothing(d: DaemonView)
    ensures
        d.forced_idle().fsm.state is Idle,
        d.forced_idle().fsm.samples.len() == 0,
        d.forced_idle().fsm.center_x == d.fsm.center_x,
        d.forced_idle().fsm.center_y == d.fsm.center_y,
        d.forced_idle().detector == DetectorView::fresh(),
        d.forced_idle().last_packet is None,
        d.forced_idle().held == d.held,
{
}

} // verus!
