//! One turn of the daemon's loop: from the events of a touch report to what is
//! written to the virtual devices.

use vstd::prelude::*;
use vstd::string::*;

use crate::config::{Config, Scroll};
use crate::detector::{CircularDetector, DetectorView, TouchSample};
use crate::evdev::InputDevice;
use crate::event::InputEvent;
use crate::fsm::{Action, Fsm, FsmState, FsmView, TouchFrame};
use crate::geometry::{CurvatureReading, Geometry, GeometryModel, IntentEvidence, Real};
use crate::uinput::{UinputTouchpad, UinputWheel};

verus! {

/// Frames that are held for an open candidate before it is given up.
pub const MAX_HELD_FRAMES: usize = 64;

/// Milliseconds that circular scrolling may own the stream without a packet.
pub const SCROLLING_WATCHDOG_MS: u64 = 5000;

/// The events of several frames.
pub open spec fn contents(frames: Seq<Vec<InputEvent>>) -> Seq<Seq<InputEvent>> {
    frames.map_values(|frame: Vec<InputEvent>| frame@)
}

/// The frames one after the other.
pub open spec fn joined(frames: Seq<Seq<InputEvent>>) -> Seq<InputEvent>
    decreases frames.len(),
{
    if frames.len() == 0 {
        Seq::empty()
    } else {
        joined(frames.drop_last()) + frames.last()
    }
}

/// The events are one complete report: the last one closes it, and no other
/// does.
pub open spec fn complete_report(events: Seq<InputEvent>) -> bool {
    &&& events.len() > 0
    &&& events.last().closes_report()
    &&& forall|i: int| 0 <= i < events.len() - 1 ==> !(#[trigger] events[i]).closes_report()
}

/// Cuts the event stream into complete reports. What follows the last report
/// is kept for the next batch.
pub struct ReportSplitter {
    partial: Vec<InputEvent>,
}

impl View for ReportSplitter {
    type V = Seq<InputEvent>;

    closed spec fn view(&self) -> Seq<InputEvent> {
        self.partial@
    }
}

/// No report is closed.
pub open spec fn open_report(events: Seq<InputEvent>) -> bool {
    forall|i: int| 0 <= i < events.len() ==> !(#[trigger] events[i]).closes_report()
}

impl ReportSplitter {
    pub fn new() -> (s: ReportSplitter)
        ensures
            s@.len() == 0,
    {
        ReportSplitter { partial: Vec::new() }
    }

    /// Take in a batch of events. Returns the reports that it completes, in
    /// order; no event is lost.
    pub fn push(&mut self, events: &Vec<InputEvent>) -> (reports: Vec<Vec<InputEvent>>)
        requires
            open_report(old(self)@),
        ensures
            open_report(final(self)@),
            forall|i: int|
                0 <= i < reports@.len() ==> complete_report(#[trigger] reports@[i]@),
            joined(contents(reports@)) + final(self)@ == old(self)@ + events@,
    {
        let mut reports: Vec<Vec<InputEvent>> = Vec::new();
        let mut i: usize = 0;
        assert(joined(contents(reports@)) + self@ =~= old(self)@ + events@.take(0));
        while i < events.len()
            invariant
                0 <= i <= events@.len(),
                open_report(self@),
                forall|k: int|
                    0 <= k < reports@.len() ==> complete_report(#[trigger] reports@[k]@),
                joined(contents(reports@)) + self@ == old(self)@ + events@.take(i as int),
            decreases events@.len() - i,
        {
            let ev: InputEvent = events[i];
            let ghost before = joined(contents(reports@));
            let ghost taken = events@.take(i as int);
            let ghost partial = self@;
            assert(before + partial.push(ev) =~= old(self)@ + events@.take(i + 1)) by {
                assert(events@.take(i + 1) =~= taken.push(ev));
                assert(before + partial.push(ev) =~= (before + partial).push(ev));
                assert(old(self)@ + taken.push(ev) =~= (old(self)@ + taken).push(ev));
            }
            self.partial.push(ev);
            if ev.is_syn_report() {
                let mut done: Vec<InputEvent> = Vec::new();
                done.append(&mut self.partial);
                proof {
                    let grown = contents(reports@).push(done@);
                    assert(grown.drop_last() =~= contents(reports@));
                    assert(contents(reports@.push(done)) =~= grown);
                    assert(done@ =~= partial.push(ev));
                    assert(joined(grown) + self@ =~= before + done@);
                }
                reports.push(done);
            }
            i = i + 1;
        }
        assert(events@.take(events@.len() as int) =~= events@);
        reports
    }
}

/// Where a frame goes that led the machine from `before` to `after`: what is
/// held from then on, and what is forwarded, in order. An open candidate's
/// frame is held. A captured stream is discarded, up to its lift. The frame
/// that leaves `Debounce` with a finger down is held too: it begins a contact
/// that the next frame may open a candidate for. Anything else releases what
/// was held and passes on.
pub open spec fn rationed(
    held: Seq<Seq<InputEvent>>,
    before: FsmState,
    after: FsmState,
    has_contact: bool,
    frame: Seq<InputEvent>,
) -> (Seq<Seq<InputEvent>>, Seq<Seq<InputEvent>>) {
    match after {
        FsmState::Moving { .. } => (held.push(frame), Seq::empty()),
        FsmState::Scrolling { .. } | FsmState::Debounce => (Seq::empty(), Seq::empty()),
        _ => if before is Debounce && has_contact {
            (held.push(frame), Seq::empty())
        } else {
            (Seq::empty(), held.push(frame))
        },
    }
}

/// Where a report goes that tells nothing of the contacts, while the machine
/// is in `state`. It queues up behind what is held, it is discarded with a
/// captured stream, and otherwise it passes on.
pub open spec fn rationed_aside(
    held: Seq<Seq<InputEvent>>,
    state: FsmState,
    report: Seq<InputEvent>,
) -> (Seq<Seq<InputEvent>>, Seq<Seq<InputEvent>>) {
    if held.len() > 0 {
        (held.push(report), Seq::empty())
    } else if state is Scrolling {
        (Seq::empty(), Seq::empty())
    } else {
        (Seq::empty(), seq![report])
    }
}

/// The frames that are held while it is open whether their contact will be
/// captured.
pub struct FrameGate {
    held: Vec<Vec<InputEvent>>,
}

impl View for FrameGate {
    type V = Seq<Seq<InputEvent>>;

    closed spec fn view(&self) -> Seq<Seq<InputEvent>> {
        contents(self.held@)
    }
}

impl FrameGate {
    pub fn new() -> (g: FrameGate)
        ensures
            g@.len() == 0,
    {
        FrameGate { held: Vec::new() }
    }

    /// How many frames are held.
    pub fn len(&self) -> (n: usize)
        ensures
            n == self@.len(),
    {
        self.held.len()
    }

    /// Release every held frame, in order.
    pub fn release(&mut self) -> (frames: Vec<Vec<InputEvent>>)
        ensures
            contents(frames@) == old(self)@,
            final(self)@.len() == 0,
    {
        let mut frames: Vec<Vec<InputEvent>> = Vec::new();
        frames.append(&mut self.held);
        assert(contents(frames@) =~= old(self)@);
        frames
    }

    /// Hold a frame.
    fn hold(&mut self, frame: Vec<InputEvent>) -> (forwarded: Vec<Vec<InputEvent>>)
        ensures
            final(self)@ == old(self)@.push(frame@),
            contents(forwarded@) == Seq::<Seq<InputEvent>>::empty(),
    {
        self.held.push(frame);
        assert(self@ =~= old(self)@.push(frame@));
        let none: Vec<Vec<InputEvent>> = Vec::new();
        assert(contents(none@) =~= Seq::empty());
        none
    }

    /// Discard a frame and what was held before it.
    fn discard(&mut self) -> (forwarded: Vec<Vec<InputEvent>>)
        ensures
            final(self)@ == Seq::<Seq<InputEvent>>::empty(),
            contents(forwarded@) == Seq::<Seq<InputEvent>>::empty(),
    {
        self.held.clear();
        assert(self@ =~= Seq::empty());
        let none: Vec<Vec<InputEvent>> = Vec::new();
        assert(contents(none@) =~= Seq::empty());
        none
    }

    /// Release what was held, and then pass a frame on.
    fn pass(&mut self, frame: Vec<InputEvent>) -> (forwarded: Vec<Vec<InputEvent>>)
        ensures
            final(self)@ == Seq::<Seq<InputEvent>>::empty(),
            contents(forwarded@) == old(self)@.push(frame@),
    {
        let mut frames: Vec<Vec<InputEvent>> = self.release();
        assert(self@ =~= Seq::empty());
        frames.push(frame);
        assert(contents(frames@) =~= old(self)@.push(frame@));
        frames
    }

    /// Hold, release or discard a frame, by the states before and after it and
    /// by whether a finger is down in it. Returns the frames to forward.
    pub fn ration(
        &mut self,
        before: FsmState,
        after: FsmState,
        has_contact: bool,
        frame: Vec<InputEvent>,
    ) -> (forwarded: Vec<Vec<InputEvent>>)
        ensures
            (final(self)@, contents(forwarded@)) == rationed(
                old(self)@,
                before,
                after,
                has_contact,
                frame@,
            ),
    {
        match after {
            FsmState::Moving { .. } => self.hold(frame),
            FsmState::Scrolling { .. } | FsmState::Debounce => self.discard(),
            _ => {
                if has_contact && matches!(before, FsmState::Debounce) {
                    self.hold(frame)
                } else {
                    self.pass(frame)
                }
            },
        }
    }

    /// Hold, forward or discard a report that tells nothing of the contacts.
    /// Returns the frames to forward.
    pub fn ration_aside(&mut self, state: FsmState, report: Vec<InputEvent>) -> (forwarded: Vec<
        Vec<InputEvent>,
    >)
        ensures
            (final(self)@, contents(forwarded@)) == rationed_aside(old(self)@, state, report@),
    {
        if self.held.len() > 0 {
            self.hold(report)
        } else if matches!(state, FsmState::Scrolling { .. }) {
            self.discard()
        } else {
            let forwarded: Vec<Vec<InputEvent>> = self.pass(report);
            assert(contents(forwarded@) =~= seq![report@]);
            forwarded
        }
    }
}

/// Everything that one frame leaves behind for the next. `last_packet` is the
/// time of the last packet that circular scrolling consumed.
pub struct DaemonView {
    pub fsm: FsmView,
    pub detector: DetectorView,
    pub held: Seq<Seq<InputEvent>>,
    pub last_packet: Option<u64>,
}

/// What is to be written, and whether the watchdog ended the gesture.
pub struct Outcome {
    /// Events for the virtual wheel.
    pub wheel: Option<Vec<InputEvent>>,
    /// Batches for the virtual touchpad, in order.
    pub pad: Vec<Vec<InputEvent>>,
    /// Circular scrolling was ended by the watchdog.
    pub watchdog: bool,
}

/// The batches that forwarding the frames writes: each without its report
/// boundaries, none for a frame that holds nothing else.
pub open spec fn written(frames: Seq<Seq<InputEvent>>) -> Seq<Seq<InputEvent>>
    decreases frames.len(),
{
    if frames.len() == 0 {
        Seq::empty()
    } else {
        let before = written(frames.drop_last());
        let batch = crate::uinput::prepared(frames.last(), false, None, Seq::empty());
        if batch.len() == 0 {
            before
        } else {
            before.push(batch)
        }
    }
}

/// `wheel` holds the events that `action` asks for.
pub open spec fn turned(wheel: Option<Vec<InputEvent>>, action: Action) -> bool {
    match action {
        Action::Nothing => wheel is None,
        Action::EmitWheelV(ticks) => crate::uinput::turns_wheel(
            wheel,
            ticks as int,
            crate::event::REL_WHEEL,
            crate::event::REL_WHEEL_HI_RES,
        ),
        Action::EmitWheelH(ticks) => crate::uinput::turns_wheel(
            wheel,
            ticks as int,
            crate::event::REL_HWHEEL,
            crate::event::REL_HWHEEL_HI_RES,
        ),
    }
}

impl DaemonView {
    /// The parts are consistent. Frames are held for an open candidate, always
    /// its first one among them, or for a contact that began as the last
    /// gesture ended; there are fewer than the limit.
    pub open spec fn wf(self) -> bool {
        &&& self.fsm.wf()
        &&& self.detector.wf()
        &&& self.fsm.state is Moving ==> self.held.len() > 0
        &&& self.held.len() > 0 ==> self.fsm.state is Moving || self.fsm.state is Idle
        &&& self.held.len() < MAX_HELD_FRAMES
        &&& self.last_packet is Some ==> self.fsm.state is Scrolling
    }

    /// The machine and the detector may move this way: by a step on a frame,
    /// and not at all where the report tells nothing of the contacts.
    pub open spec fn moves(
        self,
        frame: Option<TouchFrame>,
        scroll: Scroll,
        g: GeometryModel,
        fsm: FsmView,
        detector: DetectorView,
        action: Action,
    ) -> bool {
        match frame {
            Some(f) => self.fsm.steps(self.detector, f, scroll, g, fsm, detector, action),
            None => fsm == self.fsm && detector == self.detector && action is Nothing,
        }
    }

    /// After the state machine has moved on from `before`: the events held,
    /// forwarded or discarded. A contact for which too many frames are held
    /// is given up and its frames are forwarded.
    pub open spec fn passed_on(
        self,
        before: FsmState,
        frame: Option<TouchFrame>,
        events: Seq<InputEvent>,
    ) -> (DaemonView, Seq<Seq<InputEvent>>) {
        let (held, forwarded) = match frame {
            Some(f) => rationed(self.held, before, self.fsm.state, f.has_contact(), events),
            None => rationed_aside(self.held, self.fsm.state, events),
        };
        if held.len() >= MAX_HELD_FRAMES {
            (
                DaemonView {
                    fsm: self.fsm.at(FsmState::Passthrough),
                    held: Seq::empty(),
                    ..self
                },
                held,
            )
        } else {
            (DaemonView { held, ..self }, forwarded)
        }
    }

    /// Circular scrolling went without a packet for too long before `now`.
    pub open spec fn starved(self, now: u64) -> bool {
        &&& self.fsm.state is Scrolling
        &&& self.last_packet matches Some(last) && now - last > SCROLLING_WATCHDOG_MS
    }

    /// The gesture forgotten, by the watchdog.
    pub open spec fn forced_idle(self) -> DaemonView {
        DaemonView {
            fsm: self.fsm.at(FsmState::Idle),
            detector: DetectorView::fresh(),
            last_packet: None,
            ..self
        }
    }

    /// After a frame at `now`: the watchdog fires, or starts anew.
    pub open spec fn watched(self, now: u64) -> DaemonView {
        if self.starved(now) {
            self.forced_idle()
        } else {
            DaemonView {
                last_packet: if self.fsm.state is Scrolling {
                    Some(now)
                } else {
                    None
                },
                ..self
            }
        }
    }

    /// Handling a report of `events` at `now`, which gives `frame` if it tells
    /// something of the contacts, may lead to `post` and `outcome`.
    pub open spec fn handles(
        self,
        frame: Option<TouchFrame>,
        events: Seq<InputEvent>,
        scroll: Scroll,
        g: GeometryModel,
        now: u64,
        post: DaemonView,
        outcome: Outcome,
    ) -> bool {
        exists|fsm: FsmView, detector: DetectorView, action: Action| #[trigger]
            self.moves(frame, scroll, g, fsm, detector, action) && ({
                let (mid, forwarded) = (DaemonView { fsm, detector, ..self }).passed_on(
                    self.fsm.state,
                    frame,
                    events,
                );
                &&& post == mid.watched(now)
                &&& outcome.watchdog == mid.starved(now)
                &&& turned(outcome.wheel, action)
                &&& contents(outcome.pad@) == written(forwarded)
            })
    }
}

/// The daemon's state between two frames.
pub struct Daemon {
    fsm: Fsm,
    detector: CircularDetector,
    gate: FrameGate,
    last_packet: Option<u64>,
}

impl View for Daemon {
    type V = DaemonView;

    closed spec fn view(&self) -> DaemonView {
        DaemonView {
            fsm: self.fsm@,
            detector: self.detector@,
            held: self.gate@,
            last_packet: self.last_packet,
        }
    }
}

impl Daemon {
    /// The daemon for a pad with this centre.
    pub fn new(center_x: i32, center_y: i32) -> (d: Daemon)
        ensures
            d@.wf(),
            d@.fsm.state is Idle,
            d@.fsm.center_x == center_x,
            d@.fsm.center_y == center_y,
            d@.detector == DetectorView::fresh(),
            d@.held.len() == 0,
            d@.last_packet is None,
    {
        Daemon {
            fsm: Fsm::new(center_x, center_y),
            detector: CircularDetector::new(),
            gate: FrameGate::new(),
            last_packet: None,
        }
    }

    /// The state of the state machine.
    pub fn state(&self) -> (state: FsmState)
        ensures
            state == self@.fsm.state,
    {
        self.fsm.state()
    }

    /// How long to wait for events, in milliseconds; -1 waits for ever. The
    /// wait is bounded exactly while the watchdog has something to watch.
    pub fn poll_timeout_ms(&self) -> (ms: i32)
        ensures
            ms == if self@.fsm.state is Scrolling {
                SCROLLING_WATCHDOG_MS as int
            } else {
                -1
            },
    {
        if self.fsm.is_scrolling() {
            SCROLLING_WATCHDOG_MS as i32
        } else {
            -1
        }
    }

    /// The wait for events ran out. `true` means that circular scrolling was
    /// ended.
    pub fn on_timeout(&mut self) -> (fired: bool)
        requires
            old(self)@.wf(),
        ensures
            fired == (old(self)@.fsm.state is Scrolling),
            final(self)@ == if old(self)@.fsm.state is Scrolling {
                old(self)@.forced_idle()
            } else {
                old(self)@
            },
            final(self)@.wf(),
    {
        if self.fsm.is_scrolling() {
            self.fsm.force_idle(&mut self.detector);
            self.last_packet = None;
            true
        } else {
            false
        }
    }

    /// Handle one complete report, read at `now` milliseconds. `input` decodes
    /// it; the outcome says what to write. A report that tells nothing of the
    /// contacts does not step the state machine, and is not lost either.
    pub fn on_report<E, C>(
        &mut self,
        input: &mut InputDevice,
        wheel: &UinputWheel,
        pad: &UinputTouchpad,
        events: Vec<InputEvent>,
        scroll: &Scroll,
        geometry: &Geometry<E, C>,
        now: u64,
    ) -> (outcome: Outcome) where
        E: Fn(i32, i32, &Vec<TouchSample>) -> IntentEvidence,
        C: Fn(&Vec<TouchSample>, i32, Real, Real) -> CurvatureReading,

        requires
            complete_report(events@),
            old(self)@.wf(),
            old(input).wf(),
            geometry.total(),
            geometry.model().moderate(),
        ensures
            final(self)@.wf(),
            final(input).wf(),
            final(input).same_pad(*old(input)),
            final(input).decoder@ == old(input).decoder@.after(events@),
            match old(input).decoder@.at_last_update(events@) {
                None => old(self)@.handles(
                    None,
                    events@,
                    *scroll,
                    geometry.model(),
                    now,
                    final(self)@,
                    outcome,
                ),
                Some(at) => exists|frame: TouchFrame|
                    at.shows(frame) && #[trigger] old(self)@.handles(
                        Some(frame),
                        events@,
                        *scroll,
                        geometry.model(),
                        now,
                        final(self)@,
                        outcome,
                    ),
            },
    {
        match input.next_frame(&events) {
            None => {
                let outcome: Outcome = self.on_other(pad, events, now);
                proof {
                    let pre = old(self)@;
                    assert(pre.moves(
                        None,
                        *scroll,
                        geometry.model(),
                        pre.fsm,
                        pre.detector,
                        Action::Nothing,
                    ));
                    assert((DaemonView { fsm: pre.fsm, detector: pre.detector, ..pre }) == pre);
                }
                outcome
            },
            Some(frame) => self.on_frame(&frame, wheel, pad, events, scroll, geometry, now),
        }
    }

    /// Handle a report that tells nothing of the contacts.
    fn on_other(&mut self, pad: &UinputTouchpad, events: Vec<InputEvent>, now: u64) -> (outcome:
        Outcome)
        requires
            old(self)@.wf(),
        ensures
            final(self)@.wf(),
            outcome.wheel is None,
            ({
                let (mid, forwarded) = old(self)@.passed_on(
                    old(self)@.fsm.state,
                    None,
                    events@,
                );
                &&& final(self)@ == mid.watched(now)
                &&& outcome.watchdog == mid.starved(now)
                &&& contents(outcome.pad@) == written(forwarded)
            }),
    {
        let mut frames: Vec<Vec<InputEvent>> = self.gate.ration_aside(self.fsm.state(), events);
        if self.gate.len() >= MAX_HELD_FRAMES {
            frames = self.give_up();
        }
        assert((self@, contents(frames@)) == old(self)@.passed_on(
            old(self)@.fsm.state,
            None,
            events@,
        ));
        let pad_batches: Vec<Vec<InputEvent>> = forward_all(pad, &frames);
        let fired: bool = self.watch(now);
        Outcome { wheel: None, pad: pad_batches, watchdog: fired }
    }

    /// Give up the contact for which frames are held, and release them.
    fn give_up(&mut self) -> (frames: Vec<Vec<InputEvent>>)
        requires
            old(self)@.fsm.wf(),
        ensures
            contents(frames@) == old(self)@.held,
            final(self)@ == (DaemonView {
                fsm: old(self)@.fsm.at(FsmState::Passthrough),
                held: Seq::empty(),
                ..old(self)@
            }),
            final(self)@.fsm.wf(),
    {
        if !self.fsm.cancel_pending() {
            self.fsm.pass_through();
        }
        let frames: Vec<Vec<InputEvent>> = self.gate.release();
        assert(self@.held =~= Seq::empty());
        frames
    }

    /// Handle one touch frame, decoded from `events` at `now` milliseconds.
    pub fn on_frame<E, C>(
        &mut self,
        frame: &TouchFrame,
        wheel: &UinputWheel,
        pad: &UinputTouchpad,
        events: Vec<InputEvent>,
        scroll: &Scroll,
        geometry: &Geometry<E, C>,
        now: u64,
    ) -> (outcome: Outcome) where
        E: Fn(i32, i32, &Vec<TouchSample>) -> IntentEvidence,
        C: Fn(&Vec<TouchSample>, i32, Real, Real) -> CurvatureReading,

        requires
            old(self)@.wf(),
            geometry.total(),
            geometry.model().moderate(),
        ensures
            final(self)@.wf(),
            old(self)@.handles(
                Some(*frame),
                events@,
                *scroll,
                geometry.model(),
                now,
                final(self)@,
                outcome,
            ),
    {
        let ghost pre = self@;
        let before: FsmState = self.fsm.state();
        let action: Action = self.fsm.step(frame, &mut self.detector, scroll, geometry);
        let ghost mid = self@;
        proof {
            crate::fsm::law_action_is_bounded(
                pre.fsm,
                pre.detector,
                *frame,
                *scroll,
                geometry.model(),
                mid.fsm,
                mid.detector,
                action,
            );
            assert(pre.moves(
                Some(*frame),
                *scroll,
                geometry.model(),
                mid.fsm,
                mid.detector,
                action,
            ));
        }
        let wheel_events: Option<Vec<InputEvent>> = match action {
            Action::Nothing => None,
            Action::EmitWheelV(ticks) => wheel.emit_v(ticks),
            Action::EmitWheelH(ticks) => wheel.emit_h(ticks),
        };
        let has_contact: bool = frame.contact && frame.touches.len() > 0;
        let mut frames: Vec<Vec<InputEvent>> = self.gate.ration(
            before,
            self.fsm.state(),
            has_contact,
            events,
        );
        if self.gate.len() >= MAX_HELD_FRAMES {
            frames = self.give_up();
        }
        assert((self@, contents(frames@)) == mid.passed_on(before, Some(*frame), events@));
        let pad_batches: Vec<Vec<InputEvent>> = forward_all(pad, &frames);
        let fired: bool = self.watch(now);
        Outcome { wheel: wheel_events, pad: pad_batches, watchdog: fired }
    }

    /// Let the watchdog look at the state after a frame.
    fn watch(&mut self, now: u64) -> (fired: bool)
        requires
            old(self)@.fsm.wf(),
            old(self)@.detector.wf(),
        ensures
            fired == old(self)@.starved(now),
            final(self)@ == old(self)@.watched(now),
            final(self)@.fsm.wf(),
            final(self)@.detector.wf(),
    {
        if !self.fsm.is_scrolling() {
            self.last_packet = None;
            return false;
        }
        if let Some(last) = self.last_packet {
            if now > last && now - last > SCROLLING_WATCHDOG_MS {
                self.fsm.force_idle(&mut self.detector);
                self.last_packet = None;
                return true;
            }
        }
        self.last_packet = Some(now);
        false
    }
}

/// What forwarding the frames writes.
fn forward_all(pad: &UinputTouchpad, frames: &Vec<Vec<InputEvent>>) -> (batches: Vec<
    Vec<InputEvent>,
>)
    ensures
        contents(batches@) == written(contents(frames@)),
{
    let mut batches: Vec<Vec<InputEvent>> = Vec::new();
    let ghost all = contents(frames@);
    let mut i: usize = 0;
    assert(contents(batches@) =~= written(all.take(0)));
    while i < frames.len()
        invariant
            0 <= i <= frames@.len(),
            all == contents(frames@),
            contents(batches@) == written(all.take(i as int)),
        decreases frames@.len() - i,
    {
        proof {
            let done = all.take(i + 1);
            assert(done.drop_last() =~= all.take(i as int));
            assert(done.last() == frames@[i as int]@);
        }
        if let Some(batch) = pad.forward(&frames[i], false) {
            let ghost before = batches@;
            batches.push(batch);
            assert(contents(batches@) =~= contents(before).push(batch@));
        }
        i = i + 1;
    }
    assert(all.take(all.len() as int) =~= all);
    batches
}

/// Where the touchpad is to be found.
#[derive(Debug)]
pub enum DeviceChoice {
    /// At this node.
    Path(String),
    /// By the name that matches this regular expression.
    ByName(String),
}

/// The node given on the command line, else the configured one, else the
/// search by name.
pub fn choose_device(argument: Option<String>, config: &Config) -> (choice: DeviceChoice)
    ensures
        match argument {
            Some(path) => choice == DeviceChoice::Path(path),
            None => match config.device {
                Some(path) => choice matches DeviceChoice::Path(p) && p@ == path@,
                None => choice matches DeviceChoice::ByName(regex) && regex@
                    == config.device_name_regex@,
            },
        },
{
    match argument {
        Some(path) => DeviceChoice::Path(path),
        None => match &config.device {
            Some(path) => DeviceChoice::Path(path.clone()),
            None => DeviceChoice::ByName(config.device_name_regex.clone()),
        },
    }
}

/// The log filter, unless the environment sets one: the daemon's own records
/// at the configured level, or at debug level if that was asked for.
pub fn log_filter(config: &Config, debug: bool) -> (filter: String)
    ensures
        filter@ == "letsnote_wheelpad="@ + if debug {
            "debug"@
        } else {
            config.log.level@
        },
{
    let prefix: String = "letsnote_wheelpad=".to_string();
    if debug {
        prefix.concat("debug")
    } else {
        prefix.concat(config.log.level.as_str())
    }
}

} // verus!
