//! What holds of the event streams: what reaches the virtual devices of what
//! the physical pad sends.

use vstd::prelude::*;

use crate::config::Scroll;
use crate::daemon::{DaemonView, Outcome, MAX_HELD_FRAMES};
use crate::detector::DetectorView;
use crate::event::{InputEvent, ABS_MT_SLOT, ABS_MT_TRACKING_ID, EV_ABS, EV_KEY, EV_SYN};
use crate::fsm::{Action, FsmState, FsmView, TouchFrame};
use crate::geometry::GeometryModel;

verus! {

/// The events without report boundaries.
pub open spec fn payload(events: Seq<InputEvent>) -> Seq<InputEvent> {
    events.filter(|ev: InputEvent| ev.event_type != EV_SYN)
}

/// Forwarding drops report boundaries and nothing else, and keeps the order.
pub proof fn law_forwarding_is_verbatim(events: Seq<InputEvent>, release_keys: Seq<u16>)
    ensures
        crate::uinput::prepared(events, false, None, release_keys) == payload(events),
{
    let pass = |ev: InputEvent| crate::uinput::passes(ev, false, None::<usize> is Some, release_keys);
    let plain = |ev: InputEvent| ev.event_type != EV_SYN;
    assert(pass =~= plain);
    assert(crate::uinput::prepared(events, false, None, release_keys) =~= payload(events));
}

proof fn lemma_joined_push(frames: Seq<Seq<InputEvent>>, frame: Seq<InputEvent>)
    ensures
        crate::daemon::joined(frames.push(frame)) == crate::daemon::joined(frames) + frame,
{
    assert(frames.push(frame).drop_last() =~= frames);
}

proof fn lemma_joined_add(a: Seq<Seq<InputEvent>>, b: Seq<Seq<InputEvent>>)
    ensures
        crate::daemon::joined(a + b) == crate::daemon::joined(a) + crate::daemon::joined(b),
    decreases b.len(),
{
    if b.len() > 0 {
        lemma_joined_add(a, b.drop_last());
        assert((a + b).drop_last() =~= a + b.drop_last());
        assert(crate::daemon::joined(a + b) =~= crate::daemon::joined(a) + crate::daemon::joined(
            b,
        ));
    } else {
        assert(a + b =~= a);
        assert(crate::daemon::joined(a + b) =~= crate::daemon::joined(a) + crate::daemon::joined(
            b,
        ));
    }
}

/// What is written for several frames is their payload, one after the other.
pub proof fn law_written_is_payload(frames: Seq<Seq<InputEvent>>)
    ensures
        crate::daemon::joined(crate::daemon::written(frames)) == payload(
            crate::daemon::joined(frames),
        ),
    decreases frames.len(),
{
    let pred = |ev: InputEvent| ev.event_type != EV_SYN;
    if frames.len() > 0 {
        let front = frames.drop_last();
        law_written_is_payload(front);
        law_forwarding_is_verbatim(frames.last(), Seq::empty());
        Seq::filter_distributes_over_add(crate::daemon::joined(front), frames.last(), pred);
        let batch = payload(frames.last());
        if batch.len() > 0 {
            lemma_joined_push(crate::daemon::written(front), batch);
        } else {
            assert(payload(crate::daemon::joined(front)) + batch =~= payload(
                crate::daemon::joined(front),
            ));
        }
    } else {
        reveal(Seq::filter);
        assert(payload(Seq::<InputEvent>::empty()) =~= Seq::empty());
    }
}

/// Finishing a captured gesture releases its slot first, and leaves neither a
/// report boundary, nor a position, nor any other slot event in the batch.
pub proof fn law_finish_releases_one_slot(
    events: Seq<InputEvent>,
    slot: usize,
    release_keys: Seq<u16>,
)
    ensures
        ({
            let out = crate::uinput::prepared(events, true, Some(slot), release_keys);
            &&& out.len() >= 2
            &&& out[0] == (InputEvent {
                event_type: EV_ABS,
                code: ABS_MT_SLOT,
                value: slot as i32,
            })
            &&& out[1] == (InputEvent {
                event_type: EV_ABS,
                code: ABS_MT_TRACKING_ID,
                value: -1i32,
            })
            &&& forall|i: int|
                2 <= i < out.len() ==> {
                    &&& (#[trigger] out[i]).event_type != EV_SYN
                    &&& !(out[i].event_type == EV_ABS && (out[i].code == ABS_MT_SLOT || out[i].code
                        == ABS_MT_TRACKING_ID || crate::uinput::position_axis(out[i].code)))
                }
        }),
{
    let pass = |ev: InputEvent| crate::uinput::passes(ev, true, Some(slot) is Some, release_keys);
    let head = crate::uinput::slot_release(Some(slot));
    let body = events.filter(pass);
    let tail = crate::uinput::key_releases(Some(slot), release_keys);
    let out = crate::uinput::prepared(events, true, Some(slot), release_keys);
    assert(out == head + body + tail);
    assert forall|i: int| 2 <= i < out.len() implies {
        &&& (#[trigger] out[i]).event_type != EV_SYN
        &&& !(out[i].event_type == EV_ABS && (out[i].code == ABS_MT_SLOT || out[i].code
            == ABS_MT_TRACKING_ID || crate::uinput::position_axis(out[i].code)))
    } by {
        if i < 2 + body.len() {
            assert(out[i] == body[i - 2]);
            events.lemma_filter_pred(pass, i - 2);
        } else {
            assert(out[i] == tail[i - 2 - body.len()]);
        }
    }
}

/// The event presses or releases the key.
pub open spec fn touches_key(ev: InputEvent, key: u16) -> bool {
    ev.event_type == EV_KEY && ev.code == key
}

/// The event at `at`, and no other, presses or releases the key.
pub open spec fn only_at(events: Seq<InputEvent>, key: u16, at: int) -> bool {
    &&& 0 <= at < events.len()
    &&& touches_key(events[at], key)
    &&& forall|i: int|
        0 <= i < events.len() && i != at ==> !touches_key(#[trigger] events[i], key)
}

/// Finishing a captured gesture releases every summary key of the pad, and no
/// event in the batch presses one. A key that the pad lists once is released
/// once.
pub proof fn law_finish_releases_every_key(
    events: Seq<InputEvent>,
    slot: usize,
    release_keys: Seq<u16>,
    key: u16,
)
    requires
        release_keys.contains(key),
    ensures
        crate::uinput::prepared(events, true, Some(slot), release_keys).contains(
            (InputEvent { event_type: EV_KEY, code: key, value: 0 }),
        ),
        forall|i: int|
            0 <= i < crate::uinput::prepared(events, true, Some(slot), release_keys).len() ==> ({
                let ev = #[trigger] crate::uinput::prepared(
                    events,
                    true,
                    Some(slot),
                    release_keys,
                )[i];
                ev.event_type == EV_KEY && ev.code == key ==> ev.value == 0
            }),
        release_keys.no_duplicates() ==> exists|at: int| #[trigger]
            only_at(crate::uinput::prepared(events, true, Some(slot), release_keys), key, at),
{
    let pass = |ev: InputEvent| crate::uinput::passes(ev, true, Some(slot) is Some, release_keys);
    let head = crate::uinput::slot_release(Some(slot));
    let body = events.filter(pass);
    let tail = crate::uinput::key_releases(Some(slot), release_keys);
    let out = crate::uinput::prepared(events, true, Some(slot), release_keys);
    assert(out == head + body + tail);
    let k = choose|k: int| 0 <= k < release_keys.len() && release_keys[k] == key;
    let at = 2 + body.len() + k;
    assert(out[at] == tail[k]);
    assert forall|i: int| 0 <= i < out.len() implies ({
        let ev = #[trigger] out[i];
        ev.event_type == EV_KEY && ev.code == key ==> ev.value == 0
    }) by {
        if i < 2 {
            assert(out[i] == head[i]);
        } else if i < 2 + body.len() {
            assert(out[i] == body[i - 2]);
            events.lemma_filter_pred(pass, i - 2);
        } else {
            assert(out[i] == tail[i - 2 - body.len()]);
        }
    }
    if release_keys.no_duplicates() {
        assert forall|i: int| 0 <= i < out.len() && i != at implies !touches_key(
            #[trigger] out[i],
            key,
        ) by {
            if i < 2 {
                assert(out[i] == head[i]);
            } else if i < 2 + body.len() {
                assert(out[i] == body[i - 2]);
                events.lemma_filter_pred(pass, i - 2);
            } else {
                let j = i - 2 - body.len();
                assert(out[i] == tail[j]);
                assert(release_keys[j] != release_keys[k]);
            }
        }
        assert(only_at(out, key, at));
    }
}

/// A report leads the daemon from `pre` to `post`. It gives `frame` if it tells
/// something of the contacts.
pub open spec fn serves(
    pre: DaemonView,
    frame: Option<TouchFrame>,
    events: Seq<InputEvent>,
    scroll: Scroll,
    g: GeometryModel,
    now: u64,
    post: DaemonView,
    outcome: Outcome,
) -> bool {
    pre.wf() && pre.handles(frame, events, scroll, g, now, post, outcome)
}

/// A report does not reach the virtual pad: it is held, it belongs to a
/// captured stream, or it ends one.
pub open spec fn withheld(frame: Option<TouchFrame>, post: DaemonView, outcome: Outcome) -> bool {
    ||| post.held.len() > 0
    ||| post.fsm.state is Scrolling
    ||| post.fsm.state is Debounce && frame is Some
    ||| outcome.watchdog
}

/// Every report keeps the daemon consistent. In particular fewer than 64
/// frames are held at any time.
pub proof fn law_daemon_stays_well_formed(
    pre: DaemonView,
    frame: Option<TouchFrame>,
    events: Seq<InputEvent>,
    scroll: Scroll,
    g: GeometryModel,
    now: u64,
    post: DaemonView,
    outcome: Outcome,
)
    requires
        serves(pre, frame, events, scroll, g, now, post, outcome),
    ensures
        post.wf(),
{
    let (fsm, detector, action) = choose|fsm: FsmView, detector: DetectorView, action: Action|
        #[trigger] pre.moves(frame, scroll, g, fsm, detector, action) && ({
            let (mid, forwarded) = (DaemonView { fsm, detector, ..pre }).passed_on(
                pre.fsm.state,
                frame,
                events,
            );
            &&& post == mid.watched(now)
            &&& outcome.watchdog == mid.starved(now)
            &&& crate::daemon::turned(outcome.wheel, action)
            &&& crate::daemon::contents(outcome.pad@) == crate::daemon::written(forwarded)
        });
    if let Some(f) = frame {
        crate::laws::law_steps_keep_well_formed(
            pre.fsm,
            pre.detector,
            f,
            scroll,
            g,
            fsm,
            detector,
            action,
        );
    }
}

/// Withheld reports are not forwarded. They queue up behind what is held, and
/// capture discards what was held.
pub proof fn law_withheld_frames_are_not_forwarded(
    pre: DaemonView,
    frame: Option<TouchFrame>,
    events: Seq<InputEvent>,
    scroll: Scroll,
    g: GeometryModel,
    now: u64,
    post: DaemonView,
    outcome: Outcome,
)
    requires
        serves(pre, frame, events, scroll, g, now, post, outcome),
        withheld(frame, post, outcome),
    ensures
        outcome.pad@.len() == 0,
        post.held.len() > 0 ==> post.held == pre.held.push(events),
{
    assert(crate::daemon::contents(outcome.pad@).len() == outcome.pad@.len());
}

/// Every other report is forwarded, after every frame that was held before it,
/// unchanged and in order: so is a candidate that is given up.
pub proof fn law_given_up_candidate_is_replayed(
    pre: DaemonView,
    frame: Option<TouchFrame>,
    events: Seq<InputEvent>,
    scroll: Scroll,
    g: GeometryModel,
    now: u64,
    post: DaemonView,
    outcome: Outcome,
)
    requires
        serves(pre, frame, events, scroll, g, now, post, outcome),
        !withheld(frame, post, outcome),
    ensures
        crate::daemon::contents(outcome.pad@) == crate::daemon::written(pre.held.push(events)),
{
    assert(Seq::<Seq<InputEvent>>::empty().push(events) =~= seq![events]);
    if pre.held.len() == 0 {
        assert(pre.held.push(events) =~= seq![events]);
    }
}

/// A report that tells nothing of the contacts steps neither the machine nor
/// the wheel, and it is lost only within a captured stream: the machine stays
/// where it is unless the buffer is full or the watchdog fires.
pub proof fn law_other_reports_are_not_lost(
    pre: DaemonView,
    events: Seq<InputEvent>,
    scroll: Scroll,
    g: GeometryModel,
    now: u64,
    post: DaemonView,
    outcome: Outcome,
)
    requires
        serves(pre, None, events, scroll, g, now, post, outcome),
    ensures
        outcome.wheel is None,
        pre.held.len() < MAX_HELD_FRAMES - 1 && !outcome.watchdog ==> post.fsm == pre.fsm
            && post.detector == pre.detector,
        !(pre.fsm.state is Scrolling) ==> post.held == pre.held.push(events)
            || crate::daemon::contents(outcome.pad@) == crate::daemon::written(
            pre.held.push(events),
        ),
{
    if pre.held.len() == 0 {
        assert(pre.held.push(events) =~= seq![events]);
    }
}

/// The frame that fills the buffer gives its contact up, whatever its
/// trajectory says.
pub proof fn law_full_buffer_gives_up(
    pre: DaemonView,
    frame: Option<TouchFrame>,
    events: Seq<InputEvent>,
    scroll: Scroll,
    g: GeometryModel,
    now: u64,
    post: DaemonView,
    outcome: Outcome,
)
    requires
        serves(pre, frame, events, scroll, g, now, post, outcome),
        pre.held.len() == MAX_HELD_FRAMES - 1,
    ensures
        !(post.fsm.state is Moving),
        post.held.len() == 0,
{
}

/// A frame either turns the wheel or reaches the virtual pad, never both.
pub proof fn law_wheel_or_pad(
    pre: DaemonView,
    frame: Option<TouchFrame>,
    events: Seq<InputEvent>,
    scroll: Scroll,
    g: GeometryModel,
    now: u64,
    post: DaemonView,
    outcome: Outcome,
)
    requires
        serves(pre, frame, events, scroll, g, now, post, outcome),
    ensures
        outcome.wheel is None || outcome.pad@.len() == 0,
{
    let (fsm, detector, action) = choose|fsm: FsmView, detector: DetectorView, action: Action|
        #[trigger] pre.moves(frame, scroll, g, fsm, detector, action) && ({
            let (mid, forwarded) = (DaemonView { fsm, detector, ..pre }).passed_on(
                pre.fsm.state,
                frame,
                events,
            );
            &&& post == mid.watched(now)
            &&& outcome.watchdog == mid.starved(now)
            &&& crate::daemon::turned(outcome.wheel, action)
            &&& crate::daemon::contents(outcome.pad@) == crate::daemon::written(forwarded)
        });
    if let Some(f) = frame {
        crate::laws::law_wheel_moves_only_when_captured(
            pre.fsm,
            pre.detector,
            f,
            scroll,
            g,
            fsm,
            detector,
            action,
        );
    }
    assert(crate::daemon::contents(outcome.pad@).len() == outcome.pad@.len());
}

/// A stretch of the daemon's life: the states between the reports, and for
/// each report its frame, if it gives one, its events, its time and its
/// outcome.
pub struct Stretch {
    pub states: Seq<DaemonView>,
    pub frames: Seq<Option<TouchFrame>>,
    pub events: Seq<Seq<InputEvent>>,
    pub times: Seq<u64>,
    pub outcomes: Seq<Outcome>,
}

/// The frame, if there is one, has a finger down.
pub open spec fn in_contact(frame: Option<TouchFrame>) -> bool {
    frame matches Some(f) ==> f.has_contact()
}

impl Stretch {
    /// Report `i` leads from one state to the next.
    pub open spec fn served(self, i: int, scroll: Scroll, g: GeometryModel) -> bool {
        serves(
            self.states[i],
            self.frames[i],
            self.events[i],
            scroll,
            g,
            self.times[i],
            self.states[i + 1],
            self.outcomes[i],
        )
    }

    /// The states follow from one another.
    pub open spec fn lived(self, scroll: Scroll, g: GeometryModel) -> bool {
        &&& self.states.len() == self.events.len() + 1
        &&& self.frames.len() == self.events.len()
        &&& self.times.len() == self.events.len()
        &&& self.outcomes.len() == self.events.len()
        &&& forall|i: int| 0 <= i < self.events.len() ==> #[trigger] self.served(i, scroll, g)
    }

    /// The states follow from one another, no finger count drops to none
    /// before the last report, scrolling is enabled and the watchdog keeps
    /// quiet.
    pub open spec fn contact_until_lift(self, scroll: Scroll, g: GeometryModel) -> bool {
        &&& self.lived(scroll, g)
        &&& scroll.enable
        &&& forall|i: int|
            0 <= i < self.events.len() - 1 ==> in_contact(#[trigger] self.frames[i])
        &&& forall|i: int| 0 <= i < self.events.len() ==> !(#[trigger] self.outcomes[i]).watchdog
    }

    /// Everything that was written to the virtual pad for the first `n`
    /// reports.
    pub open spec fn arrived(self, n: int) -> Seq<InputEvent>
        decreases n,
    {
        if n <= 0 {
            Seq::empty()
        } else {
            self.arrived(n - 1) + crate::daemon::joined(
                crate::daemon::contents(self.outcomes[n - 1].pad@),
            )
        }
    }
}

/// As long as nothing is captured, the pad's events arrive verbatim and in
/// order: what was written, and then the payload of what is still held, is
/// the payload of what came in.
pub proof fn law_uncaptured_streams_arrive_verbatim(
    life: Stretch,
    scroll: Scroll,
    g: GeometryModel,
    n: int,
)
    requires
        life.lived(scroll, g),
        life.states[0].held.len() == 0,
        forall|i: int|
            0 <= i < life.events.len() ==> {
                &&& !(#[trigger] life.states[i + 1].fsm.state is Scrolling)
                &&& !(life.states[i + 1].fsm.state is Debounce && life.frames[i] is Some)
                &&& !life.outcomes[i].watchdog
            },
        0 <= n <= life.events.len(),
    ensures
        life.arrived(n) + payload(crate::daemon::joined(life.states[n].held)) == payload(
            crate::daemon::joined(life.events.take(n)),
        ),
        life.states[n].held.len() == 0 ==> life.arrived(n) == payload(
            crate::daemon::joined(life.events.take(n)),
        ),
    decreases n,
{
    let pred = |ev: InputEvent| ev.event_type != EV_SYN;
    if n > 0 {
        let i = n - 1;
        law_uncaptured_streams_arrive_verbatim(life, scroll, g, i);
        let pre = life.states[i];
        let post = life.states[i + 1];
        let events = life.events[i];
        let outcome = life.outcomes[i];
        assert(life.served(i, scroll, g));
        let so_far = life.events.take(i);
        assert(life.events.take(n) =~= so_far.push(events));
        lemma_joined_push(so_far, events);
        Seq::filter_distributes_over_add(crate::daemon::joined(so_far), events, pred);
        let now_held = pre.held.push(events);
        lemma_joined_push(pre.held, events);
        Seq::filter_distributes_over_add(crate::daemon::joined(pre.held), events, pred);
        assert(!(life.states[i + 1].fsm.state is Scrolling));
        let written = crate::daemon::joined(crate::daemon::contents(outcome.pad@));
        if post.held.len() > 0 {
            law_withheld_frames_are_not_forwarded(
                pre,
                life.frames[i],
                events,
                scroll,
                g,
                life.times[i],
                post,
                outcome,
            );
            assert(crate::daemon::contents(outcome.pad@) =~= Seq::empty());
            assert(written =~= Seq::empty());
            assert(life.arrived(n) =~= life.arrived(i));
        } else {
            law_given_up_candidate_is_replayed(
                pre,
                life.frames[i],
                events,
                scroll,
                g,
                life.times[i],
                post,
                outcome,
            );
            law_written_is_payload(now_held);
            assert(written == payload(crate::daemon::joined(now_held)));
            assert(post.held =~= Seq::empty());
            reveal(Seq::filter);
            assert(payload(crate::daemon::joined(post.held)) =~= Seq::empty());
        }
        assert(life.arrived(n) + payload(crate::daemon::joined(post.held)) =~= life.arrived(i) + (
        payload(crate::daemon::joined(pre.held)) + payload(events)));
        assert(life.arrived(i) + (payload(crate::daemon::joined(pre.held)) + payload(events)) =~= (
        life.arrived(i) + payload(crate::daemon::joined(pre.held))) + payload(events));
    } else {
        assert(life.events.take(0) =~= Seq::empty());
        assert(life.states[0].held =~= Seq::empty());
        assert(life.arrived(0) + payload(crate::daemon::joined(life.states[0].held)) =~= payload(
            crate::daemon::joined(life.events.take(0)),
        ));
    }
    if life.states[n].held.len() == 0 {
        assert(life.states[n].held =~= Seq::empty());
        reveal(Seq::filter);
        assert(payload(crate::daemon::joined(life.states[n].held)) =~= Seq::empty());
        assert(life.arrived(n) + Seq::<InputEvent>::empty() =~= life.arrived(n));
    }
}

/// The stream belongs to the pointer, to a multi-finger gesture or to the dead
/// zone.
pub open spec fn given_up(state: FsmState) -> bool {
    state is MultiTouch || state is Passthrough || state is Contact
}

proof fn lemma_report_in_contact(
    pre: DaemonView,
    frame: Option<TouchFrame>,
    events: Seq<InputEvent>,
    scroll: Scroll,
    g: GeometryModel,
    now: u64,
    post: DaemonView,
    outcome: Outcome,
)
    requires
        serves(pre, frame, events, scroll, g, now, post, outcome),
        scroll.enable,
        in_contact(frame),
        !outcome.watchdog,
    ensures
        given_up(pre.fsm.state) ==> given_up(post.fsm.state),
        pre.held.len() > 0 || ((pre.fsm.state is Idle || pre.fsm.state is Debounce) && frame is Some)
            ==> post.held.len() > 0 || given_up(post.fsm.state) || post.fsm.state is Scrolling,
        pre.fsm.state is Scrolling ==> post.fsm == pre.fsm,
{
}

proof fn lemma_lift(
    pre: DaemonView,
    frame: Option<TouchFrame>,
    events: Seq<InputEvent>,
    scroll: Scroll,
    g: GeometryModel,
    now: u64,
    post: DaemonView,
    outcome: Outcome,
)
    requires
        serves(pre, frame, events, scroll, g, now, post, outcome),
        scroll.enable,
        !in_contact(frame),
        !outcome.watchdog,
    ensures
        post.fsm.state is Idle || post.fsm.state is Debounce,
        pre.fsm.state is Scrolling ==> post.fsm.state is Debounce,
{
}

proof fn lemma_captured_was_not_given_up(
    life: Stretch,
    scroll: Scroll,
    g: GeometryModel,
    k: int,
    i: int,
)
    requires
        life.contact_until_lift(scroll, g),
        0 <= i <= k <= life.events.len(),
        life.states[k].fsm.state is Scrolling,
    ensures
        !given_up(life.states[i].fsm.state),
    decreases k - i,
{
    if i < k {
        lemma_captured_was_not_given_up(life, scroll, g, k, i + 1);
        assert(life.served(i, scroll, g));
        assert(!life.outcomes[i].watchdog);
        if in_contact(life.frames[i]) {
            lemma_report_in_contact(
                life.states[i],
                life.frames[i],
                life.events[i],
                scroll,
                g,
                life.times[i],
                life.states[i + 1],
                life.outcomes[i],
            );
        } else {
            lemma_lift(
                life.states[i],
                life.frames[i],
                life.events[i],
                scroll,
                g,
                life.times[i],
                life.states[i + 1],
                life.outcomes[i],
            );
        }
    }
}

proof fn lemma_captured_was_held(
    life: Stretch,
    scroll: Scroll,
    g: GeometryModel,
    k: int,
    i: int,
)
    requires
        life.contact_until_lift(scroll, g),
        life.states[0].fsm.state is Idle || life.states[0].fsm.state is Debounce,
        life.events.len() > 0 ==> life.frames[0] is Some,
        0 < i <= k <= life.events.len(),
        life.states[k].fsm.state is Scrolling,
    ensures
        life.states[i].held.len() > 0 || life.states[i].fsm.state is Scrolling,
    decreases i,
{
    if i < k {
        let j = i - 1;
        if j > 0 {
            lemma_captured_was_held(life, scroll, g, k, j);
        }
        lemma_captured_was_not_given_up(life, scroll, g, k, i);
        assert(life.served(j, scroll, g));
        assert(!life.outcomes[j].watchdog);
        assert(in_contact(life.frames[j]));
        lemma_report_in_contact(
            life.states[j],
            life.frames[j],
            life.events[j],
            scroll,
            g,
            life.times[j],
            life.states[j + 1],
            life.outcomes[j],
        );
    }
}

/// A captured contact never reaches the virtual pad. Take a stream that starts
/// with a frame while no finger was down, be it long after the last gesture or
/// right after it, and that keeps a finger down until, at most, its last
/// report: if it is captured at any point, nothing of it is ever written, from
/// its first frame to the lift, and once it is captured nothing is left to be
/// written later. Only the watchdog ends this earlier.
pub proof fn law_captured_contact_never_arrives(
    life: Stretch,
    scroll: Scroll,
    g: GeometryModel,
    k: int,
    n: int,
)
    requires
        life.contact_until_lift(scroll, g),
        life.states[0].wf(),
        life.states[0].fsm.state is Idle || life.states[0].fsm.state is Debounce,
        life.events.len() > 0 ==> life.frames[0] is Some,
        0 <= k <= life.events.len(),
        life.states[k].fsm.state is Scrolling,
        0 <= n <= life.events.len(),
    ensures
        life.arrived(n).len() == 0,
        k <= n ==> life.states[n].held.len() == 0,
        k <= n < life.events.len() ==> life.states[n].fsm.state is Scrolling,
    decreases n,
{
    if n > 0 {
        let i = n - 1;
        law_captured_contact_never_arrives(life, scroll, g, k, i);
        assert(life.served(i, scroll, g));
        assert(!life.outcomes[i].watchdog);
        if n <= k {
            lemma_captured_was_held(life, scroll, g, k, n);
        } else {
            lemma_captured_report_is_hidden(life, scroll, g, i);
        }
        law_daemon_stays_well_formed(
            life.states[i],
            life.frames[i],
            life.events[i],
            scroll,
            g,
            life.times[i],
            life.states[i + 1],
            life.outcomes[i],
        );
        law_withheld_frames_are_not_forwarded(
            life.states[i],
            life.frames[i],
            life.events[i],
            scroll,
            g,
            life.times[i],
            life.states[i + 1],
            life.outcomes[i],
        );
        assert(crate::daemon::contents(life.outcomes[i].pad@) =~= Seq::empty());
        assert(life.arrived(n) =~= life.arrived(i));
    }
}

proof fn lemma_captured_report_is_hidden(
    life: Stretch,
    scroll: Scroll,
    g: GeometryModel,
    i: int,
)
    requires
        life.contact_until_lift(scroll, g),
        0 <= i < life.events.len(),
        life.states[i].fsm.state is Scrolling,
    ensures
        in_contact(life.frames[i]) ==> life.states[i + 1].fsm == life.states[i].fsm,
        !in_contact(life.frames[i]) ==> life.states[i + 1].fsm.state is Debounce,
        life.states[i + 1].held.len() == 0,
        withheld(life.frames[i], life.states[i + 1], life.outcomes[i]),
        i < life.events.len() - 1 ==> in_contact(life.frames[i]),
{
    assert(life.served(i, scroll, g));
    assert(!life.outcomes[i].watchdog);
    if in_contact(life.frames[i]) {
        lemma_report_in_contact(
            life.states[i],
            life.frames[i],
            life.events[i],
            scroll,
            g,
            life.times[i],
            life.states[i + 1],
            life.outcomes[i],
        );
    } else {
        lemma_lift(
            life.states[i],
            life.frames[i],
            life.events[i],
            scroll,
            g,
            life.times[i],
            life.states[i + 1],
            life.outcomes[i],
        );
    }
    law_daemon_stays_well_formed(
        life.states[i],
        life.frames[i],
        life.events[i],
        scroll,
        g,
        life.times[i],
        life.states[i + 1],
        life.outcomes[i],
    );
}

/// Once circular scrolling is captured, nothing reaches the virtual pad while
/// any finger stays down, whichever fingers come and go, and nor does the
/// frame on which the last one lifts. Only the watchdog ends this earlier.
pub proof fn law_captured_stream_is_hidden(
    life: Stretch,
    scroll: Scroll,
    g: GeometryModel,
    n: int,
)
    requires
        life.contact_until_lift(scroll, g),
        life.states[0].wf(),
        life.states[0].fsm.state is Scrolling,
        0 <= n <= life.events.len(),
    ensures
        life.arrived(n).len() == 0,
        life.states[n].held.len() == 0,
        n == 0 || in_contact(life.frames[n - 1]) ==> life.states[n].fsm == life.states[0].fsm,
        n > 0 && !in_contact(life.frames[n - 1]) ==> life.states[n].fsm.state is Debounce,
    decreases n,
{
    if n > 0 {
        let i = n - 1;
        law_captured_stream_is_hidden(life, scroll, g, i);
        if i > 0 {
            assert(in_contact(life.frames[i - 1]));
        }
        assert(life.served(i, scroll, g));
        lemma_captured_report_is_hidden(life, scroll, g, i);
        law_withheld_frames_are_not_forwarded(
            life.states[i],
            life.frames[i],
            life.events[i],
            scroll,
            g,
            life.times[i],
            life.states[i + 1],
            life.outcomes[i],
        );
        assert(crate::daemon::contents(life.outcomes[i].pad@) =~= Seq::empty());
        assert(life.arrived(n) =~= life.arrived(i));
    }
}

proof fn lemma_last_closing(r: Seq<Seq<InputEvent>>, p: Seq<InputEvent>)
    requires
        forall|i: int| 0 <= i < r.len() ==> crate::daemon::complete_report(#[trigger] r[i]),
        crate::daemon::open_report(p),
    ensures
        r.len() > 0 ==> {
            let s = crate::daemon::joined(r) + p;
            let k = crate::daemon::joined(r).len() - 1;
            &&& 0 <= k
            &&& s[k].closes_report()
        },
        forall|i: int|
            crate::daemon::joined(r).len() <= i < (crate::daemon::joined(r) + p).len()
                ==> !(#[trigger] (crate::daemon::joined(r) + p)[i]).closes_report(),
{
    let front = crate::daemon::joined(r);
    let s = front + p;
    if r.len() > 0 {
        let last = r[r.len() - 1];
        assert(crate::daemon::complete_report(last));
        assert(front == crate::daemon::joined(r.drop_last()) + last);
        assert(front[front.len() - 1] == last[last.len() - 1]);
    }
    assert forall|i: int| front.len() <= i < s.len() implies !(#[trigger] s[i]).closes_report() by {
        assert(s[i] == p[i - front.len()]);
    }
}

/// Reports are cut in one way only: a stream determines its complete reports
/// and what is left over.
pub proof fn law_reports_are_cut_in_one_way(
    r1: Seq<Seq<InputEvent>>,
    p1: Seq<InputEvent>,
    r2: Seq<Seq<InputEvent>>,
    p2: Seq<InputEvent>,
)
    requires
        forall|i: int| 0 <= i < r1.len() ==> crate::daemon::complete_report(#[trigger] r1[i]),
        forall|i: int| 0 <= i < r2.len() ==> crate::daemon::complete_report(#[trigger] r2[i]),
        crate::daemon::open_report(p1),
        crate::daemon::open_report(p2),
        crate::daemon::joined(r1) + p1 == crate::daemon::joined(r2) + p2,
    ensures
        r1 == r2,
        p1 == p2,
    decreases r1.len(),
{
    let j1 = crate::daemon::joined(r1);
    let j2 = crate::daemon::joined(r2);
    let s = j1 + p1;
    lemma_last_closing(r1, p1);
    lemma_last_closing(r2, p2);
    if r1.len() == 0 {
        if r2.len() > 0 {
            assert(s[j2.len() - 1].closes_report());
            assert(false);
        }
        assert(r1 =~= r2);
        assert(s =~= p1);
        assert(j2 + p2 =~= p2);
    } else if r2.len() == 0 {
        assert(s[j1.len() - 1].closes_report());
        assert(false);
    } else {
        assert(s[j1.len() - 1].closes_report());
        assert(s[j2.len() - 1].closes_report());
        assert(j1.len() == j2.len());
        assert(p1 =~= s.skip(j1.len() as int));
        assert(p2 =~= s.skip(j2.len() as int));
        assert(j1 =~= s.take(j1.len() as int));
        assert(j2 =~= s.take(j2.len() as int));
        let f1 = r1.drop_last();
        let f2 = r2.drop_last();
        let l1 = r1.last();
        let l2 = r2.last();
        assert(crate::daemon::complete_report(r1[r1.len() - 1]));
        assert(crate::daemon::complete_report(r2[r2.len() - 1]));
        assert(crate::daemon::joined(f1) + l1.drop_last() =~= j1.drop_last());
        assert(crate::daemon::joined(f2) + l2.drop_last() =~= j2.drop_last());
        assert forall|i: int| 0 <= i < f1.len() implies crate::daemon::complete_report(
            #[trigger] f1[i],
        ) by {
            assert(f1[i] == r1[i]);
        }
        assert forall|i: int| 0 <= i < f2.len() implies crate::daemon::complete_report(
            #[trigger] f2[i],
        ) by {
            assert(f2[i] == r2[i]);
        }
        law_reports_are_cut_in_one_way(f1, l1.drop_last(), f2, l2.drop_last());
        assert(l1[l1.len() - 1] == j1[j1.len() - 1]);
        assert(l2[l2.len() - 1] == j2[j2.len() - 1]);
        assert(l1 =~= l1.drop_last().push(l1[l1.len() - 1]));
        assert(l2 =~= l2.drop_last().push(l2[l2.len() - 1]));
        assert(r1 =~= f1.push(l1));
        assert(r2 =~= f2.push(l2));
    }
}

} // verus!
