//! The physical touchpad: what it must offer, and how its raw events become
//! touch frames.

use vstd::prelude::*;

use crate::detector::TouchSample;
use crate::error::Error;
use crate::event::{
    contains_code, InputEvent, ABS_MT_POSITION_X, ABS_MT_POSITION_Y, ABS_MT_SLOT,
    ABS_MT_TRACKING_ID, BTN_TOUCH, EV_ABS, EV_KEY,
};
use crate::fsm::{TouchFrame, TrackedTouch};
use crate::pattern::{regex_error, regex_is_match};

verus! {

/// Contact slots that are followed. Touchpads advertise five, the kernel ten
/// at most.
pub const MAX_MT_SLOTS: usize = 16;

/// The range of an absolute axis.
#[derive(Clone, Copy, Debug, PartialEq, Eq, Structural)]
pub struct AxisRange {
    pub minimum: i32,
    pub maximum: i32,
}

/// What a device says it can report. A device without an event type has no
/// list of codes for it.
#[derive(Clone, Debug)]
pub struct DeviceCaps {
    pub absolute_axes: Option<Vec<u16>>,
    pub keys: Option<Vec<u16>>,
}

/// The ranges of the two contact position axes.
#[derive(Clone, Copy, Debug, PartialEq, Eq, Structural)]
pub struct PositionRanges {
    pub x: AxisRange,
    pub y: AxisRange,
}

/// A device node and the name that its device gives itself.
#[derive(Clone, Debug)]
pub struct Candidate {
    pub path: String,
    pub name: Option<String>,
}

/// One contact slot. A tracking id of -1 means that no finger is in it.
#[derive(Clone, Copy, Debug, PartialEq, Eq, Structural)]
pub struct SlotState {
    pub tracking_id: i32,
    pub x: i32,
    pub y: i32,
}

/// The state of the decoder: the slots, the slot that events write to, the
/// pad's summary of whether any finger is down, and whether a contact was
/// updated since the last report boundary.
pub struct DecoderView {
    pub slots: Seq<SlotState>,
    pub current_slot: int,
    pub contact: bool,
    pub dirty: bool,
}

/// The contact slots, as the events so far describe them.
pub struct ContactDecoder {
    slots: Vec<SlotState>,
    current_slot: usize,
    contact: bool,
    dirty: bool,
}

/// The touchpad's geometry and the state of its contact decoder.
pub struct InputDevice {
    pub path: String,
    pub abs_x_min: i32,
    pub abs_x_max: i32,
    pub abs_y_min: i32,
    pub abs_y_max: i32,
    pub center_x: i32,
    pub center_y: i32,
    pub decoder: ContactDecoder,
}

impl View for ContactDecoder {
    type V = DecoderView;

    closed spec fn view(&self) -> DecoderView {
        DecoderView {
            slots: self.slots@,
            current_slot: self.current_slot as int,
            contact: self.contact,
            dirty: self.dirty,
        }
    }
}

/// Half of `sum`, rounded towards zero.
pub open spec fn halved(sum: int) -> int {
    if sum >= 0 {
        sum / 2
    } else {
        -((-sum) / 2)
    }
}

/// `codes` is known and holds `code`.
pub open spec fn offers(codes: Option<Vec<u16>>, code: u16) -> bool {
    codes matches Some(list) && list@.contains(code)
}

/// The first capability that a touchpad needs and `caps` lacks.
pub open spec fn missing_capability(caps: DeviceCaps) -> Option<Seq<char>> {
    if !offers(caps.absolute_axes, ABS_MT_POSITION_X) {
        Some("ABS_MT_POSITION_X"@)
    } else if !offers(caps.absolute_axes, ABS_MT_POSITION_Y) {
        Some("ABS_MT_POSITION_Y"@)
    } else if !offers(caps.keys, BTN_TOUCH) {
        Some("BTN_TOUCH"@)
    } else {
        None
    }
}

impl DecoderView {
    /// Every slot empty, no finger down, nothing to tell.
    pub open spec fn empty() -> DecoderView {
        DecoderView {
            slots: Seq::new(
                MAX_MT_SLOTS as nat,
                |i: int| SlotState { tracking_id: -1i32, x: 0, y: 0 },
            ),
            current_slot: 0,
            contact: false,
            dirty: false,
        }
    }

    /// The slot that events write to is one of the slots.
    pub open spec fn wf(self) -> bool {
        &&& self.slots.len() == MAX_MT_SLOTS
        &&& 0 <= self.current_slot < MAX_MT_SLOTS
    }

    /// The decoder with `slot` written to the current slot.
    pub open spec fn write(self, slot: SlotState) -> DecoderView {
        DecoderView { slots: self.slots.update(self.current_slot, slot), dirty: true, ..self }
    }

    /// The decoder after an absolute axis reported `value`. A slot number out
    /// of range is ignored, and so are axes other than those of contacts.
    pub open spec fn after_abs(self, code: u16, value: i32) -> DecoderView {
        let slot = self.slots[self.current_slot];
        if code == ABS_MT_SLOT {
            if 0 <= value < MAX_MT_SLOTS {
                DecoderView { current_slot: value as int, ..self }
            } else {
                self
            }
        } else if code == ABS_MT_TRACKING_ID {
            self.write(SlotState { tracking_id: value, ..slot })
        } else if code == ABS_MT_POSITION_X {
            self.write(SlotState { x: value, ..slot })
        } else if code == ABS_MT_POSITION_Y {
            self.write(SlotState { y: value, ..slot })
        } else {
            self
        }
    }

    /// The decoder after one event.
    pub open spec fn after_event(self, ev: InputEvent) -> DecoderView {
        if ev.event_type == EV_ABS {
            self.after_abs(ev.code, ev.value)
        } else if ev.event_type == EV_KEY && ev.code == BTN_TOUCH {
            DecoderView { contact: ev.value != 0, dirty: true, ..self }
        } else if ev.closes_report() {
            DecoderView { dirty: false, ..self }
        } else {
            self
        }
    }

    /// The decoder after a batch of events.
    pub open spec fn after(self, events: Seq<InputEvent>) -> DecoderView
        decreases events.len(),
    {
        if events.len() == 0 {
            self
        } else {
            self.after(events.drop_last()).after_event(events.last())
        }
    }

    /// The contacts in the first `n` slots, in the order of the slots.
    pub open spec fn active(self, n: int) -> Seq<TrackedTouch>
        decreases n,
    {
        if n <= 0 {
            Seq::empty()
        } else {
            let slot = self.slots[n - 1];
            let before = self.active(n - 1);
            if slot.tracking_id == -1 {
                before
            } else {
                before.push(
                    TrackedTouch {
                        slot: (n - 1) as usize,
                        tracking_id: slot.tracking_id,
                        pos: TouchSample { x: slot.x, y: slot.y },
                    },
                )
            }
        }
    }

    /// The contacts that a frame shows: all active slots while a finger is
    /// down, none otherwise.
    pub open spec fn touches(self) -> Seq<TrackedTouch> {
        if self.contact {
            self.active(MAX_MT_SLOTS as int)
        } else {
            Seq::empty()
        }
    }

    /// `frame` shows the decoder's state.
    pub open spec fn shows(self, frame: TouchFrame) -> bool {
        frame.contact == self.contact && frame.touches@ == self.touches()
    }

    /// The decoder at the last report in the batch that carries an update of a
    /// contact, if there is one. An update belongs to the report that closes
    /// next after it.
    pub open spec fn at_last_update(self, events: Seq<InputEvent>) -> Option<DecoderView>
        decreases events.len(),
    {
        if events.len() == 0 {
            None
        } else {
            let before = self.after(events.drop_last());
            if events.last().closes_report() && before.dirty {
                Some(before)
            } else {
                self.at_last_update(events.drop_last())
            }
        }
    }
}

impl InputDevice {
    /// The decoder's state is consistent.
    pub open spec fn wf(self) -> bool {
        self.decoder@.wf()
    }

    /// Nothing but the decoder differs.
    pub open spec fn same_pad(self, other: InputDevice) -> bool {
        &&& self.path@ == other.path@
        &&& self.abs_x_min == other.abs_x_min
        &&& self.abs_x_max == other.abs_x_max
        &&& self.abs_y_min == other.abs_y_min
        &&& self.abs_y_max == other.abs_y_max
        &&& self.center_x == other.center_x
        &&& self.center_y == other.center_y
    }

    /// Check the capabilities of the device at `path` and set up its decoder.
    /// `ranges` is what reading the device's axes gave, or nothing if that
    /// failed.
    pub fn open(path: String, caps: &DeviceCaps, ranges: Option<PositionRanges>) -> (r: Result<
        InputDevice,
        Error,
    >)
        ensures
            match missing_capability(*caps) {
                Some(lacking) => r matches Err(Error::EvdevMissingCap { path: at, capability })
                    && at@ == path@ && capability@ == lacking,
                None => match ranges {
                    None => r == Err::<InputDevice, Error>(Error::EvdevRead),
                    Some(range) => r matches Ok(dev) && dev.wf() && dev.decoder@ == DecoderView::empty()
                        && dev.path@ == path@ && dev.abs_x_min == range.x.minimum && dev.abs_x_max
                        == range.x.maximum && dev.abs_y_min == range.y.minimum && dev.abs_y_max
                        == range.y.maximum && dev.center_x == halved(
                        range.x.minimum + range.x.maximum,
                    ) && dev.center_y == halved(range.y.minimum + range.y.maximum),
                },
            },
    {
        if !has_code(&caps.absolute_axes, ABS_MT_POSITION_X) {
            return Err(Error::EvdevMissingCap { path, capability: "ABS_MT_POSITION_X" });
        }
        if !has_code(&caps.absolute_axes, ABS_MT_POSITION_Y) {
            return Err(Error::EvdevMissingCap { path, capability: "ABS_MT_POSITION_Y" });
        }
        if !has_code(&caps.keys, BTN_TOUCH) {
            return Err(Error::EvdevMissingCap { path, capability: "BTN_TOUCH" });
        }
        match ranges {
            None => Err(Error::EvdevRead),
            Some(range) => {
                Ok(
                    InputDevice {
                        path,
                        abs_x_min: range.x.minimum,
                        abs_x_max: range.x.maximum,
                        abs_y_min: range.y.minimum,
                        abs_y_max: range.y.maximum,
                        center_x: midpoint(range.x),
                        center_y: midpoint(range.y),
                        decoder: ContactDecoder::new(),
                    },
                )
            },
        }
    }

    /// The path of the first device whose name matches the regular
    /// expression.
    pub fn find_by_name(regex_str: &str, devices: &Vec<Candidate>) -> (r: Result<String, Error>)
        ensures
            match crate::pattern::regex_rejection(regex_str@) {
                Some(why) => r matches Err(Error::RegexInvalid { pattern, reason }) && pattern@
                    == regex_str@ && reason@ == why,
                None => picks(
                    devices@,
                    devices@.map_values(|c: Candidate| name_matches(regex_str@, c)),
                    regex_str@,
                    r,
                ),
            },
    {
        if let Some(reason) = regex_error(regex_str) {
            return Err(Error::RegexInvalid { pattern: regex_str.to_string(), reason });
        }
        let mut verdicts: Vec<bool> = Vec::with_capacity(devices.len());
        let ghost all = devices@.map_values(|c: Candidate| name_matches(regex_str@, c));
        while verdicts.len() < devices.len()
            invariant
                crate::pattern::regex_rejection(regex_str@) is None,
                verdicts@.len() <= devices@.len(),
                all == devices@.map_values(|c: Candidate| name_matches(regex_str@, c)),
                verdicts@ == all.take(verdicts@.len() as int),
            decreases devices@.len() - verdicts@.len(),
        {
            let verdict: bool = match &devices[verdicts.len()].name {
                Some(name) => regex_is_match(regex_str, name.as_str()),
                None => false,
            };
            verdicts.push(verdict);
        }
        assert(verdicts@ =~= all);
        select_device(devices, &verdicts, regex_str)
    }

    /// Apply a batch of raw events. Returns the frame of the last report in it
    /// that carries an update of a contact. Without one, as for a report that
    /// holds a button alone, there is no frame: the caller should treat this
    /// as no new information, not as a lost event.
    pub fn next_frame(&mut self, events: &Vec<InputEvent>) -> (frame: Option<TouchFrame>)
        requires
            old(self).wf(),
        ensures
            final(self).wf(),
            final(self).same_pad(*old(self)),
            final(self).decoder@ == old(self).decoder@.after(events@),
            match old(self).decoder@.at_last_update(events@) {
                None => frame is None,
                Some(at) => frame matches Some(f) && at.shows(f),
            },
    {
        self.decoder.decode(events)
    }
}

impl ContactDecoder {
    pub fn new() -> (d: ContactDecoder)
        ensures
            d@ == DecoderView::empty(),
            d@.wf(),
    {
        let mut slots: Vec<SlotState> = Vec::with_capacity(MAX_MT_SLOTS);
        while slots.len() < MAX_MT_SLOTS
            invariant
                slots@.len() <= MAX_MT_SLOTS,
                slots@ == DecoderView::empty().slots.take(slots@.len() as int),
            decreases MAX_MT_SLOTS - slots@.len(),
        {
            slots.push(SlotState { tracking_id: -1, x: 0, y: 0 });
        }
        assert(slots@ =~= DecoderView::empty().slots);
        ContactDecoder { slots, current_slot: 0, contact: false, dirty: false }
    }

    /// Apply a batch of raw events. Returns the frame of the last report in it
    /// that carries an update of a contact. Without one, as for a report that
    /// holds a button alone, there is no frame: the caller should treat this
    /// as no new information, not as a lost event.
    pub fn decode(&mut self, events: &Vec<InputEvent>) -> (frame: Option<TouchFrame>)
        requires
            old(self)@.wf(),
        ensures
            final(self)@.wf(),
            final(self)@ == old(self)@.after(events@),
            match old(self)@.at_last_update(events@) {
                None => frame is None,
                Some(at) => frame matches Some(f) && at.shows(f),
            },
    {
        let mut frame: Option<TouchFrame> = None;
        let mut i: usize = 0;
        while i < events.len()
            invariant
                0 <= i <= events@.len(),
                self@.wf(),
                self@ == old(self)@.after(events@.take(i as int)),
                match old(self)@.at_last_update(events@.take(i as int)) {
                    None => frame is None,
                    Some(at) => frame matches Some(f) && at.shows(f),
                },
            decreases events@.len() - i,
        {
            let ev: InputEvent = events[i];
            proof {
                let done = events@.take(i + 1);
                assert(done.drop_last() =~= events@.take(i as int));
                assert(done.last() == ev);
            }
            if ev.event_type == EV_ABS {
                self.apply_abs(ev.code, ev.value);
            } else if ev.event_type == EV_KEY && ev.code == BTN_TOUCH {
                self.contact = ev.value != 0;
                self.dirty = true;
            } else if ev.is_syn_report() {
                if self.dirty {
                    frame = Some(self.assemble_frame());
                }
                self.dirty = false;
            }
            i = i + 1;
        }
        assert(events@.take(events@.len() as int) =~= events@);
        frame
    }

    /// Apply the report of one absolute axis.
    pub fn apply_abs(&mut self, code: u16, value: i32)
        requires
            old(self)@.wf(),
        ensures
            final(self)@.wf(),
            final(self)@ == old(self)@.after_abs(code, value),
    {
        let slot: usize = self.current_slot;
        if code == ABS_MT_SLOT {
            if 0 <= value && value < MAX_MT_SLOTS as i32 {
                self.current_slot = value as usize;
            }
        } else if code == ABS_MT_TRACKING_ID {
            let state: SlotState = self.slots[slot];
            self.slots.set(slot, SlotState { tracking_id: value, ..state });
            self.dirty = true;
        } else if code == ABS_MT_POSITION_X {
            let state: SlotState = self.slots[slot];
            self.slots.set(slot, SlotState { x: value, ..state });
            self.dirty = true;
        } else if code == ABS_MT_POSITION_Y {
            let state: SlotState = self.slots[slot];
            self.slots.set(slot, SlotState { y: value, ..state });
            self.dirty = true;
        }
    }

    /// The frame that shows the current contacts.
    pub fn assemble_frame(&self) -> (frame: TouchFrame)
        requires
            self@.wf(),
        ensures
            self@.shows(frame),
    {
        let mut touches: Vec<TrackedTouch> = Vec::new();
        if self.contact {
            let mut i: usize = 0;
            while i < MAX_MT_SLOTS
                invariant
                    0 <= i <= MAX_MT_SLOTS,
                    self@.slots == self.slots@,
                    self@.wf(),
                    touches@ == self@.active(i as int),
                decreases MAX_MT_SLOTS - i,
            {
                let state: SlotState = self.slots[i];
                if state.tracking_id != -1 {
                    touches.push(
                        TrackedTouch {
                            slot: i,
                            tracking_id: state.tracking_id,
                            pos: TouchSample { x: state.x, y: state.y },
                        },
                    );
                }
                i = i + 1;
            }
        }
        TouchFrame { contact: self.contact, touches }
    }
}

fn has_code(codes: &Option<Vec<u16>>, code: u16) -> (r: bool)
    ensures
        r == offers(*codes, code),
{
    match codes {
        Some(list) => contains_code(list, code),
        None => false,
    }
}

fn midpoint(range: AxisRange) -> (r: i32)
    ensures
        r == halved(range.minimum + range.maximum),
{
    let sum: i64 = range.minimum as i64 + range.maximum as i64;
    if sum >= 0 {
        (sum / 2) as i32
    } else {
        (-((-sum) / 2)) as i32
    }
}

/// The candidate has a name, and the pattern matches it.
pub open spec fn name_matches(pattern: Seq<char>, c: Candidate) -> bool {
    c.name matches Some(name) && crate::pattern::regex_matches(pattern, name@)
}

/// `r` is the path of the first device with a positive verdict, or says that
/// there is none.
pub open spec fn picks(
    devices: Seq<Candidate>,
    verdicts: Seq<bool>,
    pattern: Seq<char>,
    r: Result<String, Error>,
) -> bool {
    match r {
        Ok(path) => exists|i: int|
            0 <= i < verdicts.len() && #[trigger] verdicts[i] && (forall|j: int|
                0 <= j < i ==> !verdicts[j]) && path@ == devices[i].path@,
        Err(Error::DeviceNotFound { regex }) => regex@ == pattern && forall|i: int|
            0 <= i < verdicts.len() ==> !#[trigger] verdicts[i],
        Err(_) => false,
    }
}

/// The path of the first device with a positive verdict.
pub fn select_device(devices: &Vec<Candidate>, verdicts: &Vec<bool>, pattern: &str) -> (r: Result<
    String,
    Error,
>)
    requires
        verdicts@.len() == devices@.len(),
    ensures
        picks(devices@, verdicts@, pattern@, r),
{
    let mut i: usize = 0;
    while i < devices.len()
        invariant
            0 <= i <= devices@.len(),
            verdicts@.len() == devices@.len(),
            forall|j: int| 0 <= j < i ==> !verdicts@[j],
        decreases devices@.len() - i,
    {
        if verdicts[i] {
            return Ok(devices[i].path.clone());
        }
        i = i + 1;
    }
    Err(Error::DeviceNotFound { regex: pattern.to_string() })
}

proof fn lemma_active(d: DecoderView, n: int)
    requires
        0 <= n <= MAX_MT_SLOTS,
        d.slots.len() == MAX_MT_SLOTS,
    ensures
        forall|j: int|
            0 <= j < d.active(n).len() ==> (#[trigger] d.active(n)[j]).slot < n && holds(
                d,
                d.active(n)[j],
            ),
        forall|j: int, k: int|
            0 <= j < k < d.active(n).len() ==> (#[trigger] d.active(n)[j]).slot < (
            #[trigger] d.active(n)[k]).slot,
        forall|s: int|
            0 <= s < n && (#[trigger] d.slots[s]).tracking_id != -1 ==> exists|j: int|
                0 <= j < d.active(n).len() && (#[trigger] d.active(n)[j]).slot == s,
    decreases n,
{
    if n > 0 {
        lemma_active(d, n - 1);
        let before = d.active(n - 1);
        let now = d.active(n);
        assert forall|s: int|
            0 <= s < n && (#[trigger] d.slots[s]).tracking_id != -1 implies exists|j: int|
            0 <= j < now.len() && (#[trigger] now[j]).slot == s by {
            if s < n - 1 {
                let j = choose|j: int| 0 <= j < before.len() && (#[trigger] before[j]).slot == s;
                assert(now[j].slot == s);
            } else {
                assert(now[now.len() - 1].slot == s);
            }
        }
    }
}

/// The contact is what its slot holds, and the slot is active.
pub open spec fn holds(d: DecoderView, t: TrackedTouch) -> bool {
    let slot = d.slots[t.slot as int];
    &&& slot.tracking_id != -1
    &&& t.tracking_id == slot.tracking_id
    &&& t.pos == (TouchSample { x: slot.x, y: slot.y })
}

/// While a finger is down a frame shows every active slot once, in the order
/// of the slots, and nothing else.
pub proof fn law_frame_shows_the_active_slots(d: DecoderView, frame: TouchFrame)
    requires
        d.wf(),
        d.shows(frame),
        frame.contact,
    ensures
        forall|j: int|
            0 <= j < frame.touches@.len() ==> (#[trigger] frame.touches@[j]).slot < MAX_MT_SLOTS
                && holds(d, frame.touches@[j]),
        forall|j: int, k: int|
            0 <= j < k < frame.touches@.len() ==> (#[trigger] frame.touches@[j]).slot < (
            #[trigger] frame.touches@[k]).slot,
        forall|s: int|
            0 <= s < MAX_MT_SLOTS && (#[trigger] d.slots[s]).tracking_id != -1 ==> exists|j: int|
                0 <= j < frame.touches@.len() && (#[trigger] frame.touches@[j]).slot == s,
{
    lemma_active(d, MAX_MT_SLOTS as int);
}

/// Decoding keeps the decoder consistent, whatever the events are.
pub proof fn law_decoding_keeps_well_formed(d: DecoderView, events: Seq<InputEvent>)
    requires
        d.wf(),
    ensures
        d.after(events).wf(),
    decreases events.len(),
{
    if events.len() > 0 {
        law_decoding_keeps_well_formed(d, events.drop_last());
    }
}

/// It does not matter how the event stream is cut into batches.
pub proof fn law_batches_do_not_matter(d: DecoderView, a: Seq<InputEvent>, b: Seq<InputEvent>)
    ensures
        d.after(a + b) == d.after(a).after(b),
    decreases b.len(),
{
    if b.len() > 0 {
        law_batches_do_not_matter(d, a, b.drop_last());
        assert((a + b).drop_last() =~= a + b.drop_last());
        assert((a + b).last() == b.last());
    } else {
        assert(a + b =~= a);
    }
}

pub proof fn lemma_unclosed(d: DecoderView, events: Seq<InputEvent>)
    requires
        forall|i: int| 0 <= i < events.len() ==> !(#[trigger] events[i]).closes_report(),
    ensures
        d.at_last_update(events) is None,
        d.after(events).dirty <==> d.dirty || exists|i: int|
            0 <= i < events.len() && (#[trigger] events[i]).updates_contact(),
        !d.after(events).dirty ==> d.after(events).slots == d.slots && d.after(events).contact
            == d.contact,
    decreases events.len(),
{
    if events.len() > 0 {
        let front = events.drop_last();
        let last = events[events.len() - 1];
        assert forall|i: int| 0 <= i < front.len() implies !(#[trigger] front[i]).closes_report() by {
            assert(front[i] == events[i]);
        }
        lemma_unclosed(d, front);
        assert(!last.closes_report());
        if d.after(events).dirty && !d.dirty {
            if last.updates_contact() {
                assert(events[events.len() - 1].updates_contact());
            } else {
                let i = choose|i: int| 0 <= i < front.len() && (#[trigger] front[i]).updates_contact();
                assert(events[i].updates_contact());
            }
        }
        if exists|i: int| 0 <= i < events.len() && (#[trigger] events[i]).updates_contact() {
            let i = choose|i: int| 0 <= i < events.len() && (#[trigger] events[i]).updates_contact();
            if i < front.len() {
                assert(front[i].updates_contact());
            }
        }
    }
}

/// A report gives a frame exactly if it carries an update of a contact. One
/// that does not, such as a button alone, leaves every contact as it was.
pub proof fn law_frame_needs_an_update(d: DecoderView, events: Seq<InputEvent>)
    requires
        crate::daemon::complete_report(events),
        !d.dirty,
    ensures
        d.at_last_update(events) is Some <==> exists|i: int|
            0 <= i < events.len() && (#[trigger] events[i]).updates_contact(),
        d.at_last_update(events) is None ==> d.after(events).slots == d.slots && d.after(
            events,
        ).contact == d.contact,
        !d.after(events).dirty,
{
    let front = events.drop_last();
    assert forall|i: int| 0 <= i < front.len() implies !(#[trigger] front[i]).closes_report() by {
        assert(front[i] == events[i]);
    }
    lemma_unclosed(d, front);
    if exists|i: int| 0 <= i < events.len() && (#[trigger] events[i]).updates_contact() {
        let i = choose|i: int| 0 <= i < events.len() && (#[trigger] events[i]).updates_contact();
        assert(front[i].updates_contact());
    }
    if exists|i: int| 0 <= i < front.len() && (#[trigger] front[i]).updates_contact() {
        let i = choose|i: int| 0 <= i < front.len() && (#[trigger] front[i]).updates_contact();
        assert(events[i].updates_contact());
    }
}

/// A slot is only ever changed by events that are addressed to it.
pub proof fn law_other_slots_are_untouched(d: DecoderView, ev: InputEvent, slot: int)
    requires
        d.wf(),
        0 <= slot < MAX_MT_SLOTS,
        slot != d.current_slot,
    ensures
        d.after_event(ev).slots[slot] == d.slots[slot],
{
}

} // verus!
