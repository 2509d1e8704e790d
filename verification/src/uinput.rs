//! The two virtual devices: what they look like, and the events that are
//! written to them.
//!
//! The wheel carries the notches of circular scrolling. The touchpad mirrors
//! the physical pad and carries everything else.

use vstd::prelude::*;
use vstd::string::*;

use crate::error::Error;
use crate::event::{
    contains_code, InputEvent, ABS_MT_POSITION_X, ABS_MT_POSITION_Y, ABS_MT_SLOT,
    ABS_MT_TRACKING_ID, ABS_X, ABS_Y, BTN_TOOL_DOUBLETAP, BTN_TOOL_FINGER, BTN_TOOL_QUADTAP,
    BTN_TOOL_QUINTTAP, BTN_TOOL_TRIPLETAP, BTN_TOUCH, EV_ABS, EV_KEY, EV_REL, EV_SYN,
    INPUT_PROP_SEMI_MT, REL_HWHEEL, REL_HWHEEL_HI_RES, REL_WHEEL, REL_WHEEL_HI_RES,
};

verus! {

/// The vendor id of both virtual devices: "ln" in ASCII.
pub const VENDOR_ID: u16 = 0x6c6e;

/// The product id of the virtual wheel: "wp" in ASCII.
pub const WHEEL_PRODUCT_ID: u16 = 0x7770;

/// The product id of the virtual touchpad: "tp" in ASCII.
pub const TOUCHPAD_PRODUCT_ID: u16 = 0x7470;

/// The version of both virtual devices.
pub const VERSION: u16 = 1;

/// High-resolution units of one notch, the same that real mice send.
pub const HI_RES_STEP: i32 = 120;

/// The keys that sum up contacts and have to be released after a captured
/// gesture.
pub const TOUCH_RELEASE_KEYS: [u16; 6] = [
    BTN_TOUCH,
    BTN_TOOL_FINGER,
    BTN_TOOL_DOUBLETAP,
    BTN_TOOL_TRIPLETAP,
    BTN_TOOL_QUADTAP,
    BTN_TOOL_QUINTTAP,
];

/// How a virtual device presents itself.
#[derive(Debug)]
pub struct Identity {
    pub name: String,
    pub vendor: u16,
    pub product: u16,
    pub version: u16,
}

/// The state and range of an absolute axis.
#[derive(Clone, Copy, Debug, PartialEq, Eq, Structural)]
pub struct AbsInfo {
    pub value: i32,
    pub minimum: i32,
    pub maximum: i32,
    pub fuzz: i32,
    pub flat: i32,
    pub resolution: i32,
}

/// An absolute axis of a virtual device.
#[derive(Clone, Copy, Debug, PartialEq, Eq, Structural)]
pub struct AbsSetup {
    pub axis: u16,
    pub info: AbsInfo,
}

/// What the physical pad says about itself. `absolute_state` is indexed by
/// axis; it is missing if it could not be read.
#[derive(Debug)]
pub struct PhysicalPad {
    pub name: Option<String>,
    pub keys: Option<Vec<u16>>,
    pub relative_axes: Option<Vec<u16>>,
    pub absolute_axes: Option<Vec<u16>>,
    pub absolute_state: Option<Vec<AbsInfo>>,
    pub misc: Option<Vec<u16>>,
    pub properties: Vec<u16>,
}

/// The virtual wheel.
#[derive(Debug)]
pub struct UinputWheel {
    pub identity: Identity,
    pub relative_axes: Vec<u16>,
}

/// The virtual touchpad.
#[derive(Debug)]
pub struct UinputTouchpad {
    pub identity: Identity,
    pub keys: Option<Vec<u16>>,
    pub relative_axes: Option<Vec<u16>>,
    pub absolute_axes: Vec<AbsSetup>,
    pub misc: Option<Vec<u16>>,
    pub properties: Vec<u16>,
    pub touch_release_keys: Vec<u16>,
}

/// The two events that turn a wheel by `ticks` notches.
pub open spec fn wheel_events(ticks: int, axis: u16, axis_hi_res: u16) -> Seq<InputEvent> {
    seq![
        InputEvent { event_type: EV_REL, code: axis_hi_res, value: (ticks * HI_RES_STEP) as i32 },
        InputEvent { event_type: EV_REL, code: axis, value: ticks as i32 },
    ]
}

/// `written` is what turning a wheel by `ticks` notches writes: nothing for
/// no notches.
pub open spec fn turns_wheel(
    written: Option<Vec<InputEvent>>,
    ticks: int,
    axis: u16,
    axis_hi_res: u16,
) -> bool {
    if ticks == 0 {
        written is None
    } else {
        written matches Some(events) && events@ == wheel_events(ticks, axis, axis_hi_res)
    }
}

impl UinputWheel {
    /// Lay out the virtual wheel. `uinput_present` says whether the kernel
    /// offers a uinput node.
    pub fn create(uinput_present: bool) -> (r: Result<UinputWheel, Error>)
        ensures
            if uinput_present {
                r matches Ok(wheel) && wheel.identity.name@
                    == "Let's Note WheelPad (virtual wheel)"@ && wheel.identity.vendor == VENDOR_ID
                    && wheel.identity.product == WHEEL_PRODUCT_ID && wheel.identity.version
                    == VERSION && wheel.relative_axes@ == seq![
                    REL_WHEEL,
                    REL_WHEEL_HI_RES,
                    REL_HWHEEL,
                    REL_HWHEEL_HI_RES,
                ]
            } else {
                r == Err::<UinputWheel, Error>(Error::UinputMissing)
            },
    {
        if !uinput_present {
            return Err(Error::UinputMissing);
        }
        let relative_axes: Vec<u16> = vec![
            REL_WHEEL,
            REL_WHEEL_HI_RES,
            REL_HWHEEL,
            REL_HWHEEL_HI_RES,
        ];
        assert(relative_axes@ =~= seq![
            REL_WHEEL,
            REL_WHEEL_HI_RES,
            REL_HWHEEL,
            REL_HWHEEL_HI_RES,
        ]);
        Ok(
            UinputWheel {
                identity: Identity {
                    name: "Let's Note WheelPad (virtual wheel)".to_string(),
                    vendor: VENDOR_ID,
                    product: WHEEL_PRODUCT_ID,
                    version: VERSION,
                },
                relative_axes,
            },
        )
    }

    /// The events for `ticks` vertical notches; positive scrolls up. Signs
    /// are not interpreted further.
    pub fn emit_v(&self, ticks: i32) -> (written: Option<Vec<InputEvent>>)
        requires
            i32::MIN <= ticks * HI_RES_STEP <= i32::MAX,
        ensures
            turns_wheel(written, ticks as int, REL_WHEEL, REL_WHEEL_HI_RES),
    {
        emit_axis(ticks, REL_WHEEL, REL_WHEEL_HI_RES)
    }

    /// The events for `ticks` horizontal notches; positive scrolls right.
    pub fn emit_h(&self, ticks: i32) -> (written: Option<Vec<InputEvent>>)
        requires
            i32::MIN <= ticks * HI_RES_STEP <= i32::MAX,
        ensures
            turns_wheel(written, ticks as int, REL_HWHEEL, REL_HWHEEL_HI_RES),
    {
        emit_axis(ticks, REL_HWHEEL, REL_HWHEEL_HI_RES)
    }
}

fn emit_axis(ticks: i32, axis: u16, axis_hi_res: u16) -> (written: Option<Vec<InputEvent>>)
    requires
        i32::MIN <= ticks * HI_RES_STEP <= i32::MAX,
    ensures
        turns_wheel(written, ticks as int, axis, axis_hi_res),
{
    if ticks == 0 {
        return None;
    }
    let events: Vec<InputEvent> = vec![
        InputEvent { event_type: EV_REL, code: axis_hi_res, value: ticks * HI_RES_STEP },
        InputEvent { event_type: EV_REL, code: axis, value: ticks },
    ];
    assert(events@ =~= wheel_events(ticks as int, axis, axis_hi_res));
    Some(events)
}

/// The axis carries a position.
pub open spec fn position_axis(code: u16) -> bool {
    code == ABS_X || code == ABS_Y || code == ABS_MT_POSITION_X || code == ABS_MT_POSITION_Y
}

/// The event passes on to the virtual pad. Report boundaries never do, as
/// writing adds its own. Positions can be dropped. When a captured gesture is
/// finished, contact slots and summary keys are dropped too: the release that
/// stands in for them is written explicitly.
pub open spec fn passes(
    ev: InputEvent,
    strip_positions: bool,
    finishing: bool,
    release_keys: Seq<u16>,
) -> bool {
    &&& ev.event_type != EV_SYN
    &&& !(strip_positions && ev.event_type == EV_ABS && position_axis(ev.code))
    &&& !(strip_positions && finishing && ev.event_type == EV_ABS && (ev.code == ABS_MT_SLOT
        || ev.code == ABS_MT_TRACKING_ID))
    &&& !(finishing && ev.event_type == EV_KEY && release_keys.contains(ev.code))
}

/// The explicit release of a contact slot.
pub open spec fn slot_release(release_slot: Option<usize>) -> Seq<InputEvent> {
    match release_slot {
        Some(slot) => seq![
            InputEvent { event_type: EV_ABS, code: ABS_MT_SLOT, value: slot as i32 },
            InputEvent { event_type: EV_ABS, code: ABS_MT_TRACKING_ID, value: -1i32 },
        ],
        None => Seq::empty(),
    }
}

/// The explicit release of the summary keys.
pub open spec fn key_releases(
    release_slot: Option<usize>,
    release_keys: Seq<u16>,
) -> Seq<InputEvent> {
    if release_slot is Some {
        release_keys.map_values(
            |key: u16| InputEvent { event_type: EV_KEY, code: key, value: 0 },
        )
    } else {
        Seq::empty()
    }
}

/// What is written to the virtual pad for a batch of physical events: the
/// slot's release, the events that pass in their order, the keys' releases.
pub open spec fn prepared(
    events: Seq<InputEvent>,
    strip_positions: bool,
    release_slot: Option<usize>,
    release_keys: Seq<u16>,
) -> Seq<InputEvent> {
    slot_release(release_slot) + events.filter(
        |ev: InputEvent| passes(ev, strip_positions, release_slot is Some, release_keys),
    ) + key_releases(release_slot, release_keys)
}

/// Prepare a batch of physical events for the virtual pad.
pub fn prepare_forward_events(
    events: &Vec<InputEvent>,
    strip_positions: bool,
    release_slot: Option<usize>,
    touch_release_keys: &Vec<u16>,
) -> (out: Vec<InputEvent>)
    ensures
        out@ == prepared(events@, strip_positions, release_slot, touch_release_keys@),
{
    let finishing: bool = release_slot.is_some();
    let mut out: Vec<InputEvent> = Vec::new();
    if let Some(slot) = release_slot {
        out.push(InputEvent { event_type: EV_ABS, code: ABS_MT_SLOT, value: slot as i32 });
        out.push(InputEvent { event_type: EV_ABS, code: ABS_MT_TRACKING_ID, value: -1 });
    }
    let ghost head = slot_release(release_slot);
    let ghost pass = |ev: InputEvent|
        passes(ev, strip_positions, release_slot is Some, touch_release_keys@);
    assert(out@ =~= head);
    let mut i: usize = 0;
    proof {
        reveal(Seq::filter);
        assert(out@ =~= head + events@.take(0).filter(pass));
    }
    while i < events.len()
        invariant
            0 <= i <= events@.len(),
            finishing == (release_slot is Some),
            pass == (|ev: InputEvent|
                passes(ev, strip_positions, release_slot is Some, touch_release_keys@)),
            out@ == head + events@.take(i as int).filter(pass),
        decreases events@.len() - i,
    {
        let ev: InputEvent = events[i];
        let keep: bool = event_passes(ev, strip_positions, finishing, touch_release_keys);
        proof {
            reveal(Seq::filter);
            let done = events@.take(i + 1);
            assert(done.drop_last() =~= events@.take(i as int));
            assert(done.last() == ev);
            assert(keep == pass(ev));
        }
        if keep {
            out.push(ev);
        }
        i = i + 1;
    }
    assert(events@.take(events@.len() as int) =~= events@);
    if finishing {
        let ghost body = out@;
        let ghost tail = key_releases(release_slot, touch_release_keys@);
        let mut k: usize = 0;
        while k < touch_release_keys.len()
            invariant
                0 <= k <= touch_release_keys@.len(),
                tail.len() == touch_release_keys@.len(),
                forall|j: int|
                    0 <= j < tail.len() ==> #[trigger] tail[j] == (InputEvent {
                        event_type: EV_KEY,
                        code: touch_release_keys@[j],
                        value: 0,
                    }),
                out@ == body + tail.take(k as int),
            decreases touch_release_keys@.len() - k,
        {
            out.push(InputEvent { event_type: EV_KEY, code: touch_release_keys[k], value: 0 });
            assert(tail.take(k + 1) =~= tail.take(k as int).push(tail[k as int]));
            k = k + 1;
        }
        assert(tail.take(tail.len() as int) =~= tail);
    }
    out
}

fn event_passes(
    ev: InputEvent,
    strip_positions: bool,
    finishing: bool,
    touch_release_keys: &Vec<u16>,
) -> (r: bool)
    ensures
        r == passes(ev, strip_positions, finishing, touch_release_keys@),
{
    if ev.event_type == EV_SYN {
        return false;
    }
    if strip_positions && ev.event_type == EV_ABS {
        if ev.code == ABS_X || ev.code == ABS_Y || ev.code == ABS_MT_POSITION_X || ev.code
            == ABS_MT_POSITION_Y {
            return false;
        }
        if finishing && (ev.code == ABS_MT_SLOT || ev.code == ABS_MT_TRACKING_ID) {
            return false;
        }
    }
    !(finishing && ev.event_type == EV_KEY && contains_code(touch_release_keys, ev.code))
}

/// `written` is what writing `events` amounts to: nothing for no events.
pub open spec fn writes(written: Option<Vec<InputEvent>>, events: Seq<InputEvent>) -> bool {
    if events.len() == 0 {
        written is None
    } else {
        written matches Some(batch) && batch@ == events
    }
}

fn emit_forward_events(events: Vec<InputEvent>) -> (written: Option<Vec<InputEvent>>)
    ensures
        writes(written, events@),
{
    if events.len() == 0 {
        None
    } else {
        Some(events)
    }
}

/// The keys of the pad that sum up contacts.
pub open spec fn release_keys_of(keys: Option<Vec<u16>>) -> Seq<u16> {
    match keys {
        Some(list) => TOUCH_RELEASE_KEYS@.filter(|key: u16| list@.contains(key)),
        None => Seq::empty(),
    }
}

/// The axes of the pad with their states.
pub open spec fn axis_setups(axes: Seq<u16>, state: Seq<AbsInfo>) -> Seq<AbsSetup> {
    axes.map_values(|axis: u16| AbsSetup { axis, info: state[axis as int] })
}

/// `pad` mirrors `physical`: the same keys, axes and misc events, and the same
/// properties except for semi-multitouch, which would make libinput
/// downgrade multi-finger gestures.
pub open spec fn mirrors(pad: UinputTouchpad, physical: PhysicalPad) -> bool {
    &&& pad.identity.name@ == match physical.name {
        Some(name) => name@,
        None => "Touchpad"@,
    } + " (letsnote-wheelpad)"@
    &&& pad.identity.vendor == VENDOR_ID
    &&& pad.identity.product == TOUCHPAD_PRODUCT_ID
    &&& pad.identity.version == VERSION
    &&& pad.keys == physical.keys
    &&& pad.relative_axes == physical.relative_axes
    &&& pad.absolute_axes@ == match physical.absolute_axes {
        Some(axes) => axis_setups(axes@, physical.absolute_state->0@),
        None => Seq::empty(),
    }
    &&& pad.misc == physical.misc
    &&& pad.properties@ == physical.properties@.filter(|prop: u16| prop != INPUT_PROP_SEMI_MT)
    &&& pad.touch_release_keys@ == release_keys_of(physical.keys)
}

impl UinputTouchpad {
    /// Lay out a virtual touchpad that mirrors the physical one. It borrows
    /// the pad's name, with a suffix, so that quirks that go by the name keep
    /// matching, and has ids of its own so that it counts as another device.
    pub fn create_from_physical(uinput_present: bool, physical: PhysicalPad) -> (r: Result<
        UinputTouchpad,
        Error,
    >)
        requires
            physical.absolute_axes matches Some(axes) ==> (physical.absolute_state matches Some(
                state,
            ) ==> forall|i: int| 0 <= i < axes@.len() ==> #[trigger] axes@[i] < state@.len()),
        ensures
            if !uinput_present {
                r == Err::<UinputTouchpad, Error>(Error::UinputMissing)
            } else if physical.absolute_axes is Some && physical.absolute_state is None {
                r == Err::<UinputTouchpad, Error>(Error::EvdevRead)
            } else {
                r matches Ok(pad) && mirrors(pad, physical) && (physical.absolute_axes matches Some(
                    axes,
                ) ==> pad.absolute_axes@.len() == axes@.len() && forall|i: int|
                    0 <= i < axes@.len() ==> (#[trigger] pad.absolute_axes@[i]).axis == axes@[i]
                        && pad.absolute_axes@[i].info == physical.absolute_state->0@[axes@[i] as int])
            },
    {
        if !uinput_present {
            return Err(Error::UinputMissing);
        }
        let mut absolute_axes: Vec<AbsSetup> = Vec::new();
        if let Some(axes) = &physical.absolute_axes {
            match &physical.absolute_state {
                None => {
                    return Err(Error::EvdevRead);
                },
                Some(state) => {
                    absolute_axes = collect_axes(axes, state);
                },
            }
        }
        let base: String = match physical.name {
            Some(name) => name,
            None => "Touchpad".to_string(),
        };
        let touch_release_keys: Vec<u16> = collect_release_keys(&physical.keys);
        let properties: Vec<u16> = drop_semi_mt(&physical.properties);
        Ok(
            UinputTouchpad {
                identity: Identity {
                    name: base.concat(" (letsnote-wheelpad)"),
                    vendor: VENDOR_ID,
                    product: TOUCHPAD_PRODUCT_ID,
                    version: VERSION,
                },
                keys: physical.keys,
                relative_axes: physical.relative_axes,
                absolute_axes,
                misc: physical.misc,
                properties,
                touch_release_keys,
            },
        )
    }

    /// What forwarding a batch of physical events writes. Report boundaries
    /// are dropped, and positions too if asked.
    pub fn forward(&self, events: &Vec<InputEvent>, strip_positions: bool) -> (written: Option<
        Vec<InputEvent>,
    >)
        ensures
            writes(written, prepared(events@, strip_positions, None, Seq::empty())),
    {
        let no_keys: Vec<u16> = Vec::new();
        emit_forward_events(prepare_forward_events(events, strip_positions, None, &no_keys))
    }

    /// What finishing a gesture in `captured_slot` writes: the explicit
    /// release of that slot and of every summary key of the pad, and no
    /// positions.
    pub fn finish_scroll(&self, events: &Vec<InputEvent>, captured_slot: usize) -> (written: Option<
        Vec<InputEvent>,
    >)
        ensures
            written matches Some(batch) && batch@ == prepared(
                events@,
                true,
                Some(captured_slot),
                self.touch_release_keys@,
            ),
    {
        emit_forward_events(
            prepare_forward_events(events, true, Some(captured_slot), &self.touch_release_keys),
        )
    }
}

fn collect_axes(axes: &Vec<u16>, state: &Vec<AbsInfo>) -> (setups: Vec<AbsSetup>)
    requires
        forall|i: int| 0 <= i < axes@.len() ==> #[trigger] axes@[i] < state@.len(),
    ensures
        setups@ == axis_setups(axes@, state@),
        setups@.len() == axes@.len(),
        forall|i: int|
            0 <= i < axes@.len() ==> (#[trigger] setups@[i]).axis == axes@[i] && setups@[i].info
                == state@[axes@[i] as int],
{
    let mut setups: Vec<AbsSetup> = Vec::with_capacity(axes.len());
    let mut i: usize = 0;
    while i < axes.len()
        invariant
            0 <= i <= axes@.len(),
            forall|i: int| 0 <= i < axes@.len() ==> #[trigger] axes@[i] < state@.len(),
            setups@.len() == i,
            forall|j: int|
                0 <= j < i ==> #[trigger] setups@[j] == (AbsSetup {
                    axis: axes@[j],
                    info: state@[axes@[j] as int],
                }),
        decreases axes@.len() - i,
    {
        let axis: u16 = axes[i];
        assert(axes@[i as int] < state@.len());
        setups.push(AbsSetup { axis, info: state[axis as usize] });
        i = i + 1;
    }
    assert(setups@ =~= axis_setups(axes@, state@));
    setups
}

fn collect_release_keys(keys: &Option<Vec<u16>>) -> (out: Vec<u16>)
    ensures
        out@ == release_keys_of(*keys),
{
    let mut out: Vec<u16> = Vec::new();
    if let Some(list) = keys {
        let all: [u16; 6] = TOUCH_RELEASE_KEYS;
        let ghost has = |key: u16| list@.contains(key);
        let mut i: usize = 0;
        proof {
            reveal(Seq::filter);
            assert(out@ =~= all@.take(0).filter(has));
        }
        while i < 6
            invariant
                0 <= i <= 6,
                all@.len() == 6,
                has == (|key: u16| list@.contains(key)),
                out@ == all@.take(i as int).filter(has),
            decreases 6 - i,
        {
            let key: u16 = all[i];
            proof {
                reveal(Seq::filter);
                let done = all@.take(i + 1);
                assert(done.drop_last() =~= all@.take(i as int));
                assert(done.last() == key);
            }
            if contains_code(list, key) {
                out.push(key);
            }
            i = i + 1;
        }
        assert(all@.take(6) =~= all@);
    }
    out
}

fn drop_semi_mt(properties: &Vec<u16>) -> (out: Vec<u16>)
    ensures
        out@ == properties@.filter(|prop: u16| prop != INPUT_PROP_SEMI_MT),
{
    let mut out: Vec<u16> = Vec::new();
    let ghost wanted = |prop: u16| prop != INPUT_PROP_SEMI_MT;
    let mut i: usize = 0;
    proof {
        reveal(Seq::filter);
        assert(out@ =~= properties@.take(0).filter(wanted));
    }
    while i < properties.len()
        invariant
            0 <= i <= properties@.len(),
            wanted == (|prop: u16| prop != INPUT_PROP_SEMI_MT),
            out@ == properties@.take(i as int).filter(wanted),
        decreases properties@.len() - i,
    {
        let prop: u16 = properties[i];
        proof {
            reveal(Seq::filter);
            let done = properties@.take(i + 1);
            assert(done.drop_last() =~= properties@.take(i as int));
            assert(done.last() == prop);
        }
        if prop != INPUT_PROP_SEMI_MT {
            out.push(prop);
        }
        i = i + 1;
    }
    assert(properties@.take(properties@.len() as int) =~= properties@);
    out
}

} // verus!
