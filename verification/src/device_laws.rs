//! What the settings, the decoder and the virtual devices are for, said of
//! values, events and capabilities.

use vstd::prelude::*;

use crate::config::Scroll;
use crate::error::Error;
use crate::evdev::{Candidate, DecoderView, DeviceCaps, InputDevice, SlotState};
use crate::event::{
    InputEvent, ABS_MT_POSITION_X, ABS_MT_POSITION_Y, ABS_MT_SLOT, ABS_MT_TRACKING_ID, ABS_X,
    ABS_Y, BTN_TOOL_DOUBLETAP, BTN_TOOL_FINGER, BTN_TOOL_QUADTAP, BTN_TOOL_QUINTTAP,
    BTN_TOOL_TRIPLETAP, BTN_TOUCH, EV_ABS, EV_KEY, EV_REL, EV_SYN, INPUT_PROP_SEMI_MT, REL_HWHEEL,
    REL_HWHEEL_HI_RES, REL_WHEEL, REL_WHEEL_HI_RES, SYN_REPORT,
};
use crate::fsm::{Action, TouchFrame};
use crate::uinput::{AbsInfo, AbsSetup, PhysicalPad, UinputTouchpad};

verus! {

/// Settings are refused exactly if one of the four numbers lies outside its
/// range, and no other setting matters.
pub proof fn law_four_numbers_decide(s: Scroll)
    ensures
        s.fault() is None <==> -4 <= s.sensitivity <= 2 && 0 <= s.detect_area_width <= 10 && 0
            <= s.horizontal_start <= 15 && 0 <= s.horizontal_end <= 15,
{
}

/// A refusal names the first number outside its range, with its value and the
/// range that it should have kept to.
pub proof fn law_refusal_names_the_first_offender(s: Scroll, e: Error)
    requires
        s.fault() is Some,
        crate::config::reports(e, s.fault()->0),
    ensures
        e matches Error::ConfigRange { key, value, expected } && {
            if s.sensitivity < -4 || s.sensitivity > 2 {
                key@ == "scroll.sensitivity"@ && value == s.sensitivity && expected@ == "-4..=2"@
            } else if s.detect_area_width < 0 || s.detect_area_width > 10 {
                key@ == "scroll.detect_area_width"@ && value == s.detect_area_width && expected@
                    == "0..=10"@
            } else if s.horizontal_start < 0 || s.horizontal_start > 15 {
                key@ == "scroll.horizontal_start"@ && value == s.horizontal_start && expected@
                    == "0..=15"@
            } else {
                key@ == "scroll.horizontal_end"@ && value == s.horizontal_end && expected@
                    == "0..=15"@
            }
        },
{
}

/// Joining puts the name behind the directory, with exactly one separator in
/// between, and none where there is no directory.
pub proof fn law_join_puts_one_separator(base: Seq<char>, name: Seq<char>)
    ensures
        ({
            let path = crate::config::joined(base, name);
            let n = path.len() - name.len();
            &&& n >= 0
            &&& path.skip(n) == name
            &&& base.len() == 0 ==> n == 0
            &&& base.len() > 0 ==> path[n - 1] == '/' && path.take(base.len() as int) == base
            &&& base.len() > 0 && base.last() == '/' ==> n == base.len()
            &&& base.len() > 0 && base.last() != '/' ==> n == base.len() + 1
        }),
{
    reveal_strlit("/");
    let path = crate::config::joined(base, name);
    let n = path.len() - name.len();
    assert(path.skip(n) =~= name);
    if base.len() > 0 {
        assert(path.take(base.len() as int) =~= base);
    }
}

/// The configurations lie in the directory that the environment sets, as it
/// stands, unless that is empty or missing; then they lie in `.config` under
/// the home directory, or under the current one without a home.
pub proof fn law_configuration_root_follows_the_environment(
    xdg: Option<String>,
    home: Option<String>,
)
    ensures
        match xdg {
            Some(dir) if dir@.len() > 0 => crate::config::config_root(xdg, home) == dir@,
            _ => crate::config::config_root(xdg, home) == match home {
                Some(dir) => crate::config::joined(dir@, ".config"@),
                None => "./.config"@,
            },
        },
{
    reveal_strlit(".");
    reveal_strlit("/");
    reveal_strlit(".config");
    reveal_strlit("./.config");
    assert(crate::config::joined("."@, ".config"@) =~= "./.config"@);
}

/// The events that close a report, and those that update a contact, are told
/// by type and code alone.
pub proof fn law_events_are_told_by_type_and_code(ev: InputEvent)
    ensures
        ev.closes_report() <==> ev.event_type == EV_SYN && ev.code == SYN_REPORT,
        ev.event_type == EV_ABS ==> (ev.updates_contact() <==> ev.code == ABS_MT_TRACKING_ID
            || ev.code == ABS_MT_POSITION_X || ev.code == ABS_MT_POSITION_Y),
        ev.event_type == EV_KEY ==> (ev.updates_contact() <==> ev.code == BTN_TOUCH),
        ev.event_type != EV_ABS && ev.event_type != EV_KEY ==> !ev.updates_contact(),
{
}

/// The centre of an axis lies half way between its ends, to the unit, and
/// rounding goes towards zero.
pub proof fn law_centre_is_half_way(minimum: i32, maximum: i32)
    ensures
        ({
            let c = crate::evdev::halved(minimum + maximum);
            &&& -1 <= 2 * c - (minimum + maximum) <= 1
            &&& minimum + maximum >= 0 ==> 2 * c <= minimum + maximum
            &&& minimum + maximum <= 0 ==> 2 * c >= minimum + maximum
            &&& minimum <= maximum ==> minimum <= c <= maximum
        }),
{
}

/// A device is a touchpad exactly if it offers both contact positions and the
/// touch key. What is missed is the first of them that it does not list.
pub proof fn law_touchpad_needs_three_capabilities(caps: DeviceCaps)
    ensures
        ({
            let has_x = caps.absolute_axes matches Some(a) && a@.contains(ABS_MT_POSITION_X);
            let has_y = caps.absolute_axes matches Some(a) && a@.contains(ABS_MT_POSITION_Y);
            let has_touch = caps.keys matches Some(k) && k@.contains(BTN_TOUCH);
            let missing = crate::evdev::missing_capability(caps);
            &&& missing is None <==> has_x && has_y && has_touch
            &&& !has_x ==> missing == Some("ABS_MT_POSITION_X"@)
            &&& has_x && !has_y ==> missing == Some("ABS_MT_POSITION_Y"@)
            &&& has_x && has_y && !has_touch ==> missing == Some("BTN_TOUCH"@)
        }),
{
}

/// A new decoder has sixteen empty slots, writes to the first, and has nothing
/// to tell.
pub proof fn law_new_decoder_is_empty()
    ensures
        ({
            let d = DecoderView::empty();
            &&& d.slots.len() == 16
            &&& forall|i: int|
                0 <= i < 16 ==> #[trigger] d.slots[i] == (SlotState {
                    tracking_id: -1i32,
                    x: 0,
                    y: 0,
                })
            &&& d.current_slot == 0
            &&& !d.contact
            &&& !d.dirty
        }),
{
}

/// An event changes the one thing that it reports, and nothing else: a slot
/// number in range chooses the slot, an id or a coordinate goes to the chosen
/// slot, the touch key sets the summary, a boundary ends the report.
pub proof fn law_event_changes_what_it_reports(d: DecoderView, ev: InputEvent)
    requires
        d.wf(),
    ensures
        ({
            let post = d.after_event(ev);
            let abs = ev.event_type == EV_ABS;
            let here = d.slots[d.current_slot];
            let now = post.slots[d.current_slot];
            &&& post.current_slot == if abs && ev.code == ABS_MT_SLOT && 0 <= ev.value < 16 {
                ev.value as int
            } else {
                d.current_slot
            }
            &&& now.tracking_id == if abs && ev.code == ABS_MT_TRACKING_ID {
                ev.value
            } else {
                here.tracking_id
            }
            &&& now.x == if abs && ev.code == ABS_MT_POSITION_X {
                ev.value
            } else {
                here.x
            }
            &&& now.y == if abs && ev.code == ABS_MT_POSITION_Y {
                ev.value
            } else {
                here.y
            }
            &&& post.slots.len() == d.slots.len()
            &&& forall|i: int|
                0 <= i < d.slots.len() && i != d.current_slot ==> #[trigger] post.slots[i]
                    == d.slots[i]
            &&& post.contact == if ev.event_type == EV_KEY && ev.code == BTN_TOUCH {
                ev.value != 0
            } else {
                d.contact
            }
            &&& post.dirty == if ev.updates_contact() {
                true
            } else if ev.closes_report() {
                false
            } else {
                d.dirty
            }
        }),
{
}

/// No events change nothing, and one event does what it does alone. With the
/// cutting of batches this is all that a stream of events can do.
pub proof fn law_single_events_make_up_a_batch(
    d: DecoderView,
    events: Seq<InputEvent>,
    ev: InputEvent,
)
    ensures
        d.after(Seq::empty()) == d,
        d.after(events.push(ev)) == d.after(events).after_event(ev),
{
    assert(events.push(ev).drop_last() =~= events);
}

/// A frame repeats the pad's summary, and shows no contact without it.
pub proof fn law_frame_repeats_the_summary(d: DecoderView, frame: TouchFrame)
    requires
        d.shows(frame),
    ensures
        frame.contact == d.contact,
        !d.contact ==> frame.touches@.len() == 0,
{
}

/// The frame of a report shows the contacts as they are when it closes.
pub proof fn law_frame_is_up_to_date(d: DecoderView, events: Seq<InputEvent>)
    requires
        crate::daemon::complete_report(events),
        d.at_last_update(events) is Some,
    ensures
        d.at_last_update(events)->0.slots == d.after(events).slots,
        d.at_last_update(events)->0.contact == d.after(events).contact,
{
    let front = events.drop_last();
    assert forall|i: int| 0 <= i < front.len() implies !(#[trigger] front[i]).closes_report() by {
        assert(front[i] == events[i]);
    }
    crate::evdev::lemma_unclosed(d, front);
}

/// The last update of two batches is that of the second, and that of the first
/// if the second has none.
pub proof fn law_later_updates_win(d: DecoderView, a: Seq<InputEvent>, b: Seq<InputEvent>)
    ensures
        d.at_last_update(a + b) == if d.after(a).at_last_update(b) is Some {
            d.after(a).at_last_update(b)
        } else {
            d.at_last_update(a)
        },
    decreases b.len(),
{
    if b.len() > 0 {
        law_later_updates_win(d, a, b.drop_last());
        assert((a + b).drop_last() =~= a + b.drop_last());
        assert((a + b).last() == b.last());
        crate::evdev::law_batches_do_not_matter(d, a, b.drop_last());
    } else {
        assert(a + b =~= a);
    }
}

/// Decoding leaves the path, the ranges and the centre of the pad alone.
pub proof fn law_same_pad_has_the_same_geometry(a: InputDevice, b: InputDevice)
    requires
        a.same_pad(b),
    ensures
        a.path@ == b.path@,
        a.abs_x_min == b.abs_x_min && a.abs_x_max == b.abs_x_max,
        a.abs_y_min == b.abs_y_min && a.abs_y_max == b.abs_y_max,
        a.center_x == b.center_x && a.center_y == b.center_y,
{
}

/// The first device with a positive verdict is found, and without one the
/// search says which pattern found nothing.
pub proof fn law_first_match_is_found(
    devices: Seq<Candidate>,
    verdicts: Seq<bool>,
    pattern: Seq<char>,
    r: Result<String, Error>,
    i: int,
)
    requires
        crate::evdev::picks(devices, verdicts, pattern, r),
        0 <= i <= verdicts.len(),
        forall|j: int| 0 <= j < i ==> !#[trigger] verdicts[j],
    ensures
        i < verdicts.len() && verdicts[i] ==> (r matches Ok(path) && path@ == devices[i].path@),
        i == verdicts.len() ==> (r matches Err(Error::DeviceNotFound { regex }) && regex@
            == pattern),
{
    if i < verdicts.len() && verdicts[i] {
        match r {
            Ok(path) => {
                let k = choose|k: int|
                    0 <= k < verdicts.len() && #[trigger] verdicts[k] && (forall|j: int|
                        0 <= j < k ==> !verdicts[j]) && path@ == devices[k].path@;
                assert(k == i) by {
                    if k < i {
                        assert(!verdicts[k]);
                    }
                }
            },
            Err(_) => {},
        }
    }
}

/// A device is matched by its name, and never without one.
pub proof fn law_devices_match_by_name(pattern: Seq<char>, c: Candidate)
    ensures
        c.name is None ==> !crate::evdev::name_matches(pattern, c),
        c.name matches Some(name) ==> (crate::evdev::name_matches(pattern, c)
            <==> crate::pattern::regex_matches(pattern, name@)),
{
}

/// Turning a wheel writes its high-resolution axis first, by 120 units for
/// each notch, and then its plain axis by the notches. Turning it by nothing
/// writes nothing.
pub proof fn law_notch_is_120_units(
    written: Option<Vec<InputEvent>>,
    ticks: int,
    axis: u16,
    axis_hi_res: u16,
)
    requires
        crate::uinput::turns_wheel(written, ticks, axis, axis_hi_res),
        i32::MIN <= 120 * ticks <= i32::MAX,
    ensures
        ticks == 0 <==> written is None,
        written matches Some(events) ==> {
            &&& events@.len() == 2
            &&& events@[0].event_type == EV_REL && events@[1].event_type == EV_REL
            &&& events@[0].code == axis_hi_res && events@[0].value == 120 * ticks
            &&& events@[1].code == axis && events@[1].value == ticks
        },
{
}

/// A vertical movement goes to the vertical axes and a horizontal one to the
/// horizontal axes; without a movement nothing is written.
pub proof fn law_each_axis_has_its_wheel(wheel: Option<Vec<InputEvent>>, action: Action)
    requires
        crate::daemon::turned(wheel, action),
        i32::MIN <= 120 * crate::fsm::notches(action) <= i32::MAX,
    ensures
        match (action, wheel) {
            (Action::Nothing, _) => wheel is None,
            (Action::EmitWheelV(ticks), None) => ticks == 0,
            (Action::EmitWheelV(ticks), Some(events)) => events@.len() == 2 && events@[0]
                == (InputEvent {
                event_type: EV_REL,
                code: REL_WHEEL_HI_RES,
                value: (120 * ticks) as i32,
            }) && events@[1] == (InputEvent { event_type: EV_REL, code: REL_WHEEL, value: ticks }),
            (Action::EmitWheelH(ticks), None) => ticks == 0,
            (Action::EmitWheelH(ticks), Some(events)) => events@.len() == 2 && events@[0]
                == (InputEvent {
                event_type: EV_REL,
                code: REL_HWHEEL_HI_RES,
                value: (120 * ticks) as i32,
            }) && events@[1] == (InputEvent { event_type: EV_REL, code: REL_HWHEEL, value: ticks }),
        },
{
}

/// The event places a finger.
pub open spec fn is_position(ev: InputEvent) -> bool {
    ev.event_type == EV_ABS && (ev.code == ABS_X || ev.code == ABS_Y || ev.code
        == ABS_MT_POSITION_X || ev.code == ABS_MT_POSITION_Y)
}

/// The event chooses a contact slot or says which finger is in it.
pub open spec fn is_slot_event(ev: InputEvent) -> bool {
    ev.event_type == EV_ABS && (ev.code == ABS_MT_SLOT || ev.code == ABS_MT_TRACKING_ID)
}

/// Forwarding without positions drops them and the report boundaries, and
/// nothing else; what is left keeps its order.
pub proof fn law_stripping_drops_positions_alone(events: Seq<InputEvent>, release_keys: Seq<u16>)
    ensures
        crate::uinput::prepared(events, true, None, release_keys) == events.filter(
            |ev: InputEvent| ev.event_type != EV_SYN && !is_position(ev),
        ),
{
    let pass = |ev: InputEvent|
        crate::uinput::passes(ev, true, None::<usize> is Some, release_keys);
    let plain = |ev: InputEvent| ev.event_type != EV_SYN && !is_position(ev);
    assert(pass =~= plain);
    assert(crate::uinput::prepared(events, true, None, release_keys) =~= events.filter(plain));
}

/// Finishing a captured gesture writes the release of its slot, then every
/// event but boundaries, positions, slots and the keys to release, in order,
/// and then each of those keys released, in the order in which they are
/// listed.
pub proof fn law_finishing_replaces_the_lift(
    events: Seq<InputEvent>,
    slot: usize,
    release_keys: Seq<u16>,
)
    ensures
        ({
            let out = crate::uinput::prepared(events, true, Some(slot), release_keys);
            let rest = events.filter(
                |ev: InputEvent|
                    ev.event_type != EV_SYN && !is_position(ev) && !is_slot_event(ev) && !(
                    ev.event_type == EV_KEY && release_keys.contains(ev.code)),
            );
            &&& out.len() == 2 + rest.len() + release_keys.len()
            &&& out[0] == (InputEvent {
                event_type: EV_ABS,
                code: ABS_MT_SLOT,
                value: slot as i32,
            })
            &&& out[1] == (InputEvent {
                event_type: EV_ABS,
                code: ABS_MT_TRACKING_ID,
                value: -1i32,
            })
            &&& out.subrange(2, 2 + rest.len() as int) == rest
            &&& forall|i: int|
                0 <= i < release_keys.len() ==> out[2 + rest.len() + i] == (InputEvent {
                    event_type: EV_KEY,
                    code: #[trigger] release_keys[i],
                    value: 0,
                })
        }),
{
    let pass = |ev: InputEvent| crate::uinput::passes(ev, true, Some(slot) is Some, release_keys);
    let plain = |ev: InputEvent|
        ev.event_type != EV_SYN && !is_position(ev) && !is_slot_event(ev) && !(ev.event_type
            == EV_KEY && release_keys.contains(ev.code));
    assert(pass =~= plain);
    let rest = events.filter(plain);
    let out = crate::uinput::prepared(events, true, Some(slot), release_keys);
    assert(out.subrange(2, 2 + rest.len() as int) =~= rest);
}

/// Releasing a slot without dropping positions still rebuilds the keys: only
/// boundaries and the keys to release are taken out of the events.
pub proof fn law_release_with_positions_keeps_them(
    events: Seq<InputEvent>,
    slot: usize,
    release_keys: Seq<u16>,
)
    ensures
        ({
            let out = crate::uinput::prepared(events, false, Some(slot), release_keys);
            let rest = events.filter(
                |ev: InputEvent|
                    ev.event_type != EV_SYN && !(ev.event_type == EV_KEY && release_keys.contains(
                        ev.code,
                    )),
            );
            &&& out.len() == 2 + rest.len() + release_keys.len()
            &&& out.subrange(2, 2 + rest.len() as int) == rest
            &&& out.take(2) == crate::uinput::prepared(
                Seq::empty(),
                true,
                Some(slot),
                Seq::empty(),
            )
            &&& out.skip(2 + rest.len() as int) == crate::uinput::prepared(
                Seq::empty(),
                true,
                Some(slot),
                release_keys,
            ).skip(2)
        }),
{
    let pass = |ev: InputEvent| crate::uinput::passes(ev, false, Some(slot) is Some, release_keys);
    let plain = |ev: InputEvent|
        ev.event_type != EV_SYN && !(ev.event_type == EV_KEY && release_keys.contains(ev.code));
    assert(pass =~= plain);
    let rest = events.filter(plain);
    let out = crate::uinput::prepared(events, false, Some(slot), release_keys);
    assert(out.subrange(2, 2 + rest.len() as int) =~= rest);
    reveal(Seq::filter);
    let bare = crate::uinput::prepared(Seq::empty(), true, Some(slot), Seq::empty());
    let keyed = crate::uinput::prepared(Seq::empty(), true, Some(slot), release_keys);
    assert(out.take(2) =~= bare);
    assert(out.skip(2 + rest.len() as int) =~= keyed.skip(2));
}

/// A batch is written as it stands, and an empty one not at all.
pub proof fn law_batches_are_written_as_they_stand(
    written: Option<Vec<InputEvent>>,
    events: Seq<InputEvent>,
)
    requires
        crate::uinput::writes(written, events),
    ensures
        events.len() == 0 <==> written is None,
        written matches Some(batch) ==> batch@ == events,
{
}

/// The keys to release are those of the six contact keys that the pad has, in
/// a fixed order.
pub proof fn law_contact_keys_of_the_pad_are_released(keys: Option<Vec<u16>>, key: u16)
    ensures
        crate::uinput::release_keys_of(keys).contains(key) <==> (keys matches Some(list)
            && list@.contains(key)) && (key == BTN_TOUCH || key == BTN_TOOL_FINGER || key
            == BTN_TOOL_DOUBLETAP || key == BTN_TOOL_TRIPLETAP || key == BTN_TOOL_QUADTAP || key
            == BTN_TOOL_QUINTTAP),
        keys matches Some(list) ==> crate::uinput::release_keys_of(keys) == seq![
            BTN_TOUCH,
            BTN_TOOL_FINGER,
            BTN_TOOL_DOUBLETAP,
            BTN_TOOL_TRIPLETAP,
            BTN_TOOL_QUADTAP,
            BTN_TOOL_QUINTTAP,
        ].filter(|k: u16| list@.contains(k)),
{
    if let Some(list) = keys {
        let has = |k: u16| list@.contains(k);
        let all = seq![
            BTN_TOUCH,
            BTN_TOOL_FINGER,
            BTN_TOOL_DOUBLETAP,
            BTN_TOOL_TRIPLETAP,
            BTN_TOOL_QUADTAP,
            BTN_TOOL_QUINTTAP,
        ];
        assert(crate::uinput::TOUCH_RELEASE_KEYS@ =~= all);
        let kept = all.filter(has);
        assert(crate::uinput::release_keys_of(keys) == kept);
        if kept.contains(key) {
            let i = choose|i: int| 0 <= i < kept.len() && kept[i] == key;
            all.lemma_filter_pred(has, i);
            all.lemma_filter_contains_rev(has, key);
            assert(all.contains(kept[i]));
        }
        if list@.contains(key) && (key == BTN_TOUCH || key == BTN_TOOL_FINGER || key
            == BTN_TOOL_DOUBLETAP || key == BTN_TOOL_TRIPLETAP || key == BTN_TOOL_QUADTAP || key
            == BTN_TOOL_QUINTTAP) {
            assert(all[0] == BTN_TOUCH && all[1] == BTN_TOOL_FINGER && all[2] == BTN_TOOL_DOUBLETAP
                && all[3] == BTN_TOOL_TRIPLETAP && all[4] == BTN_TOOL_QUADTAP && all[5]
                == BTN_TOOL_QUINTTAP);
            let i = choose|i: int| 0 <= i < all.len() && all[i] == key;
            all.lemma_filter_contains(has, i);
        }
    }
}

/// Each axis of the virtual pad has the code of the pad's axis at the same
/// place, and the state that the pad reports at that code.
pub proof fn law_each_axis_keeps_its_own_state(axes: Seq<u16>, state: Seq<AbsInfo>, i: int)
    requires
        0 <= i < axes.len(),
    ensures
        ({
            let setups = crate::uinput::axis_setups(axes, state);
            &&& setups.len() == axes.len()
            &&& setups[i].axis == axes[i]
            &&& setups[i].info == state[axes[i] as int]
        }),
{
}

/// The virtual pad is the physical one over again: the same keys, axes, states
/// and misc events, and every property but semi-multitouch, in order. Only
/// the name gains a suffix.
pub proof fn law_virtual_pad_is_the_physical_one(pad: UinputTouchpad, physical: PhysicalPad)
    requires
        crate::uinput::mirrors(pad, physical),
    ensures
        pad.keys == physical.keys,
        pad.relative_axes == physical.relative_axes,
        pad.misc == physical.misc,
        pad.properties@ == physical.properties@.filter(|prop: u16| prop != INPUT_PROP_SEMI_MT),
        physical.absolute_axes is None ==> pad.absolute_axes@.len() == 0,
        physical.absolute_axes matches Some(axes) ==> pad.absolute_axes@.len() == axes@.len() && (
        forall|i: int|
            0 <= i < axes@.len() ==> #[trigger] pad.absolute_axes@[i] == (AbsSetup {
                axis: axes@[i],
                info: physical.absolute_state->0@[axes@[i] as int],
            })),
        pad.identity.name@ == (match physical.name {
            Some(name) => name@,
            None => "Touchpad"@,
        }) + " (letsnote-wheelpad)"@,
        pad.identity.vendor == 0x6c6e,
        pad.identity.product == 0x7470,
        pad.identity.version == 1,
        pad.touch_release_keys@ == crate::uinput::release_keys_of(physical.keys),
{
}

} // verus!
