//! Kernel input events and the codes that the daemon tells apart.

use vstd::prelude::*;

verus! {

/// One kernel input event, without its timestamp.
#[derive(Clone, Copy, Debug, PartialEq, Eq, Structural)]
pub struct InputEvent {
    pub event_type: u16,
    pub code: u16,
    pub value: i32,
}

pub const EV_SYN: u16 = 0x00;

pub const EV_KEY: u16 = 0x01;

pub const EV_REL: u16 = 0x02;

pub const EV_ABS: u16 = 0x03;

pub const SYN_REPORT: u16 = 0;

pub const ABS_X: u16 = 0x00;

pub const ABS_Y: u16 = 0x01;

pub const ABS_MT_SLOT: u16 = 0x2f;

pub const ABS_MT_POSITION_X: u16 = 0x35;

pub const ABS_MT_POSITION_Y: u16 = 0x36;

pub const ABS_MT_TRACKING_ID: u16 = 0x39;

pub const REL_HWHEEL: u16 = 0x06;

pub const REL_WHEEL: u16 = 0x08;

pub const REL_WHEEL_HI_RES: u16 = 0x0b;

pub const REL_HWHEEL_HI_RES: u16 = 0x0c;

pub const BTN_TOOL_FINGER: u16 = 0x145;

pub const BTN_TOOL_QUINTTAP: u16 = 0x148;

pub const BTN_TOUCH: u16 = 0x14a;

pub const BTN_TOOL_DOUBLETAP: u16 = 0x14d;

pub const BTN_TOOL_TRIPLETAP: u16 = 0x14e;

pub const BTN_TOOL_QUADTAP: u16 = 0x14f;

pub const INPUT_PROP_SEMI_MT: u16 = 0x03;

impl InputEvent {
    /// The event closes a touch report.
    pub open spec fn closes_report(self) -> bool {
        self.event_type == EV_SYN && self.code == SYN_REPORT
    }

    /// The event tells something new of the contacts: a finger came, moved or
    /// went. Choosing the slot that later events write to does not.
    pub open spec fn updates_contact(self) -> bool {
        ||| self.event_type == EV_ABS && (self.code == ABS_MT_TRACKING_ID || self.code
            == ABS_MT_POSITION_X || self.code == ABS_MT_POSITION_Y)
        ||| self.event_type == EV_KEY && self.code == BTN_TOUCH
    }

    /// Whether the event closes a touch report.
    pub fn is_syn_report(self) -> (r: bool)
        ensures
            r == self.closes_report(),
    {
        self.event_type == EV_SYN && self.code == SYN_REPORT
    }
}

/// Whether `code` is among `codes`.
pub fn contains_code(codes: &Vec<u16>, code: u16) -> (r: bool)
    ensures
        r == codes@.contains(code),
{
    let mut i: usize = 0;
    while i < codes.len()
        invariant
            0 <= i <= codes@.len(),
            forall|j: int| 0 <= j < i ==> codes@[j] != code,
        decreases codes@.len() - i,
    {
        if codes[i] == code {
            return true;
        }
        i = i + 1;
    }
    false
}

} // verus!
