# letsnote-wheelpad

A userland daemon for Linux that turns a circle drawn in the outer ring of a
touchpad into wheel notches. It owns the physical pad, and libinput sees two
virtual devices instead: a mirrored touchpad for pointer and multi-finger input,
and a wheel for circular scrolling.

The decisions are a library verified with Verus; the system calls and the
trigonometry on doubles are ordinary Rust around it.

## Layout

- `src/config.rs`, `src/error.rs`: settings, their ranges and defaults, refusals.
- `src/event.rs`, `src/evdev.rs`: kernel events, capabilities of the physical
  pad, decoding of contact slots, choice of the device by name.
- `src/pattern.rs`: the one place that trusts an outside crate, `regex`.
- `src/detector.rs`: ring and wedge gates, the curvature detector.
- `src/geometry.rs`: what the library asks of floating-point trigonometry.
- `src/fsm.rs`: the state machine that arbitrates the contact stream.
- `src/uinput.rs`, `src/grab.rs`: the virtual devices, the exclusive grab.
- `src/daemon.rs`: one turn of the loop, from a touch report to what is written.
- `src/laws.rs`, `src/stream_laws.rs`: what holds of the recogniser and of the
  event streams as a whole.
- `tests/`: gestures, settings and devices on concrete values.
- `app/`: the program.

## What is promised

Before a circle is captured, multi-finger gestures and ordinary pointer input
win: every event arrives on the virtual touchpad unchanged and in order, at
latest when the candidate is given up. A captured contact never arrives there:
neither its first touch, nor its movement, nor its lift, even if it comes down
right after another gesture. The watchdog is the exception: it ends a gesture
that went without a packet for five seconds, and a finger that is still down is
then passed on. Other fingers make no difference to a captured gesture, and a
resting finger does not scroll.
