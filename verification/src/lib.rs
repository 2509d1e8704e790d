//! Circular touchpad scrolling: the decisions of a userland daemon that
//! turns a circle drawn in the outer ring of a touchpad into wheel notches.
//!
//! The library holds every decision over integers and plain values: decoding
//! touch reports, arbitrating between pointer input and circular scrolling,
//! rationing frames to the virtual touchpad, and preparing wheel events.
//! Trigonometry on doubles is supplied by the caller as a
//! [`geometry::Geometry`].

pub mod arbitration_laws;
pub mod config;
pub mod daemon;
pub mod detector;
pub mod detector_laws;
pub mod device_laws;
pub mod error;
pub mod evdev;
pub mod event;
pub mod fsm;
pub mod geometry;
pub mod grab;
pub mod laws;
pub mod loop_laws;
pub mod pattern;
pub mod stream_laws;
pub mod uinput;
