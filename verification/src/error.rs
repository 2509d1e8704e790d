//! What the library's decisions can refuse.

use vstd::prelude::*;

verus! {

/// A refusal, with what the user needs to know about it.
#[derive(Debug)]
pub enum Error {
    /// A configuration value lies outside its range.
    ConfigRange { key: &'static str, value: i64, expected: &'static str },
    /// The input device lacks a required capability.
    EvdevMissingCap { path: String, capability: &'static str },
    /// The state of the device's axes could not be read.
    EvdevRead,
    /// The device name pattern is not a valid regular expression.
    RegexInvalid { pattern: String, reason: String },
    /// No device has a name that matches the pattern.
    DeviceNotFound { regex: String },
    /// The kernel offers no uinput node.
    UinputMissing,
    /// The exclusive grab of the device failed or could not be undone.
    Grab { errno: i32 },
}

} // verus!
