//! The exclusive grab of the physical touchpad.

use vstd::prelude::*;

use crate::error::Error;

verus! {

/// Whether the device is grabbed. The calls that grab and release it are made
/// by the caller, and only when [`Self::is_active`] says that they are due.
pub struct Grabber {
    grabbed: bool,
}

impl View for Grabber {
    type V = bool;

    closed spec fn view(&self) -> bool {
        self.grabbed
    }
}

impl Grabber {
    pub fn new() -> (g: Grabber)
        ensures
            !g@,
    {
        Grabber { grabbed: false }
    }

    pub fn is_active(&self) -> (r: bool)
        ensures
            r == self@,
    {
        self.grabbed
    }

    /// Record an attempt to grab the device, which failed with `errno` if
    /// there is one. While the device is grabbed this changes nothing.
    pub fn acquire(&mut self, errno: Option<i32>) -> (r: Result<(), Error>)
        ensures
            match errno {
                Some(code) if !old(self)@ => r == Err::<(), Error>(Error::Grab { errno: code })
                    && !final(self)@,
                _ => r == Ok::<(), Error>(()) && final(self)@,
            },
    {
        if self.grabbed {
            return Ok(());
        }
        if let Some(code) = errno {
            return Err(Error::Grab { errno: code });
        }
        self.grabbed = true;
        Ok(())
    }

    /// Record an attempt to release the device, which failed with `errno` if
    /// there is one. While the device is not grabbed this changes nothing.
    pub fn release(&mut self, errno: Option<i32>) -> (r: Result<(), Error>)
        ensures
            match errno {
                Some(code) if old(self)@ => r == Err::<(), Error>(Error::Grab { errno: code })
                    && final(self)@,
                _ => r == Ok::<(), Error>(()) && !final(self)@,
            },
    {
        if !self.grabbed {
            return Ok(());
        }
        if let Some(code) = errno {
            return Err(Error::Grab { errno: code });
        }
        self.grabbed = false;
        Ok(())
    }
}

impl Default for Grabber {
    fn default() -> (g: Grabber)
        ensures
            !g@,
    {
        Grabber::new()
    }
}

} // verus!
