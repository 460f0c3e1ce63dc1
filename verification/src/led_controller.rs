//! An indicator LED on one GPIO pin, with a remembered last-commanded level
//! so that it can be toggled.
//!
//! The remembered level is updated on every transition that the backend
//! accepted, so repeated `toggle` calls alternate the commanded level.

use vstd::prelude::*;

use crate::file_io::{FileIO, IoError, IoEvent};
use crate::gpio::{level_write, sleep_event, PinValue, RpiGpioController};

verus! {

/// One LED: a pin, the backend it is driven through, and the last level a
/// successful command set.
pub struct LedController<T: FileIO> {
    file_io: T,
    pin: RpiGpioController,
    current_pin_value: PinValue,
}

/// The level opposite to `pin_value`.
pub open spec fn spec_opposite_level(pin_value: PinValue) -> PinValue {
    match pin_value {
        PinValue::High => PinValue::Low,
        PinValue::Low => PinValue::High,
    }
}

impl<T: FileIO> LedController<T> {
    /// The backend's event log.
    pub closed spec fn log(&self) -> Seq<IoEvent> {
        self.file_io.log()
    }

    /// The physical pin number of the LED.
    pub closed spec fn pin_number(&self) -> u16 {
        self.pin.pin_number
    }

    /// The last level a successful command set; low at construction.
    pub closed spec fn remembered_level(&self) -> PinValue {
        self.current_pin_value
    }

    /// Takes ownership of the backend and of one configured pin. The
    /// remembered level starts out low.
    pub fn new(file_io: T, pin: RpiGpioController) -> (r: LedController<T>)
        ensures
            r.log() == file_io.log(),
            r.pin_number() == pin.pin_number,
            r.remembered_level() is Low,
    {
        LedController { file_io, pin, current_pin_value: PinValue::Low }
    }

    /// Hands the backend back, for callers that want to inspect what was
    /// performed.
    pub fn into_file_io(self) -> (r: T)
        ensures
            r.log() == self.log(),
    {
        self.file_io
    }

    fn set_level(&mut self, pin_value: PinValue) -> (r: Result<(), IoError>)
        ensures
            final(self).pin_number() == old(self).pin_number(),
            final(self).log() == old(self).log().push(
                level_write(old(self).pin_number(), pin_value, r is Ok),
            ),
            final(self).remembered_level() == if r is Ok {
                pin_value
            } else {
                old(self).remembered_level()
            },
    {
        let r = self.pin.write(&mut self.file_io, pin_value);
        if r.is_ok() {
            self.current_pin_value = pin_value;
        }
        r
    }

    /// Commands the LED on: writes a high level to the pin and, when the
    /// backend accepted it, remembers the level. The backend's verdict is
    /// handed back verbatim.
    pub fn turn_on(&mut self) -> (r: Result<(), IoError>)
        ensures
            final(self).pin_number() == old(self).pin_number(),
            final(self).log() == old(self).log().push(
                level_write(old(self).pin_number(), PinValue::High, r is Ok),
            ),
            final(self).remembered_level() == if r is Ok {
                PinValue::High
            } else {
                old(self).remembered_level()
            },
    {
        self.set_level(PinValue::High)
    }

    /// Commands the LED off: writes a low level to the pin and, when the
    /// backend accepted it, remembers the level.
    pub fn turn_off(&mut self) -> (r: Result<(), IoError>)
        ensures
            final(self).pin_number() == old(self).pin_number(),
            final(self).log() == old(self).log().push(
                level_write(old(self).pin_number(), PinValue::Low, r is Ok),
            ),
            final(self).remembered_level() == if r is Ok {
                PinValue::Low
            } else {
                old(self).remembered_level()
            },
    {
        self.set_level(PinValue::Low)
    }

    /// Commands the level opposite to the remembered one: on when the last
    /// successful command was off, off when it was on. Since every
    /// successful transition updates the remembered level, repeated
    /// successful toggles alternate the commanded level.
    pub fn toggle(&mut self) -> (r: Result<(), IoError>)
        ensures
            final(self).pin_number() == old(self).pin_number(),
            final(self).log() == old(self).log().push(
                level_write(
                    old(self).pin_number(),
                    spec_opposite_level(old(self).remembered_level()),
                    r is Ok,
                ),
            ),
            final(self).remembered_level() == if r is Ok {
                spec_opposite_level(old(self).remembered_level())
            } else {
                old(self).remembered_level()
            },
    {
        match self.current_pin_value {
            PinValue::Low => self.turn_on(),
            PinValue::High => self.turn_off(),
        }
    }

    /// Pauses for `milli_seconds` through the backend, so that the pause
    /// takes its place in the event log between the level writes around it.
    pub fn pause(&mut self, milli_seconds: u64)
        ensures
            final(self).pin_number() == old(self).pin_number(),
            final(self).remembered_level() == old(self).remembered_level(),
            final(self).log() == old(self).log().push(sleep_event(milli_seconds)),
    {
        self.file_io.sleep(milli_seconds);
    }
}

} // verus!
