//! One GPIO pin bound to a physical pin number, driven through a sysfs-style
//! namespace: `export` registers the pin, `gpio<N>/direction` configures it,
//! `gpio<N>/value` sets its level.
//!
//! Constructing an [`RpiGpioController`] performs the export (skipped when
//! the pin's node already exists) and the direction write through the given
//! backend; the pin is only handed out when both succeeded.

use vstd::prelude::*;
use vstd::string::StringExecFns;

use crate::file_io::{FileIO, IoError, IoEvent};

verus! {

#[derive(Clone, Copy, Debug, PartialEq, Eq, Structural)]
pub enum Direction {
    In,
    Out,
}

#[derive(Clone, Copy, Debug, PartialEq, Eq, Structural)]
pub enum PinValue {
    High,
    Low,
}

/// The pause, in milliseconds, held after the export write and after the
/// direction write, giving the kernel time to populate the pin's nodes.
pub const SETUP_PAUSE_MILLI_SECONDS: u64 = 50;

pub open spec fn spec_digit_char(d: nat) -> char {
    if d == 0 {
        '0'
    } else if d == 1 {
        '1'
    } else if d == 2 {
        '2'
    } else if d == 3 {
        '3'
    } else if d == 4 {
        '4'
    } else if d == 5 {
        '5'
    } else if d == 6 {
        '6'
    } else if d == 7 {
        '7'
    } else if d == 8 {
        '8'
    } else {
        '9'
    }
}

/// The decimal rendering of `n`, most significant digit first, no sign and
/// no leading zeros (a single `'0'` for zero).
pub open spec fn spec_decimal(n: nat) -> Seq<char>
    decreases n,
{
    if n < 10 {
        seq![spec_digit_char(n)]
    } else {
        spec_decimal(n / 10).push(spec_digit_char(n % 10))
    }
}

pub open spec fn spec_gpio_root() -> Seq<char> {
    "/sys/class/gpio"@
}

/// The controller node that pin numbers are written to, to register a pin.
pub open spec fn spec_export_path() -> Seq<char> {
    "/sys/class/gpio/export"@
}

/// The directory node of one pin: `<gpio-root>/gpio<N>`.
pub open spec fn spec_pin_path(pin_number: u16) -> Seq<char> {
    spec_gpio_root() + "/gpio"@ + spec_decimal(pin_number as nat)
}

pub open spec fn spec_direction_path(pin_number: u16) -> Seq<char> {
    spec_pin_path(pin_number) + "/direction"@
}

pub open spec fn spec_value_path(pin_number: u16) -> Seq<char> {
    spec_pin_path(pin_number) + "/value"@
}

pub open spec fn spec_direction_data(direction: Direction) -> Seq<char> {
    match direction {
        Direction::Out => "out"@,
        Direction::In => "in"@,
    }
}

pub open spec fn spec_level_data(pin_value: PinValue) -> Seq<char> {
    match pin_value {
        PinValue::High => "1"@,
        PinValue::Low => "0"@,
    }
}

/// The event of writing `pin_value` to the value node of pin `pin_number`.
pub open spec fn level_write(pin_number: u16, pin_value: PinValue, ok: bool) -> IoEvent {
    IoEvent::Write {
        path: spec_value_path(pin_number),
        data: spec_level_data(pin_value),
        ok,
    }
}

pub open spec fn sleep_event(milli_seconds: u64) -> IoEvent {
    IoEvent::Sleep { milli_seconds }
}

/// The export part of a pin setup: one successful write of the decimal pin
/// number to the export node, or nothing when the pin's node already existed.
pub open spec fn export_events(pin_number: u16, node_existed: bool) -> Seq<IoEvent> {
    if node_existed {
        Seq::empty()
    } else {
        seq![
            IoEvent::Write {
                path: spec_export_path(),
                data: spec_decimal(pin_number as nat),
                ok: true,
            },
        ]
    }
}

/// Everything a successful pin setup performs: the export part, a pause, the
/// direction write, a pause.
pub open spec fn setup_ok_events(pin_number: u16, direction: Direction, node_existed: bool) -> Seq<
    IoEvent,
> {
    export_events(pin_number, node_existed) + seq![
        sleep_event(SETUP_PAUSE_MILLI_SECONDS),
        IoEvent::Write {
            path: spec_direction_path(pin_number),
            data: spec_direction_data(direction),
            ok: true,
        },
        sleep_event(SETUP_PAUSE_MILLI_SECONDS),
    ]
}

/// What a setup that died on the export write performed: that one failed
/// write and nothing more — in particular no direction write.
pub open spec fn export_failed_events(pin_number: u16) -> Seq<IoEvent> {
    seq![
        IoEvent::Write {
            path: spec_export_path(),
            data: spec_decimal(pin_number as nat),
            ok: false,
        },
    ]
}

/// What a setup that died on the direction write performed: the export part,
/// a pause, and the failed direction write.
pub open spec fn direction_failed_events(
    pin_number: u16,
    direction: Direction,
    node_existed: bool,
) -> Seq<IoEvent> {
    export_events(pin_number, node_existed) + seq![
        sleep_event(SETUP_PAUSE_MILLI_SECONDS),
        IoEvent::Write {
            path: spec_direction_path(pin_number),
            data: spec_direction_data(direction),
            ok: false,
        },
    ]
}

pub proof fn lemma_spec_decimal_len(n: nat)
    ensures
        spec_decimal(n).len() >= 1,
    decreases n,
{
    if n >= 10 {
        lemma_spec_decimal_len(n / 10);
    }
}

/// A pin's direction node is never the export node: the two contracts of a
/// failed setup cannot be confused.
pub proof fn lemma_direction_path_is_not_export_path(pin_number: u16)
    ensures
        spec_direction_path(pin_number) != spec_export_path(),
{
    reveal_strlit("/sys/class/gpio");
    reveal_strlit("/gpio");
    reveal_strlit("/direction");
    reveal_strlit("/sys/class/gpio/export");
    lemma_spec_decimal_len(pin_number as nat);
    assert(spec_direction_path(pin_number).len() >= 31);
    assert(spec_export_path().len() == 22);
}

fn digit_str(d: u16) -> (s: &'static str)
    requires
        d < 10,
    ensures
        s@ == seq![spec_digit_char(d as nat)],
{
    proof {
        reveal_strlit("0");
        reveal_strlit("1");
        reveal_strlit("2");
        reveal_strlit("3");
        reveal_strlit("4");
        reveal_strlit("5");
        reveal_strlit("6");
        reveal_strlit("7");
        reveal_strlit("8");
        reveal_strlit("9");
        assert("0"@ =~= seq![spec_digit_char(0)]);
        assert("1"@ =~= seq![spec_digit_char(1)]);
        assert("2"@ =~= seq![spec_digit_char(2)]);
        assert("3"@ =~= seq![spec_digit_char(3)]);
        assert("4"@ =~= seq![spec_digit_char(4)]);
        assert("5"@ =~= seq![spec_digit_char(5)]);
        assert("6"@ =~= seq![spec_digit_char(6)]);
        assert("7"@ =~= seq![spec_digit_char(7)]);
        assert("8"@ =~= seq![spec_digit_char(8)]);
        assert("9"@ =~= seq![spec_digit_char(9)]);
    }
    match d {
        0 => "0",
        1 => "1",
        2 => "2",
        3 => "3",
        4 => "4",
        5 => "5",
        6 => "6",
        7 => "7",
        8 => "8",
        _ => "9",
    }
}

/// Appends the decimal rendering of `n` to `s`.
fn push_decimal(s: &mut String, n: u16)
    ensures
        final(s)@ == old(s)@ + spec_decimal(n as nat),
    decreases n,
{
    if n >= 10 {
        push_decimal(s, n / 10);
    }
    let digit = digit_str(n % 10);
    s.append(digit);
    proof {
        assert(s@ =~= old(s)@ + spec_decimal(n as nat));
    }
}

/// One GPIO pin, registered and configured. A value of this type certifies
/// that the export and direction writes went through on the backend it was
/// created with.
#[derive(Debug)]
pub struct RpiGpioController {
    pub pin_number: u16,
    pub direction: Direction,
}

impl RpiGpioController {
    /// `<gpio-root>/gpio<N>` for this pin.
    fn gpio_pin_path(&self) -> (s: String)
        ensures
            s@ == spec_pin_path(self.pin_number),
    {
        let mut s = String::from_str("/sys/class/gpio/gpio");
        proof {
            assert("/sys/class/gpio/gpio"@ =~= spec_gpio_root() + "/gpio"@) by {
                reveal_strlit("/sys/class/gpio/gpio");
                reveal_strlit("/sys/class/gpio");
                reveal_strlit("/gpio");
            }
        }
        push_decimal(&mut s, self.pin_number);
        proof {
            assert(s@ =~= spec_pin_path(self.pin_number));
        }
        s
    }

    /// Registers the pin: writes its decimal number to the export node,
    /// unless the pin's node already exists (export is idempotent).
    fn export<T: FileIO>(&self, file_io: &mut T) -> (r: Result<(), IoError>)
        ensures
            r is Ok ==> final(file_io).log() == old(file_io).log() + export_events(
                self.pin_number,
                old(file_io).node_exists(spec_pin_path(self.pin_number)),
            ),
            r is Err ==> !old(file_io).node_exists(spec_pin_path(self.pin_number)),
            r is Err ==> final(file_io).log() == old(file_io).log() + export_failed_events(
                self.pin_number,
            ),
            r is Err ==> r->Err_0.path@ == spec_export_path(),
    {
        let ghost log0 = file_io.log();
        let pin_path = self.gpio_pin_path();
        if file_io.path_exists(pin_path.as_str()) {
            proof {
                assert(file_io.log() =~= log0 + export_events(self.pin_number, true));
            }
            return Ok(());
        }
        let mut data = String::new();
        push_decimal(&mut data, self.pin_number);
        proof {
            assert(data@ =~= spec_decimal(self.pin_number as nat));
        }
        let r = file_io.write("/sys/class/gpio/export", data.as_str());
        proof {
            if r is Ok {
                assert(file_io.log() =~= log0 + export_events(self.pin_number, false));
            } else {
                assert(file_io.log() =~= log0 + export_failed_events(self.pin_number));
            }
        }
        r
    }

    /// Writes the textual direction value to the pin's direction node.
    fn set_direction<T: FileIO>(&self, file_io: &mut T) -> (r: Result<(), IoError>)
        ensures
            final(file_io).log() == old(file_io).log().push(
                IoEvent::Write {
                    path: spec_direction_path(self.pin_number),
                    data: spec_direction_data(self.direction),
                    ok: r is Ok,
                },
            ),
            r is Err ==> r->Err_0.path@ == spec_direction_path(self.pin_number),
    {
        let mut path = self.gpio_pin_path();
        path.append("/direction");
        match self.direction {
            Direction::Out => file_io.write(path.as_str(), "out"),
            Direction::In => file_io.write(path.as_str(), "in"),
        }
    }

    /// Sets up one pin on `file_io`: export (skipped when the pin's node
    /// already exists), a pause, the direction write, a pause. Fails, and
    /// performs nothing further, as soon as either write fails; in
    /// particular a failed export is never followed by a direction write.
    pub fn new<T: FileIO>(file_io: &mut T, direction: Direction, pin_number: u16) -> (r: Result<
        RpiGpioController,
        IoError,
    >)
        ensures
            r is Ok ==> r->Ok_0 == (RpiGpioController { pin_number, direction }),
            r is Ok ==> final(file_io).log() == old(file_io).log() + setup_ok_events(
                pin_number,
                direction,
                old(file_io).node_exists(spec_pin_path(pin_number)),
            ),
            r is Err ==> r->Err_0.path@ == spec_export_path() || r->Err_0.path@
                == spec_direction_path(pin_number),
            r is Err && r->Err_0.path@ == spec_export_path() ==> !old(file_io).node_exists(
                spec_pin_path(pin_number),
            ) && final(file_io).log() == old(file_io).log() + export_failed_events(pin_number),
            r is Err && r->Err_0.path@ != spec_export_path() ==> final(file_io).log() == old(
                file_io,
            ).log() + direction_failed_events(
                pin_number,
                direction,
                old(file_io).node_exists(spec_pin_path(pin_number)),
            ),
    {
        let controller = RpiGpioController { pin_number, direction };
        let ghost log0 = file_io.log();
        let ghost node_existed = file_io.node_exists(spec_pin_path(pin_number));
        match controller.export(file_io) {
            Err(e) => {
                return Err(e);
            },
            Ok(()) => {},
        }
        file_io.sleep(SETUP_PAUSE_MILLI_SECONDS);
        match controller.set_direction(file_io) {
            Err(e) => {
                proof {
                    lemma_direction_path_is_not_export_path(pin_number);
                    assert(file_io.log() =~= log0 + direction_failed_events(
                        pin_number,
                        direction,
                        node_existed,
                    ));
                }
                return Err(e);
            },
            Ok(()) => {},
        }
        file_io.sleep(SETUP_PAUSE_MILLI_SECONDS);
        proof {
            assert(file_io.log() =~= log0 + setup_ok_events(pin_number, direction, node_existed));
        }
        Ok(controller)
    }

    /// Writes `"1"` for a high level or `"0"` for a low level to the pin's
    /// value node, handing the backend's verdict back verbatim.
    pub fn write<T: FileIO>(&self, file_io: &mut T, pin_value: PinValue) -> (r: Result<
        (),
        IoError,
    >)
        ensures
            final(file_io).log() == old(file_io).log().push(
                level_write(self.pin_number, pin_value, r is Ok),
            ),
            r is Err ==> r->Err_0.path@ == spec_value_path(self.pin_number),
    {
        let mut path = self.gpio_pin_path();
        path.append("/value");
        match pin_value {
            PinValue::High => file_io.write(path.as_str(), "1"),
            PinValue::Low => file_io.write(path.as_str(), "0"),
        }
    }

    /// Reports the pin's level. Without hardware feedback this is a stub
    /// that always answers high; callers must not base control decisions on
    /// it.
    pub fn read(&self) -> (r: Result<PinValue, IoError>)
        ensures
            r is Ok && r->Ok_0 is High,
    {
        Ok(PinValue::High)
    }
}

} // verus!
