//! The flicker pattern for an indicator LED and the body of the flicker
//! loop: turn the LED on, pause, turn it off, pause, advance cyclically
//! through a non-empty pattern of on/off duration pairs.
//!
//! A refused level write does not stop the flicker: the loop body ignores
//! the backend's verdict and carries on (the write attempt still appears in
//! the log). The repeat-until-signalled driver around these bodies lives
//! with the caller, which polls its stop signal between full iterations.

use vstd::prelude::*;

use crate::file_io::{FileIO, IoError, IoEvent};
use crate::gpio::{
    level_write, setup_ok_events, sleep_event, spec_direction_path, spec_export_path,
    spec_pin_path, Direction, PinValue, RpiGpioController,
};
use crate::led_controller::LedController;

verus! {

/// One flicker pattern entry: how long the LED stays lit and how long it
/// stays dark, both in milliseconds.
#[derive(Clone, Copy, Debug, PartialEq, Eq, Structural)]
pub struct LightFlickerTime {
    pub on_time: u64,
    pub off_time: u64,
}

/// The flicker loop's configuration: a cyclic, non-empty pattern of on/off
/// duration pairs.
pub struct LightControllerParameters {
    pub flickers: Vec<LightFlickerTime>,
}

/// `s` is exactly what one flicker iteration against `flicker` performs on
/// the LED at `pin_number`: an on write (accepted or refused), the on
/// pause, an off write (accepted or refused), the off pause.
pub open spec fn spec_is_flicker_block(
    s: Seq<IoEvent>,
    pin_number: u16,
    flicker: LightFlickerTime,
) -> bool {
    &&& s.len() == 4
    &&& exists|ok: bool| s[0] == level_write(pin_number, PinValue::High, ok)
    &&& s[1] == sleep_event(flicker.on_time)
    &&& exists|ok: bool| s[2] == level_write(pin_number, PinValue::Low, ok)
    &&& s[3] == sleep_event(flicker.off_time)
}

/// The pattern index after `index`, wrapping to the first entry past the
/// end.
pub open spec fn spec_next_flicker_index(index: int, len: int) -> int {
    if index + 1 >= len {
        0
    } else {
        index + 1
    }
}

/// The pattern index reached from `index` after `n` advances.
pub open spec fn spec_flicker_index_after(index: int, len: int, n: nat) -> int
    decreases n,
{
    if n == 0 {
        index
    } else {
        spec_flicker_index_after(spec_next_flicker_index(index, len), len, (n - 1) as nat)
    }
}

/// `s` is exactly what `n` full flicker iterations perform, walking the
/// pattern cyclically from `index` on: `n` consecutive flicker blocks, each
/// against the pattern entry its iteration is at.
pub open spec fn spec_is_flicker_run(
    s: Seq<IoEvent>,
    pin_number: u16,
    flickers: Seq<LightFlickerTime>,
    index: int,
    n: nat,
) -> bool
    decreases n,
{
    if n == 0 {
        s.len() == 0
    } else {
        &&& 0 <= index < flickers.len()
        &&& s.len() >= 4
        &&& spec_is_flicker_block(s.subrange(0, 4), pin_number, flickers[index])
        &&& spec_is_flicker_run(
            s.skip(4),
            pin_number,
            flickers,
            spec_next_flicker_index(index, flickers.len() as int),
            (n - 1) as nat,
        )
    }
}

/// Advancing stays inside a non-empty pattern.
pub proof fn lemma_flicker_index_after_in_range(index: int, len: int, n: nat)
    requires
        0 <= index < len,
    ensures
        0 <= spec_flicker_index_after(index, len, n) < len,
    decreases n,
{
    if n > 0 {
        lemma_flicker_index_after_in_range(spec_next_flicker_index(index, len), len, (n - 1) as nat);
    }
}

/// Advancing one more time advances from wherever `n` advances arrived.
pub proof fn lemma_flicker_index_after_snoc(index: int, len: int, n: nat)
    ensures
        spec_flicker_index_after(index, len, n + 1) == spec_next_flicker_index(
            spec_flicker_index_after(index, len, n),
            len,
        ),
    decreases n,
{
    let next = spec_next_flicker_index(index, len);
    assert(spec_flicker_index_after(index, len, n + 1) == spec_flicker_index_after(
        next,
        len,
        n,
    ));
    if n == 0 {
        assert(spec_flicker_index_after(next, len, 0) == next);
        assert(spec_flicker_index_after(index, len, 0) == index);
    } else {
        lemma_flicker_index_after_snoc(next, len, (n - 1) as nat);
        assert(spec_flicker_index_after(index, len, n) == spec_flicker_index_after(
            next,
            len,
            (n - 1) as nat,
        ));
    }
}

/// A run of `n` iterations followed by the block of the iteration it
/// arrived at is a run of `n + 1` iterations.
pub proof fn lemma_flicker_run_snoc(
    s: Seq<IoEvent>,
    block: Seq<IoEvent>,
    pin_number: u16,
    flickers: Seq<LightFlickerTime>,
    index: int,
    n: nat,
)
    requires
        0 <= index < flickers.len(),
        spec_is_flicker_run(s, pin_number, flickers, index, n),
        spec_is_flicker_block(
            block,
            pin_number,
            flickers[spec_flicker_index_after(index, flickers.len() as int, n)],
        ),
    ensures
        spec_is_flicker_run(s + block, pin_number, flickers, index, n + 1),
    decreases n,
{
    let len = flickers.len() as int;
    lemma_flicker_index_after_in_range(index, len, n);
    if n == 0 {
        let next = spec_next_flicker_index(index, len);
        assert(spec_flicker_index_after(index, len, 0) == index);
        assert(s + block =~= block);
        assert((s + block).subrange(0, 4) =~= block);
        assert((s + block).skip(4) =~= Seq::<IoEvent>::empty());
        assert(spec_is_flicker_run((s + block).skip(4), pin_number, flickers, next, 0));
    } else {
        let next = spec_next_flicker_index(index, len);
        assert(spec_flicker_index_after(index, len, n) == spec_flicker_index_after(
            next,
            len,
            (n - 1) as nat,
        ));
        lemma_flicker_run_snoc(s.skip(4), block, pin_number, flickers, next, (n - 1) as nat);
        assert((s + block).subrange(0, 4) =~= s.subrange(0, 4));
        assert((s + block).skip(4) =~= s.skip(4) + block);
        assert(spec_is_flicker_run(s.skip(4) + block, pin_number, flickers, next, n));
        assert(spec_is_flicker_run((s + block).skip(4), pin_number, flickers, next, n));
    }
}

/// Sets up the LED pin (export unless its node already exists, then the out
/// direction) on `file_io` and hands back the controller. A setup failure
/// is surfaced and the controller is not created, so no loop can start on a
/// half-initialized pin.
pub fn make_light_controller<T: FileIO>(file_io: T, pin_number: u16) -> (r: Result<
    LedController<T>,
    IoError,
>)
    ensures
        r is Ok ==> r->Ok_0.pin_number() == pin_number,
        r is Ok ==> r->Ok_0.remembered_level() is Low,
        r is Ok ==> r->Ok_0.log() == file_io.log() + setup_ok_events(
            pin_number,
            Direction::Out,
            file_io.node_exists(spec_pin_path(pin_number)),
        ),
        r is Err ==> r->Err_0.path@ == spec_export_path() || r->Err_0.path@
            == spec_direction_path(pin_number),
{
    let mut io = file_io;
    match RpiGpioController::new(&mut io, Direction::Out, pin_number) {
        Ok(pin) => Ok(LedController::new(io, pin)),
        Err(e) => Err(e),
    }
}

/// One full flicker iteration: command the LED on, pause for the entry's on
/// time, command it off, pause for its off time. A refused write is ignored
/// — the iteration always runs to its end — but the refused attempt stays
/// in the log.
pub fn flicker_cycle<T: FileIO>(led: &mut LedController<T>, flicker: &LightFlickerTime)
    ensures
        final(led).pin_number() == old(led).pin_number(),
        final(led).log().len() == old(led).log().len() + 4,
        old(led).log() == final(led).log().take(old(led).log().len() as int),
        spec_is_flicker_block(
            final(led).log().skip(old(led).log().len() as int),
            old(led).pin_number(),
            *flicker,
        ),
{
    let ghost log0 = led.log();
    let ghost pin = led.pin_number();
    let on_result = led.turn_on();
    led.pause(flicker.on_time);
    let off_result = led.turn_off();
    led.pause(flicker.off_time);
    proof {
        let block = seq![
            level_write(pin, PinValue::High, on_result is Ok),
            sleep_event(flicker.on_time),
            level_write(pin, PinValue::Low, off_result is Ok),
            sleep_event(flicker.off_time),
        ];
        assert(led.log() =~= log0 + block);
        assert(led.log().skip(log0.len() as int) =~= block);
        assert(log0 =~= led.log().take(log0.len() as int));
    }
}

/// The pattern index of the next iteration: one further, wrapping to the
/// start past the last entry.
pub fn next_flicker_index(index: usize, len: usize) -> (r: usize)
    requires
        index < len,
    ensures
        r as int == spec_next_flicker_index(index as int, len as int),
        r < len,
{
    let next = index + 1;
    if next >= len {
        0
    } else {
        next
    }
}

/// Runs `n` full flicker iterations, walking the pattern cyclically from
/// its first entry: afterwards the log has grown by exactly `n` flicker
/// blocks — one on write, the prescribed on pause, one off write, the
/// prescribed off pause per iteration — and by nothing else.
pub fn run_flicker<T: FileIO>(
    led: &mut LedController<T>,
    params: &LightControllerParameters,
    n: u64,
)
    requires
        params.flickers@.len() > 0,
    ensures
        final(led).pin_number() == old(led).pin_number(),
        final(led).log().len() == old(led).log().len() + 4 * n,
        old(led).log() == final(led).log().take(old(led).log().len() as int),
        spec_is_flicker_run(
            final(led).log().skip(old(led).log().len() as int),
            old(led).pin_number(),
            params.flickers@,
            0,
            n as nat,
        ),
{
    let ghost log0 = led.log();
    let ghost pin = led.pin_number();
    let ghost pattern = params.flickers@;
    let mut index: usize = 0;
    let mut done: u64 = 0;
    while done < n
        invariant
            log0 == old(led).log(),
            pin == old(led).pin_number(),
            pattern == params.flickers@,
            pattern.len() > 0,
            led.pin_number() == pin,
            done <= n,
            index < pattern.len(),
            index as int == spec_flicker_index_after(0, pattern.len() as int, done as nat),
            led.log().len() == log0.len() + 4 * done,
            log0 == led.log().take(log0.len() as int),
            spec_is_flicker_run(led.log().skip(log0.len() as int), pin, pattern, 0, done as nat),
        decreases n - done,
    {
        let ghost previous_log = led.log();
        let ghost previous_run = led.log().skip(log0.len() as int);
        let flicker = params.flickers[index];
        flicker_cycle(led, &flicker);
        proof {
            let block = led.log().skip(previous_log.len() as int);
            assert(led.log().skip(log0.len() as int) =~= previous_run + block);
            lemma_flicker_run_snoc(previous_run, block, pin, pattern, 0, done as nat);
            assert(log0 =~= led.log().take(log0.len() as int));
            lemma_flicker_index_after_snoc(0, pattern.len() as int, done as nat);
        }
        index = next_flicker_index(index, params.flickers.len());
        done = done + 1;
    }
}

} // verus!
