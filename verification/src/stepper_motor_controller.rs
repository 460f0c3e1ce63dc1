//! The half-step sequencing engine for a 4-phase unipolar stepper motor.
//!
//! A [`StepperMotorController`] owns one backend and the four coil-phase
//! pins, and translates a signed rotation request into the canonical
//! 8-half-step sequence of value writes and timed holds. The whole sequence
//! a call performs is pinned down, event for event, over the backend's log:
//! `spec_turn_events` is that sequence, and `turn` either appends exactly
//! it, or — when the backend refuses a write — appends exactly the prefix up
//! to and including the one refused write and surfaces the error.

use vstd::prelude::*;

use crate::file_io::{FileIO, IoError, IoEvent};
use crate::gpio::{level_write, sleep_event, PinValue, RpiGpioController};

verus! {

/// The event of writing `pin_value` to the value node of the pin at `index`
/// in the controller's pin sequence.
pub open spec fn phase_write(pins: Seq<u16>, index: int, pin_value: PinValue) -> IoEvent {
    level_write(pins[index], pin_value, true)
}

/// A single-phase half-step on the pin at `index`: high, hold, low.
pub open spec fn spec_single_phase_events(pins: Seq<u16>, hold: u64, index: int) -> Seq<IoEvent> {
    seq![
        phase_write(pins, index, PinValue::High),
        sleep_event(hold),
        phase_write(pins, index, PinValue::Low),
    ]
}

/// A dual-phase half-step on the pins at `first` and `second`: both high,
/// hold, both low.
pub open spec fn spec_dual_phase_events(
    pins: Seq<u16>,
    hold: u64,
    first: int,
    second: int,
) -> Seq<IoEvent> {
    seq![
        phase_write(pins, first, PinValue::High),
        phase_write(pins, second, PinValue::High),
        sleep_event(hold),
        phase_write(pins, first, PinValue::Low),
        phase_write(pins, second, PinValue::Low),
    ]
}

/// The canonical 8-half-step pattern over the pin indices `[0, 1, 2, 3]`,
/// walked from index 3 downwards with a dual-phase half-step between
/// neighbours: 3, 3+2, 2, 2+1, 1, 1+0, 0, 3+0.
pub open spec fn spec_half_step_events(pins: Seq<u16>, hold: u64, step: int) -> Seq<IoEvent> {
    if step == 1 {
        spec_single_phase_events(pins, hold, 3)
    } else if step == 2 {
        spec_dual_phase_events(pins, hold, 3, 2)
    } else if step == 3 {
        spec_single_phase_events(pins, hold, 2)
    } else if step == 4 {
        spec_dual_phase_events(pins, hold, 2, 1)
    } else if step == 5 {
        spec_single_phase_events(pins, hold, 1)
    } else if step == 6 {
        spec_dual_phase_events(pins, hold, 1, 0)
    } else if step == 7 {
        spec_single_phase_events(pins, hold, 0)
    } else {
        spec_dual_phase_events(pins, hold, 3, 0)
    }
}

/// The half-step performed `i`-th (counted from zero) within one cycle:
/// steps 1 through 8 when turning forward, 8 through 1 when turning
/// backward.
pub open spec fn spec_step_at(forward: bool, i: int) -> int {
    if forward {
        i + 1
    } else {
        8 - i
    }
}

/// The first `i` half-steps of one cycle, in traversal order.
pub open spec fn spec_cycle_prefix_events(pins: Seq<u16>, hold: u64, forward: bool, i: int) -> Seq<
    IoEvent,
>
    decreases i,
{
    if i <= 0 {
        Seq::empty()
    } else {
        spec_cycle_prefix_events(pins, hold, forward, i - 1) + spec_half_step_events(
            pins,
            hold,
            spec_step_at(forward, i - 1),
        )
    }
}

/// One full cycle of 8 half-steps.
pub open spec fn spec_cycle_events(pins: Seq<u16>, hold: u64, forward: bool) -> Seq<IoEvent> {
    spec_cycle_prefix_events(pins, hold, forward, 8)
}

/// The half-steps of one cycle from the `i`-th on, in traversal order.
pub open spec fn spec_cycle_suffix_events(pins: Seq<u16>, hold: u64, forward: bool, i: int) -> Seq<
    IoEvent,
>
    decreases 8 - i,
{
    if i >= 8 {
        Seq::empty()
    } else {
        spec_half_step_events(pins, hold, spec_step_at(forward, i)) + spec_cycle_suffix_events(
            pins,
            hold,
            forward,
            i + 1,
        )
    }
}

/// `n` full cycles.
pub open spec fn spec_cycles_events(pins: Seq<u16>, hold: u64, forward: bool, n: nat) -> Seq<
    IoEvent,
>
    decreases n,
{
    if n == 0 {
        Seq::empty()
    } else {
        spec_cycles_events(pins, hold, forward, (n - 1) as nat) + spec_cycle_events(
            pins,
            hold,
            forward,
        )
    }
}

/// Everything `turn(count)` performs when every write succeeds: `count`
/// forward cycles for positive `count`, `|count|` backward cycles for
/// negative `count`, nothing for zero.
pub open spec fn spec_turn_events(pins: Seq<u16>, hold: u64, count: int) -> Seq<IoEvent> {
    if count >= 0 {
        spec_cycles_events(pins, hold, true, count as nat)
    } else {
        spec_cycles_events(pins, hold, false, (-count) as nat)
    }
}

/// `event`, with a write attempt marked as refused.
pub open spec fn mark_failed(event: IoEvent) -> IoEvent {
    match event {
        IoEvent::Write { path, data, ok } => IoEvent::Write { path, data, ok: false },
        IoEvent::Sleep { milli_seconds } => IoEvent::Sleep { milli_seconds },
    }
}

/// The first `k` events of `schedule`, with the `k`-th (a write) refused:
/// what an aborted run leaves in the log.
pub open spec fn cut_failed(schedule: Seq<IoEvent>, k: int) -> Seq<IoEvent>
    recommends
        1 <= k <= schedule.len(),
{
    schedule.take(k - 1).push(mark_failed(schedule[k - 1]))
}

/// The last event of `log` is a refused write to `path`: what an aborted
/// run leaves behind, with `path` the one the surfaced error names.
pub open spec fn ends_with_refused_write(log: Seq<IoEvent>, path: Seq<char>) -> bool {
    &&& log.len() > 0
    &&& log.last() matches IoEvent::Write { path: written, ok, .. }
        && written == path && !ok
}

/// `new_log` extends `old_log` by a prefix of `schedule` that was cut short
/// by one refused write: every scheduled event up to some position
/// happened, the write at that position was refused, and nothing further
/// was attempted.
pub open spec fn log_extended_by_cut(
    old_log: Seq<IoEvent>,
    new_log: Seq<IoEvent>,
    schedule: Seq<IoEvent>,
) -> bool {
    exists|k: int|
        1 <= k <= schedule.len() && schedule[k - 1] is Write && new_log == old_log + #[trigger] cut_failed(
            schedule,
            k,
        )
}

/// A cut of a later part of a composite schedule is a cut of the whole:
/// what `prefix` contributed had already happened in full.
pub proof fn lemma_cut_prepend(
    old_log: Seq<IoEvent>,
    mid_log: Seq<IoEvent>,
    new_log: Seq<IoEvent>,
    prefix: Seq<IoEvent>,
    schedule: Seq<IoEvent>,
)
    requires
        mid_log == old_log + prefix,
        log_extended_by_cut(mid_log, new_log, schedule),
    ensures
        log_extended_by_cut(old_log, new_log, prefix + schedule),
{
    let k = choose|k: int|
        1 <= k <= schedule.len() && schedule[k - 1] is Write && new_log == mid_log + #[trigger] cut_failed(
            schedule,
            k,
        );
    let kk = prefix.len() + k;
    assert((prefix + schedule)[kk - 1] == schedule[k - 1]);
    assert(new_log =~= old_log + cut_failed(prefix + schedule, kk));
}

/// A cut of a schedule is a cut of any extension of it: the cut lies before
/// the extension begins.
pub proof fn lemma_cut_extend(
    old_log: Seq<IoEvent>,
    new_log: Seq<IoEvent>,
    schedule: Seq<IoEvent>,
    extension: Seq<IoEvent>,
)
    requires
        log_extended_by_cut(old_log, new_log, schedule),
    ensures
        log_extended_by_cut(old_log, new_log, schedule + extension),
{
    let k = choose|k: int|
        1 <= k <= schedule.len() && schedule[k - 1] is Write && new_log == old_log + #[trigger] cut_failed(
            schedule,
            k,
        );
    assert((schedule + extension)[k - 1] == schedule[k - 1]);
    assert(cut_failed(schedule + extension, k) =~= cut_failed(schedule, k));
}

/// One cycle is its first `i` half-steps followed by the rest.
pub proof fn lemma_cycle_prefix_suffix(pins: Seq<u16>, hold: u64, forward: bool, i: int)
    requires
        0 <= i <= 8,
    ensures
        spec_cycle_events(pins, hold, forward) == spec_cycle_prefix_events(pins, hold, forward, i)
            + spec_cycle_suffix_events(pins, hold, forward, i),
    decreases 8 - i,
{
    if i == 8 {
        assert(spec_cycle_events(pins, hold, forward) =~= spec_cycle_prefix_events(
            pins,
            hold,
            forward,
            8,
        ) + spec_cycle_suffix_events(pins, hold, forward, 8));
    } else {
        lemma_cycle_prefix_suffix(pins, hold, forward, i + 1);
        assert(spec_cycle_prefix_events(pins, hold, forward, i + 1)
            + spec_cycle_suffix_events(pins, hold, forward, i + 1) =~= spec_cycle_prefix_events(
            pins,
            hold,
            forward,
            i,
        ) + spec_cycle_suffix_events(pins, hold, forward, i));
    }
}

/// `n` cycles split into the first `m` and the remaining `n - m`.
pub proof fn lemma_cycles_events_split(pins: Seq<u16>, hold: u64, forward: bool, m: nat, n: nat)
    requires
        m <= n,
    ensures
        spec_cycles_events(pins, hold, forward, n) == spec_cycles_events(pins, hold, forward, m)
            + spec_cycles_events(pins, hold, forward, (n - m) as nat),
    decreases n - m,
{
    if m == n {
        assert(spec_cycles_events(pins, hold, forward, n) =~= spec_cycles_events(
            pins,
            hold,
            forward,
            m,
        ) + spec_cycles_events(pins, hold, forward, 0));
    } else {
        lemma_cycles_events_split(pins, hold, forward, m, (n - 1) as nat);
        assert(spec_cycles_events(pins, hold, forward, (n - m) as nat)
            == spec_cycles_events(pins, hold, forward, (n - m - 1) as nat) + spec_cycle_events(
            pins,
            hold,
            forward,
        ));
        assert(spec_cycles_events(pins, hold, forward, n) =~= spec_cycles_events(
            pins,
            hold,
            forward,
            m,
        ) + spec_cycles_events(pins, hold, forward, (n - m) as nat));
    }
}

/// How many degrees of rotation convert to which signed half-step count:
/// `degrees * 512 / 360`, truncated toward zero. 512 half-steps per
/// revolution is the target motor's datasheet constant.
pub open spec fn spec_degrees_to_steps(degrees: int) -> int {
    if degrees >= 0 {
        degrees * 512 / 360
    } else {
        -((-degrees) * 512 / 360)
    }
}

/// How many write attempts `s` holds.
pub open spec fn spec_count_writes(s: Seq<IoEvent>) -> nat
    decreases s.len(),
{
    if s.len() == 0 {
        0
    } else {
        spec_count_writes(s.drop_last()) + (if s.last() is Write {
            1nat
        } else {
            0nat
        })
    }
}

pub proof fn lemma_count_writes_add(a: Seq<IoEvent>, b: Seq<IoEvent>)
    ensures
        spec_count_writes(a + b) == spec_count_writes(a) + spec_count_writes(b),
    decreases b.len(),
{
    if b.len() == 0 {
        assert(a + b =~= a);
        assert(spec_count_writes(b) == 0);
    } else {
        lemma_count_writes_add(a, b.drop_last());
        assert((a + b).drop_last() =~= a + b.drop_last());
        assert((a + b).last() == b.last());
    }
}

pub proof fn lemma_single_phase_counts(pins: Seq<u16>, hold: u64, index: int)
    ensures
        spec_count_writes(spec_single_phase_events(pins, hold, index)) == 2,
        spec_single_phase_events(pins, hold, index).len() == 3,
{
    let s = spec_single_phase_events(pins, hold, index);
    assert(s.drop_last() =~= seq![
        phase_write(pins, index, PinValue::High),
        sleep_event(hold),
    ]);
    assert(s.drop_last().drop_last() =~= seq![phase_write(pins, index, PinValue::High)]);
    assert(s.drop_last().drop_last().drop_last() =~= Seq::<IoEvent>::empty());
    assert(spec_count_writes(s.drop_last().drop_last().drop_last()) == 0);
    assert(spec_count_writes(s.drop_last().drop_last()) == 1);
    assert(spec_count_writes(s.drop_last()) == 1);
    assert(spec_count_writes(s) == 2);
}

pub proof fn lemma_dual_phase_counts(pins: Seq<u16>, hold: u64, first: int, second: int)
    ensures
        spec_count_writes(spec_dual_phase_events(pins, hold, first, second)) == 4,
        spec_dual_phase_events(pins, hold, first, second).len() == 5,
{
    let s = spec_dual_phase_events(pins, hold, first, second);
    let d1 = s.drop_last();
    let d2 = d1.drop_last();
    let d3 = d2.drop_last();
    let d4 = d3.drop_last();
    assert(d1 =~= seq![
        phase_write(pins, first, PinValue::High),
        phase_write(pins, second, PinValue::High),
        sleep_event(hold),
        phase_write(pins, first, PinValue::Low),
    ]);
    assert(d2 =~= seq![
        phase_write(pins, first, PinValue::High),
        phase_write(pins, second, PinValue::High),
        sleep_event(hold),
    ]);
    assert(d3 =~= seq![
        phase_write(pins, first, PinValue::High),
        phase_write(pins, second, PinValue::High),
    ]);
    assert(d4 =~= seq![phase_write(pins, first, PinValue::High)]);
    assert(d4.drop_last() =~= Seq::<IoEvent>::empty());
    assert(spec_count_writes(d4.drop_last()) == 0);
    assert(spec_count_writes(d4) == 1);
    assert(spec_count_writes(d3) == 2);
    assert(spec_count_writes(d2) == 2);
    assert(spec_count_writes(d1) == 3);
    assert(spec_count_writes(s) == 4);
}

/// A half-step is two write attempts around one pause for a single-phase
/// step, four around one pause for a dual-phase step.
pub proof fn lemma_half_step_counts(pins: Seq<u16>, hold: u64, step: int)
    requires
        1 <= step <= 8,
    ensures
        spec_count_writes(spec_half_step_events(pins, hold, step)) == (if step % 2 == 1 {
            2nat
        } else {
            4nat
        }),
        spec_half_step_events(pins, hold, step).len() == (if step % 2 == 1 {
            3int
        } else {
            5int
        }),
{
    if step == 1 {
        lemma_single_phase_counts(pins, hold, 3);
    } else if step == 2 {
        lemma_dual_phase_counts(pins, hold, 3, 2);
    } else if step == 3 {
        lemma_single_phase_counts(pins, hold, 2);
    } else if step == 4 {
        lemma_dual_phase_counts(pins, hold, 2, 1);
    } else if step == 5 {
        lemma_single_phase_counts(pins, hold, 1);
    } else if step == 6 {
        lemma_dual_phase_counts(pins, hold, 1, 0);
    } else if step == 7 {
        lemma_single_phase_counts(pins, hold, 0);
    } else {
        lemma_dual_phase_counts(pins, hold, 3, 0);
    }
}

/// One cycle of 8 half-steps is 24 write attempts and 8 pauses, whichever
/// way it is traversed.
pub proof fn lemma_cycle_counts(pins: Seq<u16>, hold: u64, forward: bool)
    ensures
        spec_count_writes(spec_cycle_events(pins, hold, forward)) == 24,
        spec_cycle_events(pins, hold, forward).len() == 32,
{
    let c0 = spec_cycle_prefix_events(pins, hold, forward, 0);
    assert(spec_count_writes(c0) == 0);
    lemma_half_step_counts(pins, hold, spec_step_at(forward, 0));
    lemma_count_writes_add(c0, spec_half_step_events(pins, hold, spec_step_at(forward, 0)));
    lemma_half_step_counts(pins, hold, spec_step_at(forward, 1));
    lemma_count_writes_add(
        spec_cycle_prefix_events(pins, hold, forward, 1),
        spec_half_step_events(pins, hold, spec_step_at(forward, 1)),
    );
    lemma_half_step_counts(pins, hold, spec_step_at(forward, 2));
    lemma_count_writes_add(
        spec_cycle_prefix_events(pins, hold, forward, 2),
        spec_half_step_events(pins, hold, spec_step_at(forward, 2)),
    );
    lemma_half_step_counts(pins, hold, spec_step_at(forward, 3));
    lemma_count_writes_add(
        spec_cycle_prefix_events(pins, hold, forward, 3),
        spec_half_step_events(pins, hold, spec_step_at(forward, 3)),
    );
    lemma_half_step_counts(pins, hold, spec_step_at(forward, 4));
    lemma_count_writes_add(
        spec_cycle_prefix_events(pins, hold, forward, 4),
        spec_half_step_events(pins, hold, spec_step_at(forward, 4)),
    );
    lemma_half_step_counts(pins, hold, spec_step_at(forward, 5));
    lemma_count_writes_add(
        spec_cycle_prefix_events(pins, hold, forward, 5),
        spec_half_step_events(pins, hold, spec_step_at(forward, 5)),
    );
    lemma_half_step_counts(pins, hold, spec_step_at(forward, 6));
    lemma_count_writes_add(
        spec_cycle_prefix_events(pins, hold, forward, 6),
        spec_half_step_events(pins, hold, spec_step_at(forward, 6)),
    );
    lemma_half_step_counts(pins, hold, spec_step_at(forward, 7));
    lemma_count_writes_add(
        spec_cycle_prefix_events(pins, hold, forward, 7),
        spec_half_step_events(pins, hold, spec_step_at(forward, 7)),
    );
}

pub proof fn lemma_cycles_counts(pins: Seq<u16>, hold: u64, forward: bool, n: nat)
    ensures
        spec_count_writes(spec_cycles_events(pins, hold, forward, n)) == 24 * n,
        spec_cycles_events(pins, hold, forward, n).len() == 32 * n,
    decreases n,
{
    if n == 0 {
        assert(spec_count_writes(Seq::<IoEvent>::empty()) == 0);
    } else {
        lemma_cycles_counts(pins, hold, forward, (n - 1) as nat);
        lemma_cycle_counts(pins, hold, forward);
        lemma_count_writes_add(
            spec_cycles_events(pins, hold, forward, (n - 1) as nat),
            spec_cycle_events(pins, hold, forward),
        );
    }
}

/// A successful `turn(count)` performs exactly `8 * |count|` half-steps —
/// each one a high write (or pair of high writes) followed, after the hold,
/// by the matching low write(s) — for `24 * |count|` write attempts and
/// `8 * |count|` pauses in all, in forward order for positive `count` and
/// in backward order for negative `count`.
pub proof fn lemma_turn_event_counts(pins: Seq<u16>, hold: u64, count: int)
    ensures
        spec_count_writes(spec_turn_events(pins, hold, count)) == 24 * (if count >= 0 {
            count
        } else {
            -count
        }),
        spec_turn_events(pins, hold, count).len() == 32 * (if count >= 0 {
            count
        } else {
            -count
        }),
{
    if count >= 0 {
        lemma_cycles_counts(pins, hold, true, count as nat);
    } else {
        lemma_cycles_counts(pins, hold, false, (-count) as nat);
    }
}

/// A full revolution in degrees is exactly the 512-cycle turn: with every
/// write succeeding, `turn_degrees(360)` appends the same event sequence to
/// the log as `turn(512)`, and `turn_degrees(-360)` the same as
/// `turn(-512)`.
pub proof fn lemma_full_revolution_matches_512_cycles(pins: Seq<u16>, hold: u64)
    ensures
        spec_degrees_to_steps(360) == 512,
        spec_degrees_to_steps(-360) == -512,
        spec_turn_events(pins, hold, spec_degrees_to_steps(360)) == spec_turn_events(
            pins,
            hold,
            512,
        ),
        spec_turn_events(pins, hold, spec_degrees_to_steps(-360)) == spec_turn_events(
            pins,
            hold,
            -512,
        ),
{
}

/// A zero turn performs nothing: `turn(0)` and `turn_degrees(0)` append no
/// event at all to the log.
pub proof fn lemma_zero_turn_is_silent(pins: Seq<u16>, hold: u64)
    ensures
        spec_degrees_to_steps(0) == 0,
        spec_turn_events(pins, hold, 0) == Seq::<IoEvent>::empty(),
{
}

/// Drives the four coil phases of a 4-phase unipolar stepper through one
/// backend, with a fixed inter-phase hold.
pub struct StepperMotorController<T: FileIO> {
    file_io: T,
    pins: Vec<RpiGpioController>,
    duration_milli_seconds: u64,
}

impl<T: FileIO> StepperMotorController<T> {
    /// The backend's event log.
    pub closed spec fn log(&self) -> Seq<IoEvent> {
        self.file_io.log()
    }

    /// The physical pin numbers of the four coil phases, in owned order.
    pub closed spec fn pin_numbers(&self) -> Seq<u16> {
        self.pins@.map_values(|p: RpiGpioController| p.pin_number)
    }

    /// The inter-phase hold duration.
    pub closed spec fn hold_milli_seconds(&self) -> u64 {
        self.duration_milli_seconds
    }

    /// The controller owns exactly the four coil-phase pins.
    pub closed spec fn wf(&self) -> bool {
        self.pins@.len() == 4
    }

    /// Takes ownership of the backend and of exactly four configured pins
    /// (one per coil phase; behaviour with any other count is out of
    /// contract, so it is excluded here).
    pub fn new(file_io: T, pins: Vec<RpiGpioController>, duration_milli_seconds: u64) -> (r:
        StepperMotorController<T>)
        requires
            pins@.len() == 4,
        ensures
            r.wf(),
            r.log() == file_io.log(),
            r.pin_numbers() == pins@.map_values(|p: RpiGpioController| p.pin_number),
            r.hold_milli_seconds() == duration_milli_seconds,
    {
        StepperMotorController { file_io, pins, duration_milli_seconds }
    }

    /// Hands the backend back, for callers that want to inspect what was
    /// performed or drive something else through it.
    pub fn into_file_io(self) -> (r: T)
        ensures
            r.log() == self.log(),
    {
        self.file_io
    }

    /// Pauses for `milli_seconds` through the backend, so that the pause
    /// takes its place in the event log between the turns around it.
    pub fn pause(&mut self, milli_seconds: u64)
        requires
            old(self).wf(),
        ensures
            final(self).wf(),
            final(self).pin_numbers() == old(self).pin_numbers(),
            final(self).hold_milli_seconds() == old(self).hold_milli_seconds(),
            final(self).log() == old(self).log().push(sleep_event(milli_seconds)),
    {
        self.file_io.sleep(milli_seconds);
    }

    fn write_pin(&mut self, index: usize, pin_value: PinValue) -> (r: Result<(), IoError>)
        requires
            old(self).wf(),
            index < 4,
        ensures
            final(self).wf(),
            final(self).pin_numbers() == old(self).pin_numbers(),
            final(self).hold_milli_seconds() == old(self).hold_milli_seconds(),
            final(self).log() == old(self).log().push(
                level_write(old(self).pin_numbers()[index as int], pin_value, r is Ok),
            ),
            r is Err ==> r->Err_0.path@ == crate::gpio::spec_value_path(
                old(self).pin_numbers()[index as int],
            ),
    {
        self.pins[index].write(&mut self.file_io, pin_value)
    }

    fn hold(&mut self)
        requires
            old(self).wf(),
        ensures
            final(self).wf(),
            final(self).pin_numbers() == old(self).pin_numbers(),
            final(self).hold_milli_seconds() == old(self).hold_milli_seconds(),
            final(self).log() == old(self).log().push(
                sleep_event(old(self).hold_milli_seconds()),
            ),
    {
        self.file_io.sleep(self.duration_milli_seconds);
    }

    fn single_phase_step(&mut self, index: usize) -> (r: Result<(), IoError>)
        requires
            old(self).wf(),
            index < 4,
        ensures
            final(self).wf(),
            final(self).pin_numbers() == old(self).pin_numbers(),
            final(self).hold_milli_seconds() == old(self).hold_milli_seconds(),
            r is Ok ==> final(self).log() == old(self).log() + spec_single_phase_events(
                old(self).pin_numbers(),
                old(self).hold_milli_seconds(),
                index as int,
            ),
            r is Err ==> ends_with_refused_write(final(self).log(), r->Err_0.path@),
            r is Err ==> log_extended_by_cut(
                old(self).log(),
                final(self).log(),
                spec_single_phase_events(
                    old(self).pin_numbers(),
                    old(self).hold_milli_seconds(),
                    index as int,
                ),
            ),
    {
        let ghost log0 = self.log();
        let ghost schedule = spec_single_phase_events(
            self.pin_numbers(),
            self.hold_milli_seconds(),
            index as int,
        );
        match self.write_pin(index, PinValue::High) {
            Err(e) => {
                proof {
                    assert(self.log() =~= log0 + cut_failed(schedule, 1));
                }
                return Err(e);
            },
            Ok(()) => {},
        }
        self.hold();
        match self.write_pin(index, PinValue::Low) {
            Err(e) => {
                proof {
                    assert(self.log() =~= log0 + cut_failed(schedule, 3));
                }
                return Err(e);
            },
            Ok(()) => {},
        }
        proof {
            assert(self.log() =~= log0 + schedule);
        }
        Ok(())
    }

    fn dual_phase_step(&mut self, first: usize, second: usize) -> (r: Result<(), IoError>)
        requires
            old(self).wf(),
            first < 4,
            second < 4,
        ensures
            final(self).wf(),
            final(self).pin_numbers() == old(self).pin_numbers(),
            final(self).hold_milli_seconds() == old(self).hold_milli_seconds(),
            r is Ok ==> final(self).log() == old(self).log() + spec_dual_phase_events(
                old(self).pin_numbers(),
                old(self).hold_milli_seconds(),
                first as int,
                second as int,
            ),
            r is Err ==> ends_with_refused_write(final(self).log(), r->Err_0.path@),
            r is Err ==> log_extended_by_cut(
                old(self).log(),
                final(self).log(),
                spec_dual_phase_events(
                    old(self).pin_numbers(),
                    old(self).hold_milli_seconds(),
                    first as int,
                    second as int,
                ),
            ),
    {
        let ghost log0 = self.log();
        let ghost schedule = spec_dual_phase_events(
            self.pin_numbers(),
            self.hold_milli_seconds(),
            first as int,
            second as int,
        );
        match self.write_pin(first, PinValue::High) {
            Err(e) => {
                proof {
                    assert(self.log() =~= log0 + cut_failed(schedule, 1));
                }
                return Err(e);
            },
            Ok(()) => {},
        }
        match self.write_pin(second, PinValue::High) {
            Err(e) => {
                proof {
                    assert(self.log() =~= log0 + cut_failed(schedule, 2));
                }
                return Err(e);
            },
            Ok(()) => {},
        }
        self.hold();
        match self.write_pin(first, PinValue::Low) {
            Err(e) => {
                proof {
                    assert(self.log() =~= log0 + cut_failed(schedule, 4));
                }
                return Err(e);
            },
            Ok(()) => {},
        }
        match self.write_pin(second, PinValue::Low) {
            Err(e) => {
                proof {
                    assert(self.log() =~= log0 + cut_failed(schedule, 5));
                }
                return Err(e);
            },
            Ok(()) => {},
        }
        proof {
            assert(self.log() =~= log0 + schedule);
        }
        Ok(())
    }

    fn do_step1(&mut self) -> (r: Result<(), IoError>)
        requires
            old(self).wf(),
        ensures
            final(self).wf(),
            final(self).pin_numbers() == old(self).pin_numbers(),
            final(self).hold_milli_seconds() == old(self).hold_milli_seconds(),
            r is Ok ==> final(self).log() == old(self).log() + spec_half_step_events(
                old(self).pin_numbers(),
                old(self).hold_milli_seconds(),
                1,
            ),
            r is Err ==> ends_with_refused_write(final(self).log(), r->Err_0.path@),
            r is Err ==> log_extended_by_cut(
                old(self).log(),
                final(self).log(),
                spec_half_step_events(old(self).pin_numbers(), old(self).hold_milli_seconds(), 1),
            ),
    {
        self.single_phase_step(3)
    }

    fn do_step2(&mut self) -> (r: Result<(), IoError>)
        requires
            old(self).wf(),
        ensures
            final(self).wf(),
            final(self).pin_numbers() == old(self).pin_numbers(),
            final(self).hold_milli_seconds() == old(self).hold_milli_seconds(),
            r is Ok ==> final(self).log() == old(self).log() + spec_half_step_events(
                old(self).pin_numbers(),
                old(self).hold_milli_seconds(),
                2,
            ),
            r is Err ==> ends_with_refused_write(final(self).log(), r->Err_0.path@),
            r is Err ==> log_extended_by_cut(
                old(self).log(),
                final(self).log(),
                spec_half_step_events(old(self).pin_numbers(), old(self).hold_milli_seconds(), 2),
            ),
    {
        self.dual_phase_step(3, 2)
    }

    fn do_step3(&mut self) -> (r: Result<(), IoError>)
        requires
            old(self).wf(),
        ensures
            final(self).wf(),
            final(self).pin_numbers() == old(self).pin_numbers(),
            final(self).hold_milli_seconds() == old(self).hold_milli_seconds(),
            r is Ok ==> final(self).log() == old(self).log() + spec_half_step_events(
                old(self).pin_numbers(),
                old(self).hold_milli_seconds(),
                3,
            ),
            r is Err ==> ends_with_refused_write(final(self).log(), r->Err_0.path@),
            r is Err ==> log_extended_by_cut(
                old(self).log(),
                final(self).log(),
                spec_half_step_events(old(self).pin_numbers(), old(self).hold_milli_seconds(), 3),
            ),
    {
        self.single_phase_step(2)
    }

    fn do_step4(&mut self) -> (r: Result<(), IoError>)
        requires
            old(self).wf(),
        ensures
            final(self).wf(),
            final(self).pin_numbers() == old(self).pin_numbers(),
            final(self).hold_milli_seconds() == old(self).hold_milli_seconds(),
            r is Ok ==> final(self).log() == old(self).log() + spec_half_step_events(
                old(self).pin_numbers(),
                old(self).hold_milli_seconds(),
                4,
            ),
            r is Err ==> ends_with_refused_write(final(self).log(), r->Err_0.path@),
            r is Err ==> log_extended_by_cut(
                old(self).log(),
                final(self).log(),
                spec_half_step_events(old(self).pin_numbers(), old(self).hold_milli_seconds(), 4),
            ),
    {
        self.dual_phase_step(2, 1)
    }

    fn do_step5(&mut self) -> (r: Result<(), IoError>)
        requires
            old(self).wf(),
        ensures
            final(self).wf(),
            final(self).pin_numbers() == old(self).pin_numbers(),
            final(self).hold_milli_seconds() == old(self).hold_milli_seconds(),
            r is Ok ==> final(self).log() == old(self).log() + spec_half_step_events(
                old(self).pin_numbers(),
                old(self).hold_milli_seconds(),
                5,
            ),
            r is Err ==> ends_with_refused_write(final(self).log(), r->Err_0.path@),
            r is Err ==> log_extended_by_cut(
                old(self).log(),
                final(self).log(),
                spec_half_step_events(old(self).pin_numbers(), old(self).hold_milli_seconds(), 5),
            ),
    {
        self.single_phase_step(1)
    }

    fn do_step6(&mut self) -> (r: Result<(), IoError>)
        requires
            old(self).wf(),
        ensures
            final(self).wf(),
            final(self).pin_numbers() == old(self).pin_numbers(),
            final(self).hold_milli_seconds() == old(self).hold_milli_seconds(),
            r is Ok ==> final(self).log() == old(self).log() + spec_half_step_events(
                old(self).pin_numbers(),
                old(self).hold_milli_seconds(),
                6,
            ),
            r is Err ==> ends_with_refused_write(final(self).log(), r->Err_0.path@),
            r is Err ==> log_extended_by_cut(
                old(self).log(),
                final(self).log(),
                spec_half_step_events(old(self).pin_numbers(), old(self).hold_milli_seconds(), 6),
            ),
    {
        self.dual_phase_step(1, 0)
    }

    fn do_step7(&mut self) -> (r: Result<(), IoError>)
        requires
            old(self).wf(),
        ensures
            final(self).wf(),
            final(self).pin_numbers() == old(self).pin_numbers(),
            final(self).hold_milli_seconds() == old(self).hold_milli_seconds(),
            r is Ok ==> final(self).log() == old(self).log() + spec_half_step_events(
                old(self).pin_numbers(),
                old(self).hold_milli_seconds(),
                7,
            ),
            r is Err ==> ends_with_refused_write(final(self).log(), r->Err_0.path@),
            r is Err ==> log_extended_by_cut(
                old(self).log(),
                final(self).log(),
                spec_half_step_events(old(self).pin_numbers(), old(self).hold_milli_seconds(), 7),
            ),
    {
        self.single_phase_step(0)
    }

    fn do_step8(&mut self) -> (r: Result<(), IoError>)
        requires
            old(self).wf(),
        ensures
            final(self).wf(),
            final(self).pin_numbers() == old(self).pin_numbers(),
            final(self).hold_milli_seconds() == old(self).hold_milli_seconds(),
            r is Ok ==> final(self).log() == old(self).log() + spec_half_step_events(
                old(self).pin_numbers(),
                old(self).hold_milli_seconds(),
                8,
            ),
            r is Err ==> ends_with_refused_write(final(self).log(), r->Err_0.path@),
            r is Err ==> log_extended_by_cut(
                old(self).log(),
                final(self).log(),
                spec_half_step_events(old(self).pin_numbers(), old(self).hold_milli_seconds(), 8),
            ),
    {
        self.dual_phase_step(3, 0)
    }

    fn do_half_step(&mut self, step: u8) -> (r: Result<(), IoError>)
        requires
            old(self).wf(),
            1 <= step <= 8,
        ensures
            final(self).wf(),
            final(self).pin_numbers() == old(self).pin_numbers(),
            final(self).hold_milli_seconds() == old(self).hold_milli_seconds(),
            r is Ok ==> final(self).log() == old(self).log() + spec_half_step_events(
                old(self).pin_numbers(),
                old(self).hold_milli_seconds(),
                step as int,
            ),
            r is Err ==> ends_with_refused_write(final(self).log(), r->Err_0.path@),
            r is Err ==> log_extended_by_cut(
                old(self).log(),
                final(self).log(),
                spec_half_step_events(
                    old(self).pin_numbers(),
                    old(self).hold_milli_seconds(),
                    step as int,
                ),
            ),
    {
        match step {
            1 => self.do_step1(),
            2 => self.do_step2(),
            3 => self.do_step3(),
            4 => self.do_step4(),
            5 => self.do_step5(),
            6 => self.do_step6(),
            7 => self.do_step7(),
            _ => self.do_step8(),
        }
    }

    fn do_cycle(&mut self, forward: bool) -> (r: Result<(), IoError>)
        requires
            old(self).wf(),
        ensures
            final(self).wf(),
            final(self).pin_numbers() == old(self).pin_numbers(),
            final(self).hold_milli_seconds() == old(self).hold_milli_seconds(),
            r is Ok ==> final(self).log() == old(self).log() + spec_cycle_events(
                old(self).pin_numbers(),
                old(self).hold_milli_seconds(),
                forward,
            ),
            r is Err ==> ends_with_refused_write(final(self).log(), r->Err_0.path@),
            r is Err ==> log_extended_by_cut(
                old(self).log(),
                final(self).log(),
                spec_cycle_events(
                    old(self).pin_numbers(),
                    old(self).hold_milli_seconds(),
                    forward,
                ),
            ),
    {
        let ghost log0 = self.log();
        let ghost pins0 = self.pin_numbers();
        let ghost hold0 = self.hold_milli_seconds();
        let mut i: u8 = 0;
        while i < 8
            invariant
                self.wf(),
                pins0 == old(self).pin_numbers(),
                hold0 == old(self).hold_milli_seconds(),
                log0 == old(self).log(),
                self.pin_numbers() == pins0,
                self.hold_milli_seconds() == hold0,
                i <= 8,
                self.log() == log0 + spec_cycle_prefix_events(pins0, hold0, forward, i as int),
            decreases 8 - i,
        {
            let step: u8 = if forward {
                i + 1
            } else {
                8 - i
            };
            let ghost mid_log = self.log();
            match self.do_half_step(step) {
                Err(e) => {
                    proof {
                        lemma_cut_prepend(
                            log0,
                            mid_log,
                            self.log(),
                            spec_cycle_prefix_events(pins0, hold0, forward, i as int),
                            spec_half_step_events(pins0, hold0, step as int),
                        );
                        lemma_cycle_prefix_suffix(pins0, hold0, forward, i as int + 1);
                        lemma_cut_extend(
                            log0,
                            self.log(),
                            spec_cycle_prefix_events(pins0, hold0, forward, i as int + 1),
                            spec_cycle_suffix_events(pins0, hold0, forward, i as int + 1),
                        );
                    }
                    return Err(e);
                },
                Ok(()) => {
                    proof {
                        assert(self.log() =~= log0 + spec_cycle_prefix_events(
                            pins0,
                            hold0,
                            forward,
                            i as int + 1,
                        ));
                    }
                },
            }
            i = i + 1;
        }
        Ok(())
    }

    /// Rotates the motor by `count` half-step cycles: for positive `count`
    /// the half-steps 1 through 8 in order, repeated `count` times; for
    /// negative `count` the half-steps 8 through 1, repeated `|count|`
    /// times; for zero, nothing at all — the log is then left unchanged.
    ///
    /// On success the log grows by exactly `spec_turn_events`. When the
    /// backend refuses a write, the remaining half-steps are abandoned: the
    /// log grows by exactly the already-performed prefix of that schedule,
    /// with the refused write as its last event, and the backend's error is
    /// surfaced. Nothing is rolled back — the motor is left at whatever
    /// phase it had reached.
    pub fn turn(&mut self, count: i32) -> (r: Result<(), IoError>)
        requires
            old(self).wf(),
        ensures
            final(self).wf(),
            final(self).pin_numbers() == old(self).pin_numbers(),
            final(self).hold_milli_seconds() == old(self).hold_milli_seconds(),
            count == 0 ==> r is Ok,
            r is Ok ==> final(self).log() == old(self).log() + spec_turn_events(
                old(self).pin_numbers(),
                old(self).hold_milli_seconds(),
                count as int,
            ),
            r is Err ==> ends_with_refused_write(final(self).log(), r->Err_0.path@),
            r is Err ==> log_extended_by_cut(
                old(self).log(),
                final(self).log(),
                spec_turn_events(
                    old(self).pin_numbers(),
                    old(self).hold_milli_seconds(),
                    count as int,
                ),
            ),
    {
        let ghost log0 = self.log();
        let ghost pins0 = self.pin_numbers();
        let ghost hold0 = self.hold_milli_seconds();
        let forward = count > 0;
        let reps64: i64 = if count >= 0 {
            count as i64
        } else {
            -(count as i64)
        };
        let reps: u32 = reps64 as u32;
        let mut done: u32 = 0;
        while done < reps
            invariant
                self.wf(),
                pins0 == old(self).pin_numbers(),
                hold0 == old(self).hold_milli_seconds(),
                log0 == old(self).log(),
                self.pin_numbers() == pins0,
                self.hold_milli_seconds() == hold0,
                done <= reps,
                reps as int == (if count as int >= 0 {
                    count as int
                } else {
                    -(count as int)
                }),
                forward == (count as int > 0),
                self.log() == log0 + spec_cycles_events(pins0, hold0, forward, done as nat),
            decreases reps - done,
        {
            let ghost mid_log = self.log();
            match self.do_cycle(forward) {
                Err(e) => {
                    proof {
                        lemma_cut_prepend(
                            log0,
                            mid_log,
                            self.log(),
                            spec_cycles_events(pins0, hold0, forward, done as nat),
                            spec_cycle_events(pins0, hold0, forward),
                        );
                        assert(spec_cycles_events(pins0, hold0, forward, done as nat)
                            + spec_cycle_events(pins0, hold0, forward) == spec_cycles_events(
                            pins0,
                            hold0,
                            forward,
                            done as nat + 1,
                        ));
                        lemma_cycles_events_split(pins0, hold0, forward, done as nat + 1, reps as nat);
                        lemma_cut_extend(
                            log0,
                            self.log(),
                            spec_cycles_events(pins0, hold0, forward, done as nat + 1),
                            spec_cycles_events(
                                pins0,
                                hold0,
                                forward,
                                (reps as nat - done as nat - 1) as nat,
                            ),
                        );
                        assert(spec_turn_events(pins0, hold0, count as int) == spec_cycles_events(
                            pins0,
                            hold0,
                            forward,
                            reps as nat,
                        ));
                    }
                    return Err(e);
                },
                Ok(()) => {
                    proof {
                        assert(self.log() == log0 + spec_cycles_events(
                            pins0,
                            hold0,
                            forward,
                            done as nat + 1,
                        ));
                    }
                },
            }
            done = done + 1;
        }
        proof {
            if count as int >= 0 {
                assert(spec_turn_events(pins0, hold0, count as int) == spec_cycles_events(
                    pins0,
                    hold0,
                    true,
                    count as nat,
                ));
                if count == 0 {
                    assert(spec_cycles_events(pins0, hold0, forward, 0) =~= spec_cycles_events(
                        pins0,
                        hold0,
                        true,
                        0,
                    ));
                }
            }
        }
        Ok(())
    }

    /// Converts `degrees` to half-step cycles by `degrees * 512 / 360`,
    /// truncating toward zero (exact fractional degrees are not
    /// guaranteed), and turns by that count. The bound on
    /// `spec_degrees_to_steps` is a machine limit: the converted count must
    /// fit the signed 32-bit count `turn` takes.
    pub fn turn_degrees(&mut self, degrees: i32) -> (r: Result<(), IoError>)
        requires
            old(self).wf(),
            -0x8000_0000 <= spec_degrees_to_steps(degrees as int) <= 0x7fff_ffff,
        ensures
            final(self).wf(),
            final(self).pin_numbers() == old(self).pin_numbers(),
            final(self).hold_milli_seconds() == old(self).hold_milli_seconds(),
            degrees == 0 ==> r is Ok,
            r is Ok ==> final(self).log() == old(self).log() + spec_turn_events(
                old(self).pin_numbers(),
                old(self).hold_milli_seconds(),
                spec_degrees_to_steps(degrees as int),
            ),
            r is Err ==> ends_with_refused_write(final(self).log(), r->Err_0.path@),
            r is Err ==> log_extended_by_cut(
                old(self).log(),
                final(self).log(),
                spec_turn_events(
                    old(self).pin_numbers(),
                    old(self).hold_milli_seconds(),
                    spec_degrees_to_steps(degrees as int),
                ),
            ),
    {
        let magnitude: u64 = if degrees >= 0 {
            degrees as u64
        } else {
            (-(degrees as i64)) as u64
        };
        let steps_magnitude: u64 = magnitude * 512 / 360;
        let steps: i32 = if degrees >= 0 {
            steps_magnitude as i32
        } else {
            (-(steps_magnitude as i64)) as i32
        };
        proof {
            assert(steps as int == spec_degrees_to_steps(degrees as int));
        }
        self.turn(steps)
    }
}

} // verus!
