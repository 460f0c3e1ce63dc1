//! Construction of the head-turning stepper from its four coil pins, and
//! the body of the oscillation loop: turn forward by some degrees, pause,
//! turn back by the same degrees, pause.
//!
//! Errors inside the oscillation are strict: a refused pin write ends the
//! iteration (and so the loop of whoever drives it) and is surfaced; the
//! already-performed prefix stays in the log. The repeat-until-signalled
//! driver around these bodies lives with the caller, which polls its stop
//! signal between full iterations.

use vstd::prelude::*;

use crate::file_io::{FileIO, IoError, IoEvent};
use crate::gpio::{
    setup_ok_events, sleep_event, spec_direction_path, spec_export_path, spec_pin_path, Direction,
    RpiGpioController,
};
use crate::stepper_motor_controller::{
    ends_with_refused_write, lemma_cut_extend, lemma_cut_prepend, log_extended_by_cut,
    spec_degrees_to_steps, spec_turn_events, StepperMotorController,
};

verus! {

/// The oscillation loop's configuration: the four coil-phase pin numbers in
/// owned order, the inter-phase hold (`speed`) in milliseconds, the swing in
/// degrees, and the pause between the two swings of one iteration.
pub struct HeadControllerParameters {
    pub pins: Vec<u8>,
    pub speed: u64,
    pub degrees: i32,
    pub turn_wait_milli_seconds: u64,
}

/// What one full oscillation iteration performs when every write succeeds:
/// a forward turn by `degrees`, a pause, a backward turn by the same
/// `degrees`, a pause.
pub open spec fn spec_oscillation_block(
    pins: Seq<u16>,
    hold: u64,
    degrees: int,
    wait: u64,
) -> Seq<IoEvent> {
    spec_turn_events(pins, hold, spec_degrees_to_steps(degrees)) + seq![sleep_event(wait)]
        + spec_turn_events(pins, hold, spec_degrees_to_steps(-degrees)) + seq![sleep_event(wait)]
}

/// `n` full oscillation iterations.
pub open spec fn spec_oscillation_run(
    pins: Seq<u16>,
    hold: u64,
    degrees: int,
    wait: u64,
    n: nat,
) -> Seq<IoEvent>
    decreases n,
{
    if n == 0 {
        Seq::empty()
    } else {
        spec_oscillation_run(pins, hold, degrees, wait, (n - 1) as nat) + spec_oscillation_block(
            pins,
            hold,
            degrees,
            wait,
        )
    }
}

/// Converting a negated degree count negates the converted half-step count:
/// the backward swing of an oscillation is exactly as long as the forward
/// one.
pub proof fn lemma_degrees_to_steps_negate(degrees: int)
    ensures
        spec_degrees_to_steps(-degrees) == -spec_degrees_to_steps(degrees),
{
}

/// `n` oscillation iterations split into the first `m` and the remaining
/// `n - m`.
pub proof fn lemma_oscillation_run_split(
    pins: Seq<u16>,
    hold: u64,
    degrees: int,
    wait: u64,
    m: nat,
    n: nat,
)
    requires
        m <= n,
    ensures
        spec_oscillation_run(pins, hold, degrees, wait, n) == spec_oscillation_run(
            pins,
            hold,
            degrees,
            wait,
            m,
        ) + spec_oscillation_run(pins, hold, degrees, wait, (n - m) as nat),
    decreases n - m,
{
    if m == n {
        assert(spec_oscillation_run(pins, hold, degrees, wait, n) =~= spec_oscillation_run(
            pins,
            hold,
            degrees,
            wait,
            m,
        ) + spec_oscillation_run(pins, hold, degrees, wait, 0));
    } else {
        lemma_oscillation_run_split(pins, hold, degrees, wait, m, (n - 1) as nat);
        assert(spec_oscillation_run(pins, hold, degrees, wait, (n - m) as nat)
            == spec_oscillation_run(pins, hold, degrees, wait, (n - m - 1) as nat)
            + spec_oscillation_block(pins, hold, degrees, wait));
        assert(spec_oscillation_run(pins, hold, degrees, wait, n) =~= spec_oscillation_run(
            pins,
            hold,
            degrees,
            wait,
            m,
        ) + spec_oscillation_run(pins, hold, degrees, wait, (n - m) as nat));
    }
}

/// The setups of several pins in order, each with its own answer to the
/// existence check it began with.
pub open spec fn spec_head_setup_events(pins: Seq<u16>, node_existed: Seq<bool>) -> Seq<IoEvent>
    decreases pins.len(),
{
    if pins.len() == 0 {
        Seq::empty()
    } else {
        setup_ok_events(pins[0], Direction::Out, node_existed[0]) + spec_head_setup_events(
            pins.skip(1),
            node_existed.skip(1),
        )
    }
}

/// Sets up the four coil-phase pins in order on `file_io` (export unless
/// present, then the out direction, for each) and hands back the stepper
/// controller over them. The first setup failure is surfaced and the
/// controller is not created, so no loop can start on half-initialized
/// pins.
pub fn make_head_controller<T: FileIO>(file_io: T, params: &HeadControllerParameters) -> (r:
    Result<StepperMotorController<T>, IoError>)
    requires
        params.pins@.len() == 4,
    ensures
        r is Ok ==> r->Ok_0.wf(),
        r is Ok ==> r->Ok_0.hold_milli_seconds() == params.speed,
        r is Ok ==> r->Ok_0.pin_numbers() == params.pins@.map_values(|p: u8| p as u16),
        r is Ok ==> exists|node_existed: Seq<bool>|
            node_existed.len() == 4 && node_existed[0] == file_io.node_exists(
                spec_pin_path(params.pins@[0] as u16),
            ) && r->Ok_0.log() == file_io.log() + spec_head_setup_events(
                params.pins@.map_values(|p: u8| p as u16),
                node_existed,
            ),
        r is Err ==> exists|i: int|
            0 <= i < 4 && (r->Err_0.path@ == spec_export_path() || r->Err_0.path@
                == spec_direction_path(#[trigger] (params.pins@[i] as u16))),
    {
        let mut io = file_io;
        let ghost log0 = io.log();
        let q0: u16 = params.pins[0] as u16;
        let q1: u16 = params.pins[1] as u16;
        let q2: u16 = params.pins[2] as u16;
        let q3: u16 = params.pins[3] as u16;
        let ghost pin_seq = params.pins@.map_values(|p: u8| p as u16);
        proof {
            assert(pin_seq =~= seq![q0, q1, q2, q3]);
        }
        let ghost e0 = io.node_exists(spec_pin_path(q0));
        let pin0 = match RpiGpioController::new(&mut io, Direction::Out, q0) {
            Ok(p) => p,
            Err(e) => {
                proof {
                    assert(params.pins@[0] as u16 == q0);
                }
                return Err(e);
            },
        };
        let ghost e1 = io.node_exists(spec_pin_path(q1));
        let pin1 = match RpiGpioController::new(&mut io, Direction::Out, q1) {
            Ok(p) => p,
            Err(e) => {
                proof {
                    assert(params.pins@[1] as u16 == q1);
                }
                return Err(e);
            },
        };
        let ghost e2 = io.node_exists(spec_pin_path(q2));
        let pin2 = match RpiGpioController::new(&mut io, Direction::Out, q2) {
            Ok(p) => p,
            Err(e) => {
                proof {
                    assert(params.pins@[2] as u16 == q2);
                }
                return Err(e);
            },
        };
        let ghost e3 = io.node_exists(spec_pin_path(q3));
        let pin3 = match RpiGpioController::new(&mut io, Direction::Out, q3) {
            Ok(p) => p,
            Err(e) => {
                proof {
                    assert(params.pins@[3] as u16 == q3);
                }
                return Err(e);
            },
        };
        let mut pins_vec: Vec<RpiGpioController> = Vec::new();
        pins_vec.push(pin0);
        pins_vec.push(pin1);
        pins_vec.push(pin2);
        pins_vec.push(pin3);
        let controller = StepperMotorController::new(io, pins_vec, params.speed);
        proof {
            let witness = seq![e0, e1, e2, e3];
            let s0 = setup_ok_events(q0, Direction::Out, e0);
            let s1 = setup_ok_events(q1, Direction::Out, e1);
            let s2 = setup_ok_events(q2, Direction::Out, e2);
            let s3 = setup_ok_events(q3, Direction::Out, e3);
            assert(pin_seq.skip(1) =~= seq![q1, q2, q3]);
            assert(pin_seq.skip(1).skip(1) =~= seq![q2, q3]);
            assert(pin_seq.skip(1).skip(1).skip(1) =~= seq![q3]);
            assert(pin_seq.skip(1).skip(1).skip(1).skip(1) =~= Seq::<u16>::empty());
            assert(witness.skip(1) =~= seq![e1, e2, e3]);
            assert(witness.skip(1).skip(1) =~= seq![e2, e3]);
            assert(witness.skip(1).skip(1).skip(1) =~= seq![e3]);
            assert(spec_head_setup_events(pin_seq, witness) == s0 + spec_head_setup_events(
                pin_seq.skip(1),
                witness.skip(1),
            ));
            assert(spec_head_setup_events(seq![q3], seq![e3]) == s3 + spec_head_setup_events(
                seq![q3].skip(1),
                seq![e3].skip(1),
            ));
            assert(seq![q3].skip(1) =~= Seq::<u16>::empty());
            assert(spec_head_setup_events(Seq::<u16>::empty(), seq![e3].skip(1))
                =~= Seq::<IoEvent>::empty());
            assert(spec_head_setup_events(seq![q3], seq![e3]) =~= s3);
            assert(spec_head_setup_events(seq![q2, q3], seq![e2, e3]) =~= s2 + s3) by {
                assert(seq![q2, q3].skip(1) =~= seq![q3]);
                assert(seq![e2, e3].skip(1) =~= seq![e3]);
            }
            assert(spec_head_setup_events(seq![q1, q2, q3], seq![e1, e2, e3]) =~= s1 + (s2 + s3))
                by {
                assert(seq![q1, q2, q3].skip(1) =~= seq![q2, q3]);
                assert(seq![e1, e2, e3].skip(1) =~= seq![e2, e3]);
            }
            assert(spec_head_setup_events(pin_seq, witness) =~= s0 + (s1 + (s2 + s3)));
            assert(controller.log() =~= log0 + spec_head_setup_events(pin_seq, witness));
            assert(controller.pin_numbers() =~= pin_seq);
        }
        Ok(controller)
    }

/// One full oscillation iteration: turn forward by `degrees`, pause for
/// `turn_wait_milli_seconds`, turn back by `degrees`, pause again. A
/// refused pin write ends the iteration there and is surfaced; what was
/// already performed stays in the log. The bounds on `degrees` are machine
/// limits: both converted half-step counts must fit the signed 32-bit count
/// `turn` takes.
pub fn oscillation_cycle<T: FileIO>(
    motor: &mut StepperMotorController<T>,
    degrees: i32,
    turn_wait_milli_seconds: u64,
) -> (r: Result<(), IoError>)
    requires
        old(motor).wf(),
        -0x8000_0000 < degrees,
        -0x7fff_ffff <= spec_degrees_to_steps(degrees as int) <= 0x7fff_ffff,
    ensures
        final(motor).wf(),
        final(motor).pin_numbers() == old(motor).pin_numbers(),
        final(motor).hold_milli_seconds() == old(motor).hold_milli_seconds(),
        r is Ok ==> final(motor).log() == old(motor).log() + spec_oscillation_block(
            old(motor).pin_numbers(),
            old(motor).hold_milli_seconds(),
            degrees as int,
            turn_wait_milli_seconds,
        ),
        r is Err ==> ends_with_refused_write(final(motor).log(), r->Err_0.path@),
        r is Err ==> log_extended_by_cut(
            old(motor).log(),
            final(motor).log(),
            spec_oscillation_block(
                old(motor).pin_numbers(),
                old(motor).hold_milli_seconds(),
                degrees as int,
                turn_wait_milli_seconds,
            ),
        ),
{
    let ghost log0 = motor.log();
    let ghost pins0 = motor.pin_numbers();
    let ghost hold0 = motor.hold_milli_seconds();
    let ghost wait = turn_wait_milli_seconds;
    let ghost forward_events = spec_turn_events(
        pins0,
        hold0,
        spec_degrees_to_steps(degrees as int),
    );
    let ghost backward_events = spec_turn_events(
        pins0,
        hold0,
        spec_degrees_to_steps(-(degrees as int)),
    );
    let ghost block = spec_oscillation_block(pins0, hold0, degrees as int, wait);
    proof {
        lemma_degrees_to_steps_negate(degrees as int);
    }
    match motor.turn_degrees(degrees) {
        Err(e) => {
            proof {
                lemma_cut_extend(
                    log0,
                    motor.log(),
                    forward_events,
                    seq![sleep_event(wait)] + backward_events + seq![sleep_event(wait)],
                );
                assert(forward_events + (
                seq![sleep_event(wait)] + backward_events + seq![sleep_event(wait)]) =~= block);
            }
            return Err(e);
        },
        Ok(()) => {},
    }
    motor.pause(turn_wait_milli_seconds);
    proof {
        assert(motor.log() =~= log0 + (forward_events + seq![sleep_event(wait)]));
    }
    let ghost mid_log = motor.log();
    match motor.turn_degrees(-degrees) {
        Err(e) => {
            proof {
                lemma_cut_prepend(
                    log0,
                    mid_log,
                    motor.log(),
                    forward_events + seq![sleep_event(wait)],
                    backward_events,
                );
                lemma_cut_extend(
                    log0,
                    motor.log(),
                    (forward_events + seq![sleep_event(wait)]) + backward_events,
                    seq![sleep_event(wait)],
                );
                assert(((forward_events + seq![sleep_event(wait)]) + backward_events) + seq![
                    sleep_event(wait),
                ] =~= block);
            }
            return Err(e);
        },
        Ok(()) => {},
    }
    motor.pause(turn_wait_milli_seconds);
    proof {
        assert(motor.log() =~= log0 + block);
    }
    Ok(())
}

/// Runs `n` full oscillation iterations: afterwards the log has grown by
/// exactly `n` oscillation blocks — forward turn, pause, backward turn,
/// pause — or, when a write was refused, by the whole iterations up to that
/// point and the cut-short block the refusal ended, with the error
/// surfaced.
pub fn run_oscillation<T: FileIO>(
    motor: &mut StepperMotorController<T>,
    degrees: i32,
    turn_wait_milli_seconds: u64,
    n: u64,
) -> (r: Result<(), IoError>)
    requires
        old(motor).wf(),
        -0x8000_0000 < degrees,
        -0x7fff_ffff <= spec_degrees_to_steps(degrees as int) <= 0x7fff_ffff,
    ensures
        final(motor).wf(),
        final(motor).pin_numbers() == old(motor).pin_numbers(),
        final(motor).hold_milli_seconds() == old(motor).hold_milli_seconds(),
        r is Ok ==> final(motor).log() == old(motor).log() + spec_oscillation_run(
            old(motor).pin_numbers(),
            old(motor).hold_milli_seconds(),
            degrees as int,
            turn_wait_milli_seconds,
            n as nat,
        ),
        r is Err ==> ends_with_refused_write(final(motor).log(), r->Err_0.path@),
        r is Err ==> log_extended_by_cut(
            old(motor).log(),
            final(motor).log(),
            spec_oscillation_run(
                old(motor).pin_numbers(),
                old(motor).hold_milli_seconds(),
                degrees as int,
                turn_wait_milli_seconds,
                n as nat,
            ),
        ),
{
    let ghost log0 = motor.log();
    let ghost pins0 = motor.pin_numbers();
    let ghost hold0 = motor.hold_milli_seconds();
    let ghost wait = turn_wait_milli_seconds;
    let mut done: u64 = 0;
    while done < n
        invariant
            motor.wf(),
            log0 == old(motor).log(),
            pins0 == old(motor).pin_numbers(),
            hold0 == old(motor).hold_milli_seconds(),
            wait == turn_wait_milli_seconds,
            -0x8000_0000 < degrees,
            -0x7fff_ffff <= spec_degrees_to_steps(degrees as int) <= 0x7fff_ffff,
            motor.pin_numbers() == pins0,
            motor.hold_milli_seconds() == hold0,
            done <= n,
            motor.log() == log0 + spec_oscillation_run(pins0, hold0, degrees as int, wait, done as nat),
        decreases n - done,
    {
        let ghost mid_log = motor.log();
        match oscillation_cycle(motor, degrees, turn_wait_milli_seconds) {
            Err(e) => {
                proof {
                    lemma_cut_prepend(
                        log0,
                        mid_log,
                        motor.log(),
                        spec_oscillation_run(pins0, hold0, degrees as int, wait, done as nat),
                        spec_oscillation_block(pins0, hold0, degrees as int, wait),
                    );
                    assert(spec_oscillation_run(pins0, hold0, degrees as int, wait, done as nat)
                        + spec_oscillation_block(pins0, hold0, degrees as int, wait)
                        == spec_oscillation_run(
                        pins0,
                        hold0,
                        degrees as int,
                        wait,
                        done as nat + 1,
                    ));
                    lemma_oscillation_run_split(
                        pins0,
                        hold0,
                        degrees as int,
                        wait,
                        done as nat + 1,
                        n as nat,
                    );
                    lemma_cut_extend(
                        log0,
                        motor.log(),
                        spec_oscillation_run(pins0, hold0, degrees as int, wait, done as nat + 1),
                        spec_oscillation_run(
                            pins0,
                            hold0,
                            degrees as int,
                            wait,
                            (n as nat - done as nat - 1) as nat,
                        ),
                    );
                }
                return Err(e);
            },
            Ok(()) => {
                proof {
                    assert(motor.log() == log0 + spec_oscillation_run(
                        pins0,
                        hold0,
                        degrees as int,
                        wait,
                        done as nat + 1,
                    ));
                }
            },
        }
        done = done + 1;
    }
    Ok(())
}

} // verus!
