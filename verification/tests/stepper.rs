use gpio_stepper::file_io::{InMemoryFileIO, IoRecord};
use gpio_stepper::gpio::{Direction, RpiGpioController};
use gpio_stepper::stepper_motor_controller::StepperMotorController;

const PINS: [u16; 4] = [12, 16, 20, 21];
const HOLD: u64 = 5;

fn value_write(pin: u16, data: &str, ok: bool) -> IoRecord {
    IoRecord::Write {
        path: format!("/sys/class/gpio/gpio{}/value", pin),
        data: data.to_string(),
        ok,
    }
}

fn hold_record() -> IoRecord {
    IoRecord::Sleep { milli_seconds: HOLD }
}

fn push_single(expected: &mut Vec<IoRecord>, index: usize) {
    expected.push(value_write(PINS[index], "1", true));
    expected.push(hold_record());
    expected.push(value_write(PINS[index], "0", true));
}

fn push_dual(expected: &mut Vec<IoRecord>, first: usize, second: usize) {
    expected.push(value_write(PINS[first], "1", true));
    expected.push(value_write(PINS[second], "1", true));
    expected.push(hold_record());
    expected.push(value_write(PINS[first], "0", true));
    expected.push(value_write(PINS[second], "0", true));
}

fn push_half_step(expected: &mut Vec<IoRecord>, step: u8) {
    match step {
        1 => push_single(expected, 3),
        2 => push_dual(expected, 3, 2),
        3 => push_single(expected, 2),
        4 => push_dual(expected, 2, 1),
        5 => push_single(expected, 1),
        6 => push_dual(expected, 1, 0),
        7 => push_single(expected, 0),
        _ => push_dual(expected, 3, 0),
    }
}

fn expected_cycles(count: i64) -> Vec<IoRecord> {
    let mut expected = Vec::new();
    if count >= 0 {
        for _ in 0..count {
            for step in 1..=8 {
                push_half_step(&mut expected, step);
            }
        }
    } else {
        for _ in 0..(-count) {
            for step in (1..=8).rev() {
                push_half_step(&mut expected, step);
            }
        }
    }
    expected
}

fn make_motor() -> StepperMotorController<InMemoryFileIO> {
    make_motor_with_io(InMemoryFileIO::new())
}

fn make_motor_with_io(io: InMemoryFileIO) -> StepperMotorController<InMemoryFileIO> {
    // The pins are set up on a separate backend so that the motor's own log
    // holds only what the turns perform.
    let mut setup_io = InMemoryFileIO::new();
    let mut pins = Vec::new();
    for &pin in PINS.iter() {
        pins.push(RpiGpioController::new(&mut setup_io, Direction::Out, pin).unwrap());
    }
    StepperMotorController::new(io, pins, HOLD)
}

#[test]
fn test_turn_one_cycle_forward_sequence() {
    let mut motor = make_motor();
    assert!(motor.turn(1).is_ok());
    assert_eq!(motor.into_file_io().records, expected_cycles(1));
}

#[test]
fn test_turn_one_cycle_backward_sequence() {
    let mut motor = make_motor();
    assert!(motor.turn(-1).is_ok());
    assert_eq!(motor.into_file_io().records, expected_cycles(-1));
}

#[test]
fn test_turn_repeats_cycles() {
    let mut motor = make_motor();
    assert!(motor.turn(3).is_ok());
    let records = motor.into_file_io().records;
    // 8 half-steps per cycle: 24 write attempts and 8 holds each.
    assert_eq!(records.len(), 3 * 32);
    assert_eq!(records, expected_cycles(3));
}

#[test]
fn test_turn_zero_writes_nothing() {
    let mut motor = make_motor();
    assert!(motor.turn(0).is_ok());
    assert!(motor.into_file_io().records.is_empty());
}

#[test]
fn test_turn_degrees_zero_writes_nothing() {
    let mut motor = make_motor();
    assert!(motor.turn_degrees(0).is_ok());
    assert!(motor.into_file_io().records.is_empty());
}

#[test]
fn test_turn_degrees_full_revolution_matches_512_cycles() {
    let mut by_degrees = make_motor();
    assert!(by_degrees.turn_degrees(360).is_ok());
    let mut by_cycles = make_motor();
    assert!(by_cycles.turn(512).is_ok());
    assert_eq!(by_degrees.into_file_io().records, by_cycles.into_file_io().records);
}

#[test]
fn test_turn_degrees_negative_revolution_matches_backward_512() {
    let mut by_degrees = make_motor();
    assert!(by_degrees.turn_degrees(-360).is_ok());
    let mut by_cycles = make_motor();
    assert!(by_cycles.turn(-512).is_ok());
    assert_eq!(by_degrees.into_file_io().records, by_cycles.into_file_io().records);
}

#[test]
fn test_turn_degrees_truncates_toward_zero() {
    // 100 * 512 / 360 is 142.2..., truncated to 142.
    let mut by_degrees = make_motor();
    assert!(by_degrees.turn_degrees(100).is_ok());
    assert_eq!(by_degrees.into_file_io().records, expected_cycles(142));
    // The same magnitude backward.
    let mut backward = make_motor();
    assert!(backward.turn_degrees(-100).is_ok());
    assert_eq!(backward.into_file_io().records, expected_cycles(-142));
}

#[test]
fn test_refused_write_aborts_the_turn() {
    // Writes are accepted up to the fifth; the sixth write attempt (the low
    // write of pin index 2 inside half-step 2) is refused.
    let mut motor = make_motor_with_io(InMemoryFileIO::scripted(5, false));
    let result = motor.turn(1);
    assert!(result.is_err());
    assert_eq!(
        result.unwrap_err().path,
        format!("/sys/class/gpio/gpio{}/value", PINS[2])
    );
    let mut expected = Vec::new();
    push_half_step(&mut expected, 1);
    expected.push(value_write(PINS[3], "1", true));
    expected.push(value_write(PINS[2], "1", true));
    expected.push(hold_record());
    expected.push(value_write(PINS[3], "0", true));
    expected.push(value_write(PINS[2], "0", false));
    assert_eq!(motor.into_file_io().records, expected);
}
