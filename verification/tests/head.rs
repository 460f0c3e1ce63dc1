use gpio_stepper::file_io::{InMemoryFileIO, IoRecord};
use gpio_stepper::head_controller::{
    make_head_controller, oscillation_cycle, run_oscillation, HeadControllerParameters,
};

const PINS: [u8; 4] = [12, 16, 20, 21];
const HOLD: u64 = 5;
const TURN_WAIT: u64 = 3000;

fn value_write(pin: u8, data: &str, ok: bool) -> IoRecord {
    IoRecord::Write {
        path: format!("/sys/class/gpio/gpio{}/value", pin),
        data: data.to_string(),
        ok,
    }
}

fn push_single(expected: &mut Vec<IoRecord>, index: usize) {
    expected.push(value_write(PINS[index], "1", true));
    expected.push(IoRecord::Sleep { milli_seconds: HOLD });
    expected.push(value_write(PINS[index], "0", true));
}

fn push_dual(expected: &mut Vec<IoRecord>, first: usize, second: usize) {
    expected.push(value_write(PINS[first], "1", true));
    expected.push(value_write(PINS[second], "1", true));
    expected.push(IoRecord::Sleep { milli_seconds: HOLD });
    expected.push(value_write(PINS[first], "0", true));
    expected.push(value_write(PINS[second], "0", true));
}

fn push_half_step(expected: &mut Vec<IoRecord>, step: u8) {
    match step {
        1 => push_single(expected, 3),
        2 => push_dual(expected, 3, 2),
        3 => push_single(expected, 2),
        4 => push_dual(expected, 2, 1),
        5 => push_single(expected, 1),
        6 => push_dual(expected, 1, 0),
        7 => push_single(expected, 0),
        _ => push_dual(expected, 3, 0),
    }
}

fn push_cycles(expected: &mut Vec<IoRecord>, count: i64) {
    if count >= 0 {
        for _ in 0..count {
            for step in 1..=8 {
                push_half_step(expected, step);
            }
        }
    } else {
        for _ in 0..(-count) {
            for step in (1..=8).rev() {
                push_half_step(expected, step);
            }
        }
    }
}

fn parameters() -> HeadControllerParameters {
    HeadControllerParameters {
        pins: PINS.to_vec(),
        speed: HOLD,
        degrees: 30,
        turn_wait_milli_seconds: TURN_WAIT,
    }
}

fn expected_setup() -> Vec<IoRecord> {
    let mut expected = Vec::new();
    for &pin in PINS.iter() {
        expected.push(IoRecord::Write {
            path: "/sys/class/gpio/export".to_string(),
            data: pin.to_string(),
            ok: true,
        });
        expected.push(IoRecord::Sleep { milli_seconds: 50 });
        expected.push(IoRecord::Write {
            path: format!("/sys/class/gpio/gpio{}/direction", pin),
            data: "out".to_string(),
            ok: true,
        });
        expected.push(IoRecord::Sleep { milli_seconds: 50 });
    }
    expected
}

#[test]
fn test_make_head_controller_sets_all_four_pins_up() {
    let motor = make_head_controller(InMemoryFileIO::new(), &parameters()).unwrap();
    assert_eq!(motor.into_file_io().records, expected_setup());
}

#[test]
fn test_make_head_controller_surfaces_setup_failure() {
    // The writes for the first two pins (two each) succeed; the export of
    // the third pin is refused.
    let result = make_head_controller(InMemoryFileIO::scripted(4, false), &parameters());
    let error = match result {
        Err(error) => error,
        Ok(_) => panic!("the refused export write must fail the setup"),
    };
    assert_eq!(error.path, "/sys/class/gpio/export");
}

#[test]
fn test_oscillation_cycle_turns_there_and_back() {
    let mut motor = make_head_controller(InMemoryFileIO::new(), &parameters()).unwrap();
    let setup_len = expected_setup().len();
    assert!(oscillation_cycle(&mut motor, 30, TURN_WAIT).is_ok());
    // 30 degrees converts to 30 * 512 / 360 = 42 cycles (truncated).
    let mut expected = expected_setup();
    push_cycles(&mut expected, 42);
    expected.push(IoRecord::Sleep { milli_seconds: TURN_WAIT });
    push_cycles(&mut expected, -42);
    expected.push(IoRecord::Sleep { milli_seconds: TURN_WAIT });
    let records = motor.into_file_io().records;
    assert_eq!(records.len(), setup_len + 2 * 42 * 32 + 2);
    assert_eq!(records, expected);
}

#[test]
fn test_oscillation_run_alternates_until_told_to_stop() {
    let mut motor = make_head_controller(InMemoryFileIO::new(), &parameters()).unwrap();
    assert!(run_oscillation(&mut motor, 30, TURN_WAIT, 2).is_ok());
    let mut expected = expected_setup();
    for _ in 0..2 {
        push_cycles(&mut expected, 42);
        expected.push(IoRecord::Sleep { milli_seconds: TURN_WAIT });
        push_cycles(&mut expected, -42);
        expected.push(IoRecord::Sleep { milli_seconds: TURN_WAIT });
    }
    assert_eq!(motor.into_file_io().records, expected);
}

#[test]
fn test_oscillation_stops_at_a_refused_write() {
    // All eight setup writes succeed; the very first value write of the
    // oscillation is refused.
    let mut motor = make_head_controller(InMemoryFileIO::scripted(8, false), &parameters()).unwrap();
    let result = run_oscillation(&mut motor, 30, TURN_WAIT, 2);
    let error = match result {
        Err(error) => error,
        Ok(()) => panic!("the refused value write must end the oscillation"),
    };
    assert_eq!(error.path, format!("/sys/class/gpio/gpio{}/value", PINS[3]));
    let mut expected = expected_setup();
    expected.push(value_write(PINS[3], "1", false));
    assert_eq!(motor.into_file_io().records, expected);
}
