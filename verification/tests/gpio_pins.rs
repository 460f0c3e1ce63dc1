use gpio_stepper::file_io::{InMemoryFileIO, IoRecord};
use gpio_stepper::gpio::{Direction, PinValue, RpiGpioController};

fn write_record(path: &str, data: &str, ok: bool) -> IoRecord {
    IoRecord::Write { path: path.to_string(), data: data.to_string(), ok }
}

fn sleep_record(milli_seconds: u64) -> IoRecord {
    IoRecord::Sleep { milli_seconds }
}

#[test]
fn test_create_new_gpio_controller() {
    let mut file_io = InMemoryFileIO::new();
    let gpio_controller = RpiGpioController::new(&mut file_io, Direction::Out, 1);
    assert!(gpio_controller.is_ok());
}

#[test]
fn test_pin_export_fails_in_creation() {
    let mut file_io = InMemoryFileIO::scripted(0, false);
    let gpio_controller = RpiGpioController::new(&mut file_io, Direction::Out, 1);
    assert!(gpio_controller.is_err());
    let error = gpio_controller.unwrap_err();
    assert_eq!(error.path, "/sys/class/gpio/export");
    // The failed export attempt is recorded, and no direction write was made.
    assert_eq!(file_io.records, vec![write_record("/sys/class/gpio/export", "1", false)]);
}

#[test]
fn test_that_high_pin_value_is_written_correctly() {
    let mut file_io = InMemoryFileIO::new();
    let gpio_controller = RpiGpioController::new(&mut file_io, Direction::Out, 1).unwrap();
    let _ = gpio_controller.write(&mut file_io, PinValue::High);
    assert_eq!(
        file_io.records.last().unwrap(),
        &write_record("/sys/class/gpio/gpio1/value", "1", true)
    );
}

#[test]
fn test_that_low_pin_value_is_written_correctly() {
    let mut file_io = InMemoryFileIO::new();
    let gpio_controller = RpiGpioController::new(&mut file_io, Direction::Out, 1).unwrap();
    let _ = gpio_controller.write(&mut file_io, PinValue::Low);
    assert_eq!(
        file_io.records.last().unwrap(),
        &write_record("/sys/class/gpio/gpio1/value", "0", true)
    );
}

#[test]
fn test_full_setup_sequence_is_recorded() {
    let mut file_io = InMemoryFileIO::new();
    let gpio_controller = RpiGpioController::new(&mut file_io, Direction::Out, 21);
    assert!(gpio_controller.is_ok());
    assert_eq!(
        file_io.records,
        vec![
            write_record("/sys/class/gpio/export", "21", true),
            sleep_record(50),
            write_record("/sys/class/gpio/gpio21/direction", "out", true),
            sleep_record(50),
        ]
    );
}

#[test]
fn test_input_direction_writes_in() {
    let mut file_io = InMemoryFileIO::new();
    let gpio_controller = RpiGpioController::new(&mut file_io, Direction::In, 3);
    assert!(gpio_controller.is_ok());
    assert_eq!(
        file_io.records[2],
        write_record("/sys/class/gpio/gpio3/direction", "in", true)
    );
}

#[test]
fn test_existing_pin_node_skips_export() {
    let mut file_io = InMemoryFileIO::scripted(usize::MAX, true);
    let gpio_controller = RpiGpioController::new(&mut file_io, Direction::Out, 7);
    assert!(gpio_controller.is_ok());
    // The export write is skipped entirely, the direction write still made.
    assert_eq!(
        file_io.records,
        vec![
            sleep_record(50),
            write_record("/sys/class/gpio/gpio7/direction", "out", true),
            sleep_record(50),
        ]
    );
}

#[test]
fn test_direction_write_failure_fails_creation() {
    // The pin node already exists, so the first (and failing) write is the
    // direction write.
    let mut file_io = InMemoryFileIO::scripted(0, true);
    let gpio_controller = RpiGpioController::new(&mut file_io, Direction::Out, 7);
    assert!(gpio_controller.is_err());
    assert_eq!(gpio_controller.unwrap_err().path, "/sys/class/gpio/gpio7/direction");
    assert_eq!(
        file_io.records,
        vec![
            sleep_record(50),
            write_record("/sys/class/gpio/gpio7/direction", "out", false),
        ]
    );
}

#[test]
fn test_read_is_a_high_stub() {
    let mut file_io = InMemoryFileIO::new();
    let gpio_controller = RpiGpioController::new(&mut file_io, Direction::In, 2).unwrap();
    assert_eq!(gpio_controller.read().unwrap(), PinValue::High);
}

#[test]
fn test_multi_digit_pin_number_paths() {
    let mut file_io = InMemoryFileIO::new();
    let gpio_controller = RpiGpioController::new(&mut file_io, Direction::Out, 255).unwrap();
    let _ = gpio_controller.write(&mut file_io, PinValue::High);
    assert_eq!(file_io.records[0], write_record("/sys/class/gpio/export", "255", true));
    assert_eq!(
        file_io.records.last().unwrap(),
        &write_record("/sys/class/gpio/gpio255/value", "1", true)
    );
}
