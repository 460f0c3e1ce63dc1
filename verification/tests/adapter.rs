use gpio_stepper::file_io::{ExternalFileIO, IoError, RawFileIO};
use gpio_stepper::gpio::{Direction, PinValue, RpiGpioController};

/// A raw backend that notes every call it is handed, and can be told to
/// refuse all writes.
struct RecordingRaw {
    calls: Vec<String>,
    refuse_writes: bool,
    nodes_present: bool,
}

impl RawFileIO for RecordingRaw {
    fn write(&mut self, file_path: &str, data: &str) -> Result<(), IoError> {
        self.calls.push(format!("write {} {}", file_path, data));
        if self.refuse_writes {
            Err(IoError { path: "somewhere else".to_string(), message: "refused".to_string() })
        } else {
            Ok(())
        }
    }

    fn read(&self, file_path: &str) -> Result<String, IoError> {
        let _ = file_path;
        Ok("1".to_string())
    }

    fn path_exists(&self, path: &str) -> bool {
        let _ = path;
        self.nodes_present
    }

    fn sleep(&mut self, milli_seconds: u64) {
        self.calls.push(format!("sleep {}", milli_seconds));
    }
}

#[test]
fn test_adapter_hands_every_call_to_the_raw_backend() {
    let raw = RecordingRaw { calls: Vec::new(), refuse_writes: false, nodes_present: false };
    let mut io = ExternalFileIO::new(raw);
    let pin = RpiGpioController::new(&mut io, Direction::Out, 4).unwrap();
    pin.write(&mut io, PinValue::High).unwrap();
    assert_eq!(
        io.into_raw().calls,
        vec![
            "write /sys/class/gpio/export 4".to_string(),
            "sleep 50".to_string(),
            "write /sys/class/gpio/gpio4/direction out".to_string(),
            "sleep 50".to_string(),
            "write /sys/class/gpio/gpio4/value 1".to_string(),
        ]
    );
}

#[test]
fn test_adapter_skips_export_when_the_node_exists() {
    let raw = RecordingRaw { calls: Vec::new(), refuse_writes: false, nodes_present: true };
    let mut io = ExternalFileIO::new(raw);
    assert!(RpiGpioController::new(&mut io, Direction::Out, 4).is_ok());
    assert_eq!(
        io.into_raw().calls,
        vec![
            "sleep 50".to_string(),
            "write /sys/class/gpio/gpio4/direction out".to_string(),
            "sleep 50".to_string(),
        ]
    );
}

#[test]
fn test_adapter_normalizes_the_failing_path() {
    // The raw backend reports a wrong path in its error; the adapter
    // replaces it with the path the write actually went to.
    let raw = RecordingRaw { calls: Vec::new(), refuse_writes: true, nodes_present: false };
    let mut io = ExternalFileIO::new(raw);
    let result = RpiGpioController::new(&mut io, Direction::Out, 4);
    assert!(result.is_err());
    assert_eq!(result.unwrap_err().path, "/sys/class/gpio/export");
    assert_eq!(io.into_raw().calls, vec!["write /sys/class/gpio/export 4".to_string()]);
}
