use gpio_stepper::file_io::{InMemoryFileIO, IoRecord};
use gpio_stepper::led_controller::LedController;
use gpio_stepper::gpio::{Direction, RpiGpioController};
use gpio_stepper::light_controller::{
    make_light_controller, next_flicker_index, run_flicker, LightControllerParameters,
    LightFlickerTime,
};

const LED_PIN: u16 = 13;

fn led_write(data: &str, ok: bool) -> IoRecord {
    IoRecord::Write {
        path: format!("/sys/class/gpio/gpio{}/value", LED_PIN),
        data: data.to_string(),
        ok,
    }
}

fn sleep_record(milli_seconds: u64) -> IoRecord {
    IoRecord::Sleep { milli_seconds }
}

fn make_led() -> LedController<InMemoryFileIO> {
    // The pin is set up on a separate backend so that the LED's own log
    // holds only what the commands perform.
    let mut setup_io = InMemoryFileIO::new();
    let pin = RpiGpioController::new(&mut setup_io, Direction::Out, LED_PIN).unwrap();
    LedController::new(InMemoryFileIO::new(), pin)
}

#[test]
fn test_led_is_turned_on_and_off() {
    let mut led = make_led();
    assert!(led.turn_on().is_ok());
    assert!(led.turn_off().is_ok());
    assert_eq!(
        led.into_file_io().records,
        vec![led_write("1", true), led_write("0", true)]
    );
}

#[test]
fn test_toggle_alternates_levels() {
    let mut led = make_led();
    assert!(led.toggle().is_ok());
    assert!(led.toggle().is_ok());
    assert!(led.toggle().is_ok());
    assert_eq!(
        led.into_file_io().records,
        vec![led_write("1", true), led_write("0", true), led_write("1", true)]
    );
}

#[test]
fn test_next_flicker_index_wraps() {
    assert_eq!(next_flicker_index(0, 3), 1);
    assert_eq!(next_flicker_index(1, 3), 2);
    assert_eq!(next_flicker_index(2, 3), 0);
    assert_eq!(next_flicker_index(0, 1), 0);
}

#[test]
fn test_single_entry_flicker_run() {
    let mut led = make_led();
    let params = LightControllerParameters {
        flickers: vec![LightFlickerTime { on_time: 100, off_time: 50 }],
    };
    run_flicker(&mut led, &params, 3);
    let one_iteration = vec![
        led_write("1", true),
        sleep_record(100),
        led_write("0", true),
        sleep_record(50),
    ];
    let mut expected = Vec::new();
    for _ in 0..3 {
        expected.extend(one_iteration.iter().cloned());
    }
    assert_eq!(led.into_file_io().records, expected);
}

#[test]
fn test_flicker_run_walks_the_pattern_cyclically() {
    let mut led = make_led();
    let params = LightControllerParameters {
        flickers: vec![
            LightFlickerTime { on_time: 1, off_time: 2 },
            LightFlickerTime { on_time: 3, off_time: 4 },
        ],
    };
    run_flicker(&mut led, &params, 3);
    let expected = vec![
        led_write("1", true),
        sleep_record(1),
        led_write("0", true),
        sleep_record(2),
        led_write("1", true),
        sleep_record(3),
        led_write("0", true),
        sleep_record(4),
        led_write("1", true),
        sleep_record(1),
        led_write("0", true),
        sleep_record(2),
    ];
    assert_eq!(led.into_file_io().records, expected);
}

#[test]
fn test_flicker_carries_on_past_refused_writes() {
    let mut setup_io = InMemoryFileIO::new();
    let pin = RpiGpioController::new(&mut setup_io, Direction::Out, LED_PIN).unwrap();
    // Every write is refused; the flicker still runs its full iterations.
    let mut led = LedController::new(InMemoryFileIO::scripted(0, false), pin);
    let params = LightControllerParameters {
        flickers: vec![LightFlickerTime { on_time: 100, off_time: 50 }],
    };
    run_flicker(&mut led, &params, 2);
    let one_iteration = vec![
        led_write("1", false),
        sleep_record(100),
        led_write("0", false),
        sleep_record(50),
    ];
    let mut expected = Vec::new();
    for _ in 0..2 {
        expected.extend(one_iteration.iter().cloned());
    }
    assert_eq!(led.into_file_io().records, expected);
}

#[test]
fn test_make_light_controller_sets_the_pin_up() {
    let led = make_light_controller(InMemoryFileIO::new(), LED_PIN).unwrap();
    assert_eq!(
        led.into_file_io().records,
        vec![
            IoRecord::Write {
                path: "/sys/class/gpio/export".to_string(),
                data: LED_PIN.to_string(),
                ok: true,
            },
            sleep_record(50),
            IoRecord::Write {
                path: format!("/sys/class/gpio/gpio{}/direction", LED_PIN),
                data: "out".to_string(),
                ok: true,
            },
            sleep_record(50),
        ]
    );
}

#[test]
fn test_make_light_controller_surfaces_setup_failure() {
    let result = make_light_controller(InMemoryFileIO::scripted(0, false), LED_PIN);
    let error = match result {
        Err(error) => error,
        Ok(_) => panic!("the refused export write must fail the setup"),
    };
    assert_eq!(error.path, "/sys/class/gpio/export");
}
