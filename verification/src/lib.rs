//! Drives a 4-phase stepper motor and indicator LEDs over a sysfs-style GPIO
//! file interface.
//!
//! All hardware access goes through the [`file_io::FileIO`] backend trait, so
//! the pin setup, the half-step sequencing and the control-loop bodies are
//! verified against the exact sequence of writes and pauses they perform,
//! while the actual file system (or an in-memory double) is injected.

pub mod file_io;
pub mod gpio;
pub mod head_controller;
pub mod input_output;
pub mod led_controller;
pub mod light_controller;
pub mod stepper_motor_controller;
