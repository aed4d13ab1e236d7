//! Verified core of a myoelectric prosthetic arm controller: command
//! parsing, sample windowing, gesture decisions and servo pulse timing.

pub mod bus;
pub mod command;
pub mod gesture;
pub mod model;
pub mod pio_pwm;
pub mod report;
pub mod sensor;
pub mod servo;
