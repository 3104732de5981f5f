//! Control logic of a serial-driven RGB LED-matrix display: the HUB75 scan
//! sequence, the framed command protocol and the animated text engine.

pub mod command_interpreter;
pub mod crc;
pub mod display;
pub mod gamma;
pub mod hub75;
pub mod orchestrator;
pub mod shapes;
pub mod uart;
