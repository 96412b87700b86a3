//! Devices on the SPI bus.

pub mod max7219;

pub use max7219::{DisplayMode, Max7219, TextJustification};
