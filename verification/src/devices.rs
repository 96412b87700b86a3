//! Peripheral devices driven through a PoKeys device.

pub mod spi;

pub use spi::{DisplayMode, Max7219, TextJustification};
