//! PoKeys device library: protocol encoding and decoding, device state,
//! peripheral configuration and the rules that govern them.

pub mod bits;
pub mod communication;
pub mod device;
pub mod devices;
pub mod encoders;
pub mod keyboard_matrix;
pub mod lcd;
pub mod matrix;
pub mod models;
pub mod network;
pub mod oem_parameters;
pub mod pulse_engine;
pub mod pwm;
pub mod sensors;
pub mod error;
pub mod io;
pub mod text;

pub use error::{PoKeysError, RecoveryStrategy, Result, ReturnCode};
pub mod types;
pub mod uspibridge;
pub mod model_manager;

use vstd::prelude::*;

verus! {

/// The library version.
pub const VERSION: &'static str = "0.3.0";

/// The library version, as a string.
pub fn version() -> (r: String)
    ensures
        r@ == VERSION@,
{
    text::string_of(VERSION)
}

} // verus!
