//! Motor driver step settings.

use vstd::prelude::*;

verus! {

/// Full step (1/1).
pub const FULL_STEP: u8 = 0;
/// Half step, non-circular (1/2).
pub const HALF_NON_CIRCULAR: u8 = 1;
/// Half step (1/2).
pub const HALF_STEP: u8 = 2;
/// Quarter step (1/4).
pub const QUARTER_STEP: u8 = 3;
/// Eighth step (1/8).
pub const EIGHTH_STEP: u8 = 4;
/// Sixteenth step (1/16).
pub const SIXTEENTH_STEP: u8 = 5;
/// Thirty-second step (1/32).
pub const THIRTY_SECOND_STEP: u8 = 6;
/// 1/128 step.
pub const STEP_128: u8 = 7;
/// 1/256 step.
pub const STEP_256: u8 = 8;

} // verus!
