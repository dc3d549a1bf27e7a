//! The cube's motion: a steady spin about two axes and a vertical bob.

use vstd::prelude::*;
use crate::frames::{accumulated_turn, elapsed_time, turn, turned};
use crate::frames::lemma_accumulated_turn_is_rate_times_elapsed;

verus! {

/// Spin about the vertical axis, in milliradians per second.
pub const YAW_RATE: u64 = 800;

/// Spin about the sideways axis, in milliradians per second.
pub const PITCH_RATE: u64 = 500;

/// How fast the phase of the bob advances, in milliradians per second.
pub const BOB_RATE: u64 = 2_000;

/// Greatest height of the bob above and below the resting place, in
/// thousandths of a world unit.
pub const BOB_AMPLITUDE: u64 = 500;

/// What one frame does to the cube. All three angles are in nanoradians.
#[derive(Clone, Copy, Debug, PartialEq, Eq, Structural)]
pub struct CubeMotion {
    /// Turn about the vertical axis, to be applied first.
    pub yaw: u128,
    /// Turn about the sideways axis, to be applied after the yaw.
    pub pitch: u128,
    /// Phase of the bob. The cube's height is `BOB_AMPLITUDE` times the sine
    /// of this angle, set anew each frame.
    pub bob_phase: u128,
}

/// The phase of the bob once `elapsed` microseconds have passed since the
/// start. It depends on nothing else: no earlier frame leaves a trace in it.
pub open spec fn bob_phase(elapsed: u64) -> int {
    turn(BOB_RATE as int, elapsed)
}

/// Yaw that has built up over a run of frames.
pub open spec fn total_yaw(dts: Seq<u64>) -> int {
    accumulated_turn(YAW_RATE as int, dts)
}

/// Pitch that has built up over a run of frames.
pub open spec fn total_pitch(dts: Seq<u64>) -> int {
    accumulated_turn(PITCH_RATE as int, dts)
}

/// The cube's motion for a frame of `dt` microseconds that ends `elapsed`
/// microseconds after the start.
pub fn animate_cube(dt: u64, elapsed: u64) -> (motion: CubeMotion)
    ensures
        motion.yaw == turn(YAW_RATE as int, dt),
        motion.pitch == turn(PITCH_RATE as int, dt),
        motion.bob_phase == bob_phase(elapsed),
{
    CubeMotion {
        yaw: turned(YAW_RATE, dt),
        pitch: turned(PITCH_RATE, dt),
        bob_phase: turned(BOB_RATE, elapsed),
    }
}

/// Over any run of frames the cube has turned by 0.8 radians about the
/// vertical axis and by 0.5 radians about the sideways axis for each second of
/// the run, however the time was cut into frames.
pub proof fn lemma_cube_spin_follows_elapsed_time(dts: Seq<u64>)
    ensures
        total_yaw(dts) == 800 * elapsed_time(dts),
        total_pitch(dts) == 500 * elapsed_time(dts),
{
    lemma_accumulated_turn_is_rate_times_elapsed(YAW_RATE as int, dts);
    lemma_accumulated_turn_is_rate_times_elapsed(PITCH_RATE as int, dts);
}

} // verus!
