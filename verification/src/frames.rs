//! Frame times and quantities that accumulate over a run of frames.
//!
//! A frame time is a whole number of microseconds. An angular rate is a whole
//! number of milliradians per second, so a rate times a frame time is an angle
//! in nanoradians, with nothing rounded away.

use vstd::prelude::*;

verus! {

/// Total time of a run of frames, in microseconds.
pub open spec fn elapsed_time(dts: Seq<u64>) -> int
    decreases dts.len(),
{
    if dts.len() == 0 {
        0
    } else {
        elapsed_time(dts.drop_last()) + dts.last()
    }
}

/// The angle, in nanoradians, that turning at `rate` milliradians per second
/// adds during one frame of `dt` microseconds.
pub open spec fn turn(rate: int, dt: u64) -> int {
    rate * dt
}

/// The angle, in nanoradians, turned at `rate` milliradians per second during
/// `dt` microseconds. The result is wide enough for every rate and time.
pub fn turned(rate: u64, dt: u64) -> (angle: u128)
    ensures
        angle == turn(rate as int, dt),
{
    let wide_rate: u128 = rate as u128;
    let wide_dt: u128 = dt as u128;
    assert(wide_rate * wide_dt <= 0xffff_ffff_ffff_ffff * 0xffff_ffff_ffff_ffff)
        by (nonlinear_arith)
        requires
            wide_rate <= 0xffff_ffff_ffff_ffff,
            wide_dt <= 0xffff_ffff_ffff_ffff,
    ;
    wide_rate * wide_dt
}

/// The angle that has built up when every frame of the run adds its own turn
/// to what the frames before it left.
pub open spec fn accumulated_turn(rate: int, dts: Seq<u64>) -> int
    decreases dts.len(),
{
    if dts.len() == 0 {
        0
    } else {
        accumulated_turn(rate, dts.drop_last()) + turn(rate, dts.last())
    }
}

/// Turning frame by frame reaches the rate times the total time, however the
/// time is cut into frames.
pub proof fn lemma_accumulated_turn_is_rate_times_elapsed(rate: int, dts: Seq<u64>)
    ensures
        accumulated_turn(rate, dts) == rate * elapsed_time(dts),
    decreases dts.len(),
{
    if dts.len() == 0 {
        assert(rate * 0 == 0);
    } else {
        lemma_accumulated_turn_is_rate_times_elapsed(rate, dts.drop_last());
        let before = elapsed_time(dts.drop_last());
        let dt = dts.last() as int;
        assert(rate * before + rate * dt == rate * (before + dt)) by (nonlinear_arith);
    }
}

} // verus!
