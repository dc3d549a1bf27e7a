//! The camera's orbit: one angle that grows with time, never wrapped.

use vstd::prelude::*;
use crate::frames::{accumulated_turn, elapsed_time, turn};
use crate::frames::lemma_accumulated_turn_is_rate_times_elapsed;

verus! {

/// Height of the orbit's middle above the ground plane of the origin, in
/// thousandths of a world unit.
pub const ORBIT_HEIGHT: u64 = 6_000;

/// How far the camera rises above and sinks below `ORBIT_HEIGHT`, in
/// thousandths of a world unit. The rise follows the sine of half the orbit
/// angle, so one full rise and fall takes two orbits.
pub const ORBIT_BOB: u64 = 2_000;

/// Where a camera is on its orbit around the vertical axis through the origin.
#[derive(Clone, Copy, Debug, PartialEq, Eq, Structural)]
pub struct OrbitCamera {
    /// Distance from the axis, in thousandths of a world unit. Positive.
    pub radius: u64,
    /// Angular speed in milliradians per second. Negative turns the other way.
    pub speed: i64,
    /// Orbit angle in nanoradians.
    pub angle: i64,
}

impl OrbitCamera {
    /// A camera is well formed when its orbit has a positive radius.
    pub open spec fn wf(self) -> bool {
        self.radius > 0
    }

    /// The angle after one more frame of `dt` microseconds.
    pub open spec fn angle_after(self, dt: u64) -> int {
        self.angle + turn(self.speed as int, dt)
    }

    /// Whether the angle after one more frame still fits the field.
    pub open spec fn can_advance(self, dt: u64) -> bool {
        i64::MIN <= self.angle_after(dt) <= i64::MAX
    }

    /// The angle after a run of frames, each adding its turn to the last.
    pub open spec fn angle_after_frames(self, dts: Seq<u64>) -> int {
        self.angle + accumulated_turn(self.speed as int, dts)
    }

    /// The camera as the scene starts with it: ten units out, turning at 0.3
    /// radians per second, at angle zero.
    pub fn initial() -> (camera: OrbitCamera)
        ensures
            camera == (OrbitCamera { radius: 10_000, speed: 300, angle: 0 }),
            camera.wf(),
    {
        OrbitCamera { radius: 10_000, speed: 300, angle: 0 }
    }
}

/// Moves the camera along its orbit by one frame of `dt` microseconds.
///
/// The angle grows by the speed times the frame time and is never wrapped or
/// clamped. When the new angle would no longer fit the field, the camera is
/// left where it is and the result is `false`. With a positive speed the angle
/// never goes down, and it goes up whenever a frame of positive length moves
/// the camera.
pub fn animate_camera(orbit: &mut OrbitCamera, dt: u64) -> (moved: bool)
    ensures
        moved == old(orbit).can_advance(dt),
        moved ==> final(orbit).angle == old(orbit).angle_after(dt),
        !moved ==> final(orbit).angle == old(orbit).angle,
        final(orbit).radius == old(orbit).radius,
        final(orbit).speed == old(orbit).speed,
        old(orbit).wf() ==> final(orbit).wf(),
        old(orbit).speed > 0 ==> old(orbit).angle <= final(orbit).angle,
        old(orbit).speed > 0 && dt > 0 && moved ==> old(orbit).angle < final(orbit).angle,
{
    proof {
        if orbit.speed > 0 {
            lemma_angle_never_decreases(*orbit, dt);
        }
    }
    let speed: i128 = orbit.speed as i128;
    let frame: i128 = dt as i128;
    assert(-0x8000_0000_0000_0000 * 0xffff_ffff_ffff_ffff <= speed * frame
        <= 0x7fff_ffff_ffff_ffff * 0xffff_ffff_ffff_ffff) by (nonlinear_arith)
        requires
            -0x8000_0000_0000_0000 <= speed <= 0x7fff_ffff_ffff_ffff,
            0 <= frame <= 0xffff_ffff_ffff_ffff,
    ;
    let next: i128 = orbit.angle as i128 + speed * frame;
    if i64::MIN as i128 <= next && next <= i64::MAX as i128 {
        orbit.angle = next as i64;
        true
    } else {
        false
    }
}

/// While the speed is positive a frame never turns the camera back, and a frame
/// of positive length turns it forward.
pub proof fn lemma_angle_never_decreases(camera: OrbitCamera, dt: u64)
    requires
        camera.speed > 0,
    ensures
        camera.angle <= camera.angle_after(dt),
        dt > 0 ==> camera.angle < camera.angle_after(dt),
{
    let speed = camera.speed as int;
    let frame = dt as int;
    assert(0 <= speed * frame && (frame > 0 ==> 0 < speed * frame)) by (nonlinear_arith)
        requires
            speed > 0,
            frame >= 0,
    ;
}

/// After any run of frames the angle is the starting angle plus the speed
/// times the total time. Each frame of the run adds its own turn to the angle
/// that the frames before it reached, and with a positive speed no frame turns
/// the camera back, while a frame of positive length turns it forward.
pub proof fn lemma_angle_after_frames(camera: OrbitCamera, dts: Seq<u64>)
    ensures
        camera.angle_after_frames(dts) == camera.angle + camera.speed * elapsed_time(dts),
        dts.len() > 0 ==> camera.angle_after_frames(dts) == camera.angle_after_frames(
            dts.drop_last(),
        ) + turn(camera.speed as int, dts.last()),
        dts.len() > 0 && camera.speed > 0 ==> camera.angle_after_frames(dts.drop_last())
            <= camera.angle_after_frames(dts),
        dts.len() > 0 && camera.speed > 0 && dts.last() > 0 ==> camera.angle_after_frames(
            dts.drop_last(),
        ) < camera.angle_after_frames(dts),
{
    lemma_accumulated_turn_is_rate_times_elapsed(camera.speed as int, dts);
    if dts.len() > 0 && camera.speed > 0 {
        let speed = camera.speed as int;
        let frame = dts.last() as int;
        assert(0 <= speed * frame && (frame > 0 ==> 0 < speed * frame)) by (nonlinear_arith)
            requires
                speed > 0,
                frame >= 0,
        ;
    }
}

} // verus!
