use orbit_scene::cube::{animate_cube, CubeMotion, BOB_AMPLITUDE, BOB_RATE, PITCH_RATE, YAW_RATE};

#[test]
fn one_frame_turns_the_cube_by_its_rates() {
    let motion = animate_cube(20_000, 1_500_000);
    assert_eq!(
        motion,
        CubeMotion { yaw: 16_000_000, pitch: 10_000_000, bob_phase: 3_000_000_000 }
    );
}

#[test]
fn cube_rates_are_as_documented() {
    assert_eq!(YAW_RATE, 800);
    assert_eq!(PITCH_RATE, 500);
    assert_eq!(BOB_RATE, 2_000);
    assert_eq!(BOB_AMPLITUDE, 500);
}

#[test]
fn bob_height_is_half_the_sine_of_twice_the_time() {
    let times: [u64; 5] = [0, 250_000, 785_398, 1_500_000, 3_600_000_000];
    for elapsed in times {
        let first = animate_cube(16_667, elapsed);
        let second = animate_cube(1, elapsed);
        assert_eq!(first.bob_phase, second.bob_phase);
        let height = BOB_AMPLITUDE as f64 * 1e-3 * (first.bob_phase as f64 * 1e-9).sin();
        let seconds = elapsed as f64 * 1e-6;
        assert!((height - 0.5 * (2.0 * seconds).sin()).abs() < 1e-6);
    }
}

#[test]
fn spin_adds_up_to_rate_times_total_time() {
    let frames: [u64; 5] = [16_667, 16_666, 0, 33_334, 1_000_000];
    let mut yaw: u128 = 0;
    let mut pitch: u128 = 0;
    let mut elapsed: u64 = 0;
    for dt in frames {
        elapsed += dt;
        let motion = animate_cube(dt, elapsed);
        yaw += motion.yaw;
        pitch += motion.pitch;
    }
    assert_eq!(elapsed, 1_066_667);
    assert_eq!(yaw, 800 * 1_066_667);
    assert_eq!(pitch, 500 * 1_066_667);
}

#[test]
fn longest_frame_does_not_overflow() {
    let motion = animate_cube(u64::MAX, u64::MAX);
    assert_eq!(motion.yaw, 800 * u64::MAX as u128);
    assert_eq!(motion.pitch, 500 * u64::MAX as u128);
    assert_eq!(motion.bob_phase, 2_000 * u64::MAX as u128);
}

#[test]
fn frame_of_no_length_does_not_turn_the_cube() {
    let motion = animate_cube(0, 0);
    assert_eq!(motion, CubeMotion { yaw: 0, pitch: 0, bob_phase: 0 });
}
