use std::time::Duration;

use orbit_scene::fps::{frame_rate, initial_fps_text, push_decimal, update_fps_display};

#[test]
fn label_before_the_first_frame() {
    assert_eq!(initial_fps_text(), "FPS: --");
}

#[test]
fn fifty_frames_per_second() {
    assert_eq!(update_fps_display(20_000), "FPS: 50");
    assert_eq!(frame_rate(20_000), Some(50));
}

#[test]
fn frame_of_no_length_reads_as_infinite() {
    assert_eq!(frame_rate(0), None);
    assert_eq!(update_fps_display(0), "FPS: inf");
}

#[test]
fn rate_is_rounded_to_the_nearest_whole_number() {
    assert_eq!(update_fps_display(16_667), "FPS: 60");
    assert_eq!(update_fps_display(16_666), "FPS: 60");
    assert_eq!(update_fps_display(6_944), "FPS: 144");
    assert_eq!(update_fps_display(666_667), "FPS: 1");
    assert_eq!(update_fps_display(666_666), "FPS: 2");
    assert_eq!(update_fps_display(1_000_000), "FPS: 1");
    assert_eq!(update_fps_display(1_999_999), "FPS: 1");
    assert_eq!(update_fps_display(2_000_001), "FPS: 0");
}

#[test]
fn halfway_rates_go_to_the_even_number() {
    assert_eq!(frame_rate(2_000_000), Some(0));
    assert_eq!(frame_rate(400_000), Some(2));
    assert_eq!(frame_rate(80_000), Some(12));
    assert_eq!(frame_rate(32), Some(31_250));
    assert_eq!(frame_rate(64), Some(15_625));
    assert_eq!(frame_rate(128), Some(7_812));
    assert_eq!(update_fps_display(400_000), "FPS: 2");
}

#[test]
fn shortest_and_longest_frames() {
    assert_eq!(update_fps_display(1), "FPS: 1000000");
    assert_eq!(update_fps_display(u64::MAX), "FPS: 0");
    assert_eq!(frame_rate(u64::MAX), Some(0));
}

#[test]
fn decimal_digits_are_appended_most_significant_first() {
    let mut text = String::from("n=");
    push_decimal(&mut text, 0);
    assert_eq!(text, "n=0");
    push_decimal(&mut text, 9);
    push_decimal(&mut text, 10);
    assert_eq!(text, "n=0910");
    let mut long = String::new();
    push_decimal(&mut long, u64::MAX);
    assert_eq!(long, "18446744073709551615");
    let mut round = String::new();
    push_decimal(&mut round, 1_002_003);
    assert_eq!(round, "1002003");
}

#[test]
fn label_agrees_with_single_precision_formatting() {
    let frames: [u64; 13] = [
        1_000, 4_000, 6_944, 8_333, 16_667, 20_000, 33_333, 100_000, 250_000, 400_000,
        1_000_000, 2_000_000, 3_000_000,
    ];
    for dt in frames {
        let seconds: f32 = Duration::from_micros(dt).as_secs_f32();
        assert_eq!(update_fps_display(dt), format!("FPS: {:.0}", 1.0 / seconds));
    }
    assert_eq!(update_fps_display(0), format!("FPS: {:.0}", 1.0 / 0.0f32));
}
