//! Tests of the frame preprocessor, the distance metric, the calibration and
//! the controller locator.

use pong::camera::Camera;
use pong::camera::CAMERA_COLUMNS;
use pong::camera::MINIMUM_BACKGROUND_DISTANCE;
use pong::camera::average_distance;
use pong::camera::average_gray_for_frame_halves;
use pong::camera::distance_from_background;

// An image of dimensions 3x14.
const CAPTURE: &[u8] = &[
    00, 000, 000, /**/ 009, 084, 013, /**/ 120, 230, 103, //
    80, 230, 029, /**/ 000, 000, 000, /**/ 094, 058, 049, //
    39, 239, 123, /**/ 209, 009, 084, /**/ 000, 000, 000, //
    103, 80, 230, /**/ 029, 057, 083, /**/ 028, 094, 058, //
    000, 000, 00, /**/ 199, 240, 178, /**/ 120, 230, 103, //
    80, 230, 029, /**/ 000, 000, 000, /**/ 209, 009, 084, //
    13, 120, 230, /**/ 103, 080, 230, /**/ 209, 129, 093, //
    // -------------------------------------------------- //
    100, 100, 100, /**/ 28, 080, 230, /**/ 029, 057, 083, //
    239, 123, 209, /**/ 100, 100, 100, /**/ 240, 178, 20, //
    230, 103, 029, /**/ 057, 083, 028, /**/ 100, 100, 10, //
    120, 230, 103, /**/ 80, 230, 178, /**/ 120, 230, 103, //
    101, 101, 101, /**/ 94, 084, 013, /**/ 120, 230, 103, //
    080, 230, 029, /**/ 101, 101, 101, /**/ 023, 14, 159, //
    230, 198, 176, /**/ 077, 034, 088, /**/ 109, 73, 022, //
];

#[test]
fn test_average_gray_for_frame_halves() {
    let mut a = vec![0u8; 3];
    let mut b = vec![0u8; 3];
    average_gray_for_frame_halves(CAPTURE, &mut a, &mut b);
    assert_eq!(&[98, 68, 100], &a[..]);
    assert_eq!(&[148, 091, 111], &b[..]);
}

#[test]
fn test_distance_from_background() {
    let averages = &[120, 80, 30];
    let mut frame = vec![110, 90, 30];
    distance_from_background(averages, &mut frame);
    assert_eq!(&[10, 10, 0], &frame[..]);
}

#[test]
fn distance_is_symmetric() {
    let a = [13u8, 250, 0, 77];
    let b = [200u8, 250, 3, 76];
    let mut ab = b.to_vec();
    distance_from_background(&a, &mut ab);
    let mut ba = a.to_vec();
    distance_from_background(&b, &mut ba);
    assert_eq!(ab, ba);
    assert_eq!(&[187, 0, 3, 1], &ab[..]);
}

#[test]
fn average_distance_truncates() {
    assert_eq!(20, average_distance(&[10, 20, 31]));
    assert_eq!(255, average_distance(&[255, 255]));
    assert_eq!(0, average_distance(&[0]));
}

#[test]
fn new_camera_starts_uncalibrated() {
    let camera = Camera::new();
    assert_eq!(MINIMUM_BACKGROUND_DISTANCE, camera.background_distance_range);
    assert_eq!(vec![0u8; CAMERA_COLUMNS], camera.top_half_bg);
    assert_eq!(vec![0u8; CAMERA_COLUMNS], camera.bottom_half_bg);
}

#[test]
fn locator_returns_none_below_threshold() {
    // A fresh camera has an all-zero background and the minimum threshold.
    let camera = Camera::new();
    let background = vec![0u8; 8];
    // Average distance 1 sits below the threshold of 10: not found.
    let mut frame = vec![1u8; 8];
    assert_eq!(None, camera.find_controller(&background, &mut frame));
}

#[test]
fn locator_ignores_strong_streak_below_threshold() {
    // One very distant column, but the frame-wide average distance stays
    // under the noise threshold: the controller is not reported.
    let camera = Camera::new();
    let background = vec![0u8; 30];
    let mut frame = vec![0u8; 30];
    frame[3] = 200;
    assert_eq!(None, camera.find_controller(&background, &mut frame));
}

#[test]
fn locator_finds_midpoint_of_best_streak() {
    let camera = Camera::new();
    let background = vec![0u8; 10];
    let mut frame = vec![0u8; 10];
    // Average distance is 11; columns 2 and 3 exceed it.
    frame[2] = 50;
    frame[3] = 60;
    // Midpoint 2 of 10 columns maps to 240 of 1200 window pixels.
    assert_eq!(Some(240), camera.find_controller(&background, &mut frame));
}

#[test]
fn locator_tie_break_keeps_earlier_streak() {
    let camera = Camera::new();
    let background = vec![0u8; 8];
    let mut frame = vec![0u8; 8];
    // Two single-column streaks with equal ratings; the earlier one wins.
    frame[1] = 40;
    frame[3] = 40;
    // Column 1 of 8 maps to 150 of 1200; the later streak would give 450.
    assert_eq!(Some(150), camera.find_controller(&background, &mut frame));
}

#[test]
fn locator_streak_may_end_at_final_column() {
    let camera = Camera::new();
    let background = vec![0u8; 10];
    let mut frame = vec![0u8; 10];
    // The only streak runs into the last column.
    frame[8] = 60;
    frame[9] = 70;
    // Midpoint 8 of 10 columns maps to 960 of 1200.
    assert_eq!(Some(960), camera.find_controller(&background, &mut frame));
}

#[test]
fn locator_leaves_distance_profile_in_frame() {
    let camera = Camera::new();
    let background = vec![5u8; 4];
    let mut frame = vec![9u8, 1, 5, 250];
    camera.find_controller(&background, &mut frame);
    assert_eq!(&[4, 4, 0, 245], &frame[..]);
}

#[test]
fn calibration_floors_threshold_at_minimum() {
    let mut camera = Camera::new();
    // One frame half must hold a whole number of bucket cycles.
    let background_frame = vec![0u8; 6 * CAMERA_COLUMNS];
    let samples = vec![background_frame.clone(), background_frame.clone(), background_frame.clone()];
    camera.map_playfield(&background_frame, &samples);
    assert_eq!(MINIMUM_BACKGROUND_DISTANCE, camera.background_distance_range);
}

#[test]
fn calibration_averages_sample_distances() {
    let mut camera = Camera::new();
    let background_frame = vec![0u8; 6 * CAMERA_COLUMNS];
    // Every pixel (100, 100, 100) has gray 100, so every column of both
    // halves sits 100 shades away from the all-zero background.
    let bright = vec![100u8; 6 * CAMERA_COLUMNS];
    let samples = vec![bright.clone(), bright.clone(), bright];
    camera.map_playfield(&background_frame, &samples);
    assert_eq!(100, camera.background_distance_range);
}
