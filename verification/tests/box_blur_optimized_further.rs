use band_blur::{box_blur, box_blur_optimized_further, BlurError};
use std::cell::Cell;

fn mottled() -> Vec<u8> {
    vec![
        3, 200, 17, 88, 255, 0, 41, 9, 120, 77, 64, 190, 5, 33, 250, 1, 99, 140, 12, 230,
    ]
}

fn incline() -> Vec<u8> {
    // 10 + 20 * row + 6 * column, five by five
    vec![
        10, 16, 22, 28, 34, 30, 36, 42, 48, 54, 50, 56, 62, 68, 74, 70, 76, 82, 88, 94, 90, 96,
        102, 108, 114,
    ]
}

/// The multiplication by the reciprocal of the window's size, in single precision.
fn by_reciprocal(radius: i32) -> impl Fn(u64) -> u8 {
    let multiplier: f32 = 1.0 / (2.0 * radius as f32 + 1.0);
    move |sum: u64| (sum as f32 * multiplier) as u8
}

/// The division by the window's size, rounded down.
fn by_division(radius: i32) -> impl Fn(u64) -> u8 {
    move |sum: u64| (sum / (2 * radius as u64 + 1)) as u8
}

#[test]
fn box_blur_optimized_further_single_row_radius_one() {
    let line = vec![3, 200, 17, 88, 255];
    // the end sample counts for the position beyond it:
    // (3 + 3 + 200) / 3, (3 + 200 + 17) / 3, ..., (88 + 255 + 255) / 3
    let expected = vec![68, 73, 101, 120, 199];
    assert_eq!(box_blur_optimized_further(&line, 5, 1, 1, by_reciprocal(1)).unwrap(), expected);
    assert_eq!(box_blur_optimized_further(&line, 1, 5, 1, by_reciprocal(1)).unwrap(), expected);
    assert_eq!(box_blur_optimized_further(&line, 5, 1, 1, by_division(1)).unwrap(), expected);
}

#[test]
fn box_blur_optimized_further_hands_the_window_sums_to_the_scaling() {
    let line = vec![3, 200, 17, 88, 255];
    let seen: std::cell::RefCell<Vec<u64>> = std::cell::RefCell::new(Vec::new());
    let out = box_blur_optimized_further(&line, 5, 1, 1, |sum: u64| {
        seen.borrow_mut().push(sum);
        0
    })
    .unwrap();
    assert_eq!(out, vec![0; 5]);
    // the five row sums, then the five column sums of a band of zeros
    assert_eq!(*seen.borrow(), vec![206, 220, 305, 360, 598, 0, 0, 0, 0, 0]);
}

#[test]
fn box_blur_optimized_further_sums_beyond_the_band() {
    let line = vec![3, 200, 17, 88, 255];
    let seen: std::cell::RefCell<Vec<u64>> = std::cell::RefCell::new(Vec::new());
    let _ = box_blur_optimized_further(&line, 5, 1, 9, |sum: u64| {
        seen.borrow_mut().push(sum);
        0
    });
    assert_eq!(seen.borrow()[..5], [1865, 2117, 2369, 2621, 2873]);
    assert_eq!(
        box_blur_optimized_further(&line, 5, 1, 9, by_reciprocal(9)).unwrap(),
        vec![98, 111, 124, 137, 151]
    );
}

#[test]
fn box_blur_optimized_further_three_by_three() {
    let band = vec![10, 20, 30, 40, 50, 60, 70, 80, 90];
    assert_eq!(
        box_blur_optimized_further(&band, 3, 3, 1, by_reciprocal(1)).unwrap(),
        vec![23, 30, 36, 43, 50, 56, 63, 70, 76]
    );
}

#[test]
fn box_blur_optimized_further_matches_the_plain_blur_inside_a_slope() {
    let plain = box_blur(&incline(), 5, 5, 1).unwrap();
    let out = box_blur_optimized_further(&incline(), 5, 5, 1, by_reciprocal(1)).unwrap();
    for row in 1..4 {
        for column in 1..4 {
            assert_eq!(out[row * 5 + column], plain[row * 5 + column]);
        }
    }
    assert_eq!(
        out,
        vec![
            18, 22, 28, 34, 38, 32, 36, 42, 48, 52, 52, 56, 62, 68, 72, 72, 76, 82, 88, 92, 85,
            89, 95, 101, 105,
        ]
    );
}

#[test]
fn box_blur_optimized_further_irregular_band() {
    assert_eq!(
        box_blur_optimized_further(&mottled(), 5, 4, 1, by_reciprocal(1)).unwrap(),
        vec![
            49, 54, 86, 102, 163, 62, 58, 77, 94, 155, 50, 60, 71, 97, 141, 57, 82, 80, 116, 163,
        ]
    );
    assert_eq!(
        box_blur_optimized_further(&mottled(), 5, 4, 2, by_reciprocal(2)).unwrap(),
        vec![
            44, 58, 98, 139, 150, 45, 55, 95, 135, 149, 45, 53, 92, 131, 147, 46, 51, 89, 127,
            146,
        ]
    );
    assert_eq!(
        box_blur_optimized_further(&mottled(), 5, 4, 7, by_reciprocal(7)).unwrap(),
        vec![
            83, 98, 114, 129, 144, 82, 97, 113, 128, 143, 81, 96, 112, 127, 142, 81, 95, 111,
            126, 140,
        ]
    );
}

#[test]
fn box_blur_optimized_further_keeps_the_shape() {
    let band = mottled();
    for radius in [0, 1, 2, 4, 5, 6, 1000] {
        assert_eq!(
            box_blur_optimized_further(&band, 5, 4, radius, by_reciprocal(radius)).unwrap().len(),
            20
        );
    }
}

#[test]
fn box_blur_optimized_further_radius_zero_is_identity() {
    let band = mottled();
    assert_eq!(box_blur_optimized_further(&band, 5, 4, 0, by_reciprocal(0)).unwrap(), band);
    assert_eq!(box_blur_optimized_further(&band, 5, 4, 0, by_division(0)).unwrap(), band);
}

#[test]
fn box_blur_optimized_further_flat_band_is_unchanged_by_exact_division() {
    for value in [0u8, 1, 100, 254, 255] {
        let band = vec![value; 12];
        for radius in [0, 1, 2, 3, 9, 20, 1000] {
            assert_eq!(
                box_blur_optimized_further(&band, 4, 3, radius, by_division(radius)).unwrap(),
                band
            );
        }
    }
}

#[test]
fn box_blur_optimized_further_flat_band_with_the_reciprocal() {
    // in single precision the reciprocal of 9 is a little more than a ninth
    assert_eq!(
        box_blur_optimized_further(&vec![37; 6], 3, 2, 4, by_reciprocal(4)).unwrap(),
        vec![37; 6]
    );
    assert_eq!(
        box_blur_optimized_further(&vec![200; 6], 3, 2, 20, by_reciprocal(20)).unwrap(),
        vec![200; 6]
    );
    // and that of 41 a little less than a forty-first: 41 times it stays below one
    assert_eq!(
        box_blur_optimized_further(&vec![1; 6], 3, 2, 20, by_reciprocal(20)).unwrap(),
        vec![0; 6]
    );
}

#[test]
fn box_blur_optimized_further_flat_band_loses_at_most_one_in_each_pass() {
    for value in [0u8, 1, 2, 77, 128, 254, 255] {
        let band = vec![value; 12];
        for radius in 0..200 {
            let out = box_blur_optimized_further(&band, 4, 3, radius, by_reciprocal(radius))
                .unwrap();
            for sample in out {
                assert!(sample <= value && value - sample <= 2);
            }
            let rows = box_blur_optimized_further(&band, 12, 1, radius, by_reciprocal(radius))
                .unwrap();
            for sample in rows {
                assert!(sample <= value && value - sample <= 2);
            }
        }
    }
}

#[test]
fn box_blur_optimized_further_never_hands_over_more_than_a_full_white_window() {
    let band = vec![255; 12];
    for radius in [0, 1, 3, 50] {
        let largest = Cell::new(0u64);
        let _ = box_blur_optimized_further(&band, 4, 3, radius, |sum: u64| {
            if sum > largest.get() {
                largest.set(sum);
            }
            255
        });
        assert_eq!(largest.get(), 255 * (2 * radius as u64 + 1));
    }
}

#[test]
fn box_blur_optimized_further_single_cell() {
    for radius in [0, 1, 5] {
        assert_eq!(
            box_blur_optimized_further(&vec![42], 1, 1, radius, by_reciprocal(radius)).unwrap(),
            vec![42]
        );
    }
}

#[test]
fn box_blur_optimized_further_refuses_bad_arguments_before_it_scales() {
    let band = mottled();
    let calls = Cell::new(0u32);
    let count = |_sum: u64| {
        calls.set(calls.get() + 1);
        0
    };
    assert_eq!(
        box_blur_optimized_further(&band, 0, 4, 1, &count),
        Err(BlurError::InvalidDimension)
    );
    assert_eq!(
        box_blur_optimized_further(&band, 5, -4, 1, &count),
        Err(BlurError::InvalidDimension)
    );
    assert_eq!(
        box_blur_optimized_further(&band, 5, 5, 1, &count),
        Err(BlurError::BandLengthMismatch)
    );
    assert_eq!(
        box_blur_optimized_further(&band, 5, 4, -1, &count),
        Err(BlurError::RadiusOutOfRange)
    );
    assert_eq!(calls.get(), 0);
}

#[test]
fn box_blur_optimized_further_repeats_itself() {
    let band = mottled();
    assert_eq!(
        box_blur_optimized_further(&band, 5, 4, 2, by_reciprocal(2)),
        box_blur_optimized_further(&band, 5, 4, 2, by_reciprocal(2))
    );
}
