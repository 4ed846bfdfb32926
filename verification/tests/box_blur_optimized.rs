use band_blur::{box_blur, box_blur_optimized, BlurError};

fn slope() -> Vec<u8> {
    // 10 + 20 * row + 6 * column, five by five
    vec![
        10, 16, 22, 28, 34, 30, 36, 42, 48, 54, 50, 56, 62, 68, 74, 70, 76, 82, 88, 94, 90, 96,
        102, 108, 114,
    ]
}

fn scattered() -> Vec<u8> {
    vec![
        3, 200, 17, 88, 255, 0, 41, 9, 120, 77, 64, 190, 5, 33, 250, 1, 99, 140, 12, 230,
    ]
}

#[test]
fn box_blur_optimized_matches_the_plain_blur_on_a_slope() {
    let by_hand: Vec<u8> = vec![
        23, 26, 32, 38, 41, 33, 36, 42, 48, 51, 53, 56, 62, 68, 71, 73, 76, 82, 88, 91, 83, 86,
        92, 98, 101,
    ];
    assert_eq!(box_blur(&slope(), 5, 5, 1).unwrap(), by_hand);
    assert_eq!(box_blur_optimized(&slope(), 5, 5, 1).unwrap(), by_hand);
}

#[test]
fn box_blur_optimized_three_by_three() {
    let band = vec![10, 20, 30, 40, 50, 60, 70, 80, 90];
    assert_eq!(
        box_blur_optimized(&band, 3, 3, 1).unwrap(),
        vec![30, 35, 40, 45, 50, 55, 60, 65, 70]
    );
}

#[test]
fn box_blur_optimized_rounds_after_each_pass() {
    // rows first: (1 + 0) / 2 = 0 and (1 + 2) / 2 = 1, then columns: (0 + 1) / 2 = 0
    assert_eq!(box_blur_optimized(&vec![1, 0, 1, 2], 2, 2, 1).unwrap(), vec![0, 0, 0, 0]);
}

#[test]
fn box_blur_optimized_irregular_band() {
    assert_eq!(
        box_blur_optimized(&scattered(), 5, 4, 1).unwrap(),
        vec![
            60, 44, 78, 94, 134, 82, 58, 77, 94, 136, 65, 60, 71, 97, 120, 88, 83, 79, 111, 131,
        ]
    );
    assert_eq!(
        box_blur_optimized(&scattered(), 5, 4, 2).unwrap(),
        vec![
            58, 64, 89, 106, 94, 63, 63, 91, 110, 102, 63, 63, 91, 110, 102, 60, 59, 84, 100, 97,
        ]
    );
}

#[test]
fn box_blur_optimized_single_row_and_single_column() {
    let line = vec![3, 200, 17, 88, 255];
    // (3 + 200) / 2, (3 + 200 + 17) / 3, (200 + 17 + 88) / 3, (17 + 88 + 255) / 3, (88 + 255) / 2
    assert_eq!(box_blur_optimized(&line, 5, 1, 1).unwrap(), vec![101, 73, 101, 120, 171]);
    assert_eq!(box_blur_optimized(&line, 1, 5, 1).unwrap(), vec![101, 73, 101, 120, 171]);
}

#[test]
fn box_blur_optimized_keeps_the_shape() {
    let band = scattered();
    for radius in [0, 1, 2, 4, 5, 6, 1000] {
        assert_eq!(box_blur_optimized(&band, 5, 4, radius).unwrap().len(), 20);
        assert_eq!(box_blur_optimized(&band, 2, 10, radius).unwrap().len(), 20);
    }
}

#[test]
fn box_blur_optimized_radius_zero_is_identity() {
    let band = scattered();
    assert_eq!(box_blur_optimized(&band, 5, 4, 0).unwrap(), band);
    assert_eq!(box_blur_optimized(&band, 1, 20, 0).unwrap(), band);
}

#[test]
fn box_blur_optimized_flat_band_is_unchanged() {
    for value in [0u8, 1, 100, 254, 255] {
        let band = vec![value; 12];
        for radius in [0, 1, 2, 3, 9] {
            assert_eq!(box_blur_optimized(&band, 4, 3, radius).unwrap(), band);
        }
    }
}

#[test]
fn box_blur_optimized_single_cell_never_divides_by_zero() {
    for radius in [0, 1, 5, i32::MAX] {
        assert_eq!(box_blur_optimized(&vec![42], 1, 1, radius).unwrap(), vec![42]);
    }
}

#[test]
fn box_blur_optimized_radius_beyond_the_band() {
    // every row mean, then every column mean
    assert_eq!(box_blur_optimized(&scattered(), 5, 4, 7).unwrap(), vec![91; 20]);
    assert_eq!(box_blur_optimized(&scattered(), 5, 4, i32::MAX).unwrap(), vec![91; 20]);
    let line = vec![3, 200, 17, 88, 255];
    assert_eq!(box_blur_optimized(&line, 5, 1, 9).unwrap(), vec![112; 5]);
}

#[test]
fn box_blur_optimized_radius_that_just_spans_a_row() {
    let line = vec![3, 200, 17, 88, 255];
    // at radius 4 every window holds the whole row; at radius 3 the two ends lose one sample
    assert_eq!(box_blur_optimized(&line, 5, 1, 4).unwrap(), vec![112; 5]);
    assert_eq!(box_blur_optimized(&line, 5, 1, 3).unwrap(), vec![77, 112, 112, 112, 140]);
}

#[test]
fn box_blur_optimized_refuses_bad_arguments() {
    let band = scattered();
    assert_eq!(box_blur_optimized(&band, -5, 4, 1), Err(BlurError::InvalidDimension));
    assert_eq!(box_blur_optimized(&band, 5, 0, 1), Err(BlurError::InvalidDimension));
    assert_eq!(box_blur_optimized(&band, 5, 5, 1), Err(BlurError::BandLengthMismatch));
    assert_eq!(box_blur_optimized(&band, 5, 4, -2), Err(BlurError::RadiusOutOfRange));
}

#[test]
fn box_blur_optimized_repeats_itself() {
    let band = scattered();
    assert_eq!(box_blur_optimized(&band, 5, 4, 2), box_blur_optimized(&band, 5, 4, 2));
}

#[test]
fn box_blur_optimized_equals_the_plain_blur_on_single_lines() {
    let line = vec![3, 200, 17, 88, 255, 0, 41, 9, 120, 77, 64];
    for radius in 0..14 {
        assert_eq!(
            box_blur_optimized(&line, 11, 1, radius).unwrap(),
            box_blur(&line, 11, 1, radius).unwrap()
        );
        assert_eq!(
            box_blur_optimized(&line, 1, 11, radius).unwrap(),
            box_blur(&line, 1, 11, radius).unwrap()
        );
    }
}
