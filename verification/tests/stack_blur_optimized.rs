use band_blur::{box_blur, stack_blur_optimized, BlurError};

fn dotted() -> Vec<u8> {
    vec![
        3, 200, 17, 88, 255, 0, 41, 9, 120, 77, 64, 190, 5, 33, 250, 1, 99, 140, 12, 230,
    ]
}

fn ramp() -> Vec<u8> {
    // 10 + 20 * row + 6 * column, five by five
    vec![
        10, 16, 22, 28, 34, 30, 36, 42, 48, 54, 50, 56, 62, 68, 74, 70, 76, 82, 88, 94, 90, 96,
        102, 108, 114,
    ]
}

#[test]
fn stack_blur_optimized_rejects_radius_beyond_the_tables() {
    let band = dotted();
    assert_eq!(stack_blur_optimized(&band, 5, 4, 256), Err(BlurError::RadiusOutOfRange));
    assert_eq!(stack_blur_optimized(&band, 5, 4, i32::MAX), Err(BlurError::RadiusOutOfRange));
}

#[test]
fn stack_blur_optimized_accepts_the_last_radius_of_the_tables() {
    assert_eq!(
        stack_blur_optimized(&dotted(), 5, 4, 255).unwrap(),
        vec![
            120, 121, 122, 123, 124, 120, 121, 122, 123, 124, 120, 121, 122, 123, 124, 120, 121,
            122, 123, 124,
        ]
    );
}

#[test]
fn stack_blur_optimized_single_row_radius_one() {
    let line = vec![3, 200, 17, 88, 255];
    // the end sample counts for the position beyond it:
    // (3 + 2 * 3 + 200) / 4, (3 + 2 * 200 + 17) / 4, ..., (88 + 2 * 255 + 255) / 4
    assert_eq!(stack_blur_optimized(&line, 5, 1, 1).unwrap(), vec![52, 105, 80, 112, 213]);
    assert_eq!(stack_blur_optimized(&line, 1, 5, 1).unwrap(), vec![52, 105, 80, 112, 213]);
}

#[test]
fn stack_blur_optimized_three_by_three() {
    let band = vec![10, 20, 30, 40, 50, 60, 70, 80, 90];
    assert_eq!(
        stack_blur_optimized(&band, 3, 3, 1).unwrap(),
        vec![19, 27, 34, 42, 50, 57, 64, 72, 79]
    );
}

#[test]
fn stack_blur_optimized_matches_the_plain_blur_inside_a_slope() {
    let plain = box_blur(&ramp(), 5, 5, 1).unwrap();
    let out = stack_blur_optimized(&ramp(), 5, 5, 1).unwrap();
    for row in 1..4 {
        for column in 1..4 {
            assert_eq!(out[row * 5 + column], plain[row * 5 + column]);
        }
    }
    assert_eq!(
        out,
        vec![
            16, 21, 27, 33, 37, 31, 36, 42, 48, 52, 51, 56, 62, 68, 72, 71, 76, 82, 88, 92, 86,
            91, 97, 103, 107,
        ]
    );
}

#[test]
fn stack_blur_optimized_irregular_band() {
    assert_eq!(
        stack_blur_optimized(&dotted(), 5, 4, 1).unwrap(),
        vec![
            41, 84, 71, 104, 181, 41, 65, 56, 88, 145, 56, 82, 64, 84, 163, 42, 91, 87, 93, 180,
        ]
    );
    assert_eq!(
        stack_blur_optimized(&dotted(), 5, 4, 7).unwrap(),
        vec![
            66, 87, 107, 129, 153, 65, 85, 105, 126, 149, 65, 85, 105, 126, 149, 64, 84, 104,
            125, 148,
        ]
    );
}

#[test]
fn stack_blur_optimized_radius_beyond_the_band() {
    let line = vec![3, 200, 17, 88, 255];
    assert_eq!(stack_blur_optimized(&line, 5, 1, 9).unwrap(), vec![80, 101, 120, 142, 164]);
}

#[test]
fn stack_blur_optimized_is_too_bright_at_radius_two() {
    // the weights sum to 9 and the tables divide by 8: 100 becomes 112, then 126
    assert_eq!(stack_blur_optimized(&vec![100; 12], 4, 3, 2).unwrap(), vec![126; 12]);
    assert_eq!(
        stack_blur_optimized(&dotted(), 5, 4, 2).unwrap(),
        vec![
            55, 88, 107, 154, 207, 53, 80, 98, 139, 186, 61, 84, 103, 140, 194, 57, 84, 112, 146,
            204,
        ]
    );
}

#[test]
fn stack_blur_optimized_is_too_dark_at_radius_three() {
    // the weights sum to 16 and the tables multiply by 456 / 8192: 100 becomes 89, then 79
    assert_eq!(stack_blur_optimized(&vec![100; 12], 4, 3, 3).unwrap(), vec![79; 12]);
    assert_eq!(stack_blur_optimized(&vec![255; 9], 3, 3, 3).unwrap(), vec![202; 9]);
    assert_eq!(
        stack_blur_optimized(&dotted(), 5, 4, 3).unwrap(),
        vec![
            34, 57, 74, 101, 130, 33, 53, 70, 94, 122, 35, 54, 71, 94, 124, 33, 53, 73, 95, 126,
        ]
    );
}

#[test]
fn stack_blur_optimized_stops_at_white() {
    // 255 * 9 / 8 is 286: the sample stays at 255
    assert_eq!(stack_blur_optimized(&vec![255; 6], 3, 2, 2).unwrap(), vec![255; 6]);
    assert_eq!(stack_blur_optimized(&vec![230; 6], 3, 2, 2).unwrap(), vec![255; 6]);
}

#[test]
fn stack_blur_optimized_keeps_the_shape() {
    let band = dotted();
    for radius in [0, 1, 2, 3, 4, 5, 6, 100, 255] {
        assert_eq!(stack_blur_optimized(&band, 5, 4, radius).unwrap().len(), 20);
        assert_eq!(stack_blur_optimized(&band, 4, 5, radius).unwrap().len(), 20);
    }
}

#[test]
fn stack_blur_optimized_radius_zero_is_identity() {
    let band = dotted();
    assert_eq!(stack_blur_optimized(&band, 5, 4, 0).unwrap(), band);
    assert_eq!(stack_blur_optimized(&band, 2, 10, 0).unwrap(), band);
}

#[test]
fn stack_blur_optimized_flat_band_is_unchanged_but_at_radius_two_and_three() {
    for value in [0u8, 1, 77, 100, 254, 255] {
        let band = vec![value; 12];
        for radius in 0..=255 {
            if radius != 2 && radius != 3 {
                assert_eq!(stack_blur_optimized(&band, 4, 3, radius).unwrap(), band);
            }
        }
    }
}

#[test]
fn stack_blur_optimized_single_cell() {
    for radius in [0, 1, 5, 255] {
        assert_eq!(stack_blur_optimized(&vec![42], 1, 1, radius).unwrap(), vec![42]);
    }
}

#[test]
fn stack_blur_optimized_refuses_bad_arguments() {
    let band = dotted();
    assert_eq!(stack_blur_optimized(&band, 0, 4, 1), Err(BlurError::InvalidDimension));
    assert_eq!(stack_blur_optimized(&band, 5, -1, 1), Err(BlurError::InvalidDimension));
    assert_eq!(stack_blur_optimized(&band, 5, 3, 1), Err(BlurError::BandLengthMismatch));
    assert_eq!(stack_blur_optimized(&band, 5, 4, -1), Err(BlurError::RadiusOutOfRange));
}

#[test]
fn stack_blur_optimized_names_the_first_fault() {
    // the dimensions are judged before the length, the length before the radius
    assert_eq!(stack_blur_optimized(&dotted(), 0, 4, 256), Err(BlurError::InvalidDimension));
    assert_eq!(stack_blur_optimized(&dotted(), 5, 5, 256), Err(BlurError::BandLengthMismatch));
}

#[test]
fn stack_blur_optimized_repeats_itself() {
    let band = dotted();
    assert_eq!(stack_blur_optimized(&band, 5, 4, 3), stack_blur_optimized(&band, 5, 4, 3));
}
