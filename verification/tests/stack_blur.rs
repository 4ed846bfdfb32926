use band_blur::{stack_blur, BlurError};

fn speckled() -> Vec<u8> {
    vec![
        3, 200, 17, 88, 255, 0, 41, 9, 120, 77, 64, 190, 5, 33, 250, 1, 99, 140, 12, 230,
    ]
}

#[test]
fn stack_blur_single_row_radius_one() {
    let line = vec![3, 200, 17, 88, 255];
    // (2 * 3 + 200) / 3, (3 + 2 * 200 + 17) / 4, (200 + 2 * 17 + 88) / 4,
    // (17 + 2 * 88 + 255) / 4, (88 + 2 * 255) / 3
    assert_eq!(stack_blur(&line, 5, 1, 1).unwrap(), vec![68, 105, 80, 112, 199]);
    assert_eq!(stack_blur(&line, 1, 5, 1).unwrap(), vec![68, 105, 80, 112, 199]);
}

#[test]
fn stack_blur_single_row_radius_two() {
    let line = vec![3, 200, 17, 88, 255];
    // at the left end: (3 * 3 + 2 * 200 + 17) / 6; in the middle: weights 1 2 3 2 1 over 9
    assert_eq!(stack_blur(&line, 5, 1, 2).unwrap(), vec![71, 91, 98, 126, 159]);
}

#[test]
fn stack_blur_three_by_three() {
    let band = vec![10, 20, 30, 40, 50, 60, 70, 80, 90];
    assert_eq!(stack_blur(&band, 3, 3, 1).unwrap(), vec![23, 30, 36, 43, 50, 56, 63, 70, 76]);
}

#[test]
fn stack_blur_irregular_band() {
    assert_eq!(
        stack_blur(&speckled(), 5, 4, 1).unwrap(),
        vec![
            49, 77, 68, 101, 163, 50, 65, 56, 88, 139, 64, 82, 64, 84, 150, 57, 93, 84, 92, 163,
        ]
    );
    assert_eq!(
        stack_blur(&speckled(), 5, 4, 2).unwrap(),
        vec![
            56, 71, 79, 103, 128, 54, 66, 75, 96, 121, 62, 72, 80, 97, 126, 62, 72, 85, 99, 129,
        ]
    );
}

#[test]
fn stack_blur_radius_beyond_the_band() {
    assert_eq!(
        stack_blur(&speckled(), 5, 4, 7).unwrap(),
        vec![
            80, 86, 88, 93, 101, 79, 84, 86, 91, 99, 81, 86, 88, 93, 100, 81, 86, 88, 93, 101,
        ]
    );
    let line = vec![3, 200, 17, 88, 255];
    assert_eq!(stack_blur(&line, 5, 1, 9).unwrap(), vec![102, 108, 109, 115, 122]);
}

#[test]
fn stack_blur_largest_radius_weighs_all_samples_nearly_alike() {
    assert_eq!(stack_blur(&speckled(), 5, 4, i32::MAX).unwrap(), vec![91; 20]);
}

#[test]
fn stack_blur_keeps_the_shape() {
    let band = speckled();
    for radius in [0, 1, 2, 4, 5, 6, 1000] {
        assert_eq!(stack_blur(&band, 5, 4, radius).unwrap().len(), 20);
        assert_eq!(stack_blur(&band, 10, 2, radius).unwrap().len(), 20);
    }
}

#[test]
fn stack_blur_radius_zero_is_identity() {
    let band = speckled();
    assert_eq!(stack_blur(&band, 5, 4, 0).unwrap(), band);
    assert_eq!(stack_blur(&band, 20, 1, 0).unwrap(), band);
}

#[test]
fn stack_blur_flat_band_is_unchanged() {
    for value in [0u8, 1, 100, 254, 255] {
        let band = vec![value; 12];
        for radius in [0, 1, 2, 3, 9, i32::MAX] {
            assert_eq!(stack_blur(&band, 4, 3, radius).unwrap(), band);
        }
    }
}

#[test]
fn stack_blur_single_cell_never_divides_by_zero() {
    for radius in [0, 1, 5, i32::MAX] {
        assert_eq!(stack_blur(&vec![42], 1, 1, radius).unwrap(), vec![42]);
    }
}

#[test]
fn stack_blur_refuses_bad_arguments() {
    let band = speckled();
    assert_eq!(stack_blur(&band, 0, 0, 1), Err(BlurError::InvalidDimension));
    assert_eq!(stack_blur(&band, 5, -4, 1), Err(BlurError::InvalidDimension));
    assert_eq!(stack_blur(&band, 4, 4, 1), Err(BlurError::BandLengthMismatch));
    assert_eq!(stack_blur(&band, 5, 4, i32::MIN), Err(BlurError::RadiusOutOfRange));
}

#[test]
fn stack_blur_accepts_radius_beyond_the_tables() {
    assert!(stack_blur(&speckled(), 5, 4, 256).is_ok());
}

#[test]
fn stack_blur_repeats_itself() {
    let band = speckled();
    assert_eq!(stack_blur(&band, 5, 4, 3), stack_blur(&band, 5, 4, 3));
}
