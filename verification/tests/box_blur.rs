use band_blur::{box_blur, BlurError};

fn nine() -> Vec<u8> {
    vec![10, 20, 30, 40, 50, 60, 70, 80, 90]
}

fn twenty() -> Vec<u8> {
    vec![
        3, 200, 17, 88, 255, 0, 41, 9, 120, 77, 64, 190, 5, 33, 250, 1, 99, 140, 12, 230,
    ]
}

#[test]
fn box_blur_three_by_three_corner_and_centre() {
    let out = box_blur(&nine(), 3, 3, 1).unwrap();
    // top left: the mean of 10, 20, 40 and 50
    assert_eq!(out[0], 30);
    // centre: the mean of all nine
    assert_eq!(out[4], 50);
}

#[test]
fn box_blur_three_by_three_whole_band() {
    let out = box_blur(&nine(), 3, 3, 1).unwrap();
    assert_eq!(out, vec![30, 35, 40, 45, 50, 55, 60, 65, 70]);
}

#[test]
fn box_blur_keeps_the_shape() {
    let band = twenty();
    for radius in [0, 1, 2, 5, 40] {
        let out = box_blur(&band, 5, 4, radius).unwrap();
        assert_eq!(out.len(), band.len());
    }
}

#[test]
fn box_blur_radius_zero_is_identity() {
    let band = twenty();
    assert_eq!(box_blur(&band, 5, 4, 0).unwrap(), band);
    assert_eq!(box_blur(&band, 4, 5, 0).unwrap(), band);
    assert_eq!(box_blur(&band, 20, 1, 0).unwrap(), band);
}

#[test]
fn box_blur_flat_band_is_unchanged() {
    for value in [0u8, 1, 100, 254, 255] {
        let band = vec![value; 12];
        for radius in [0, 1, 2, 3, 9] {
            assert_eq!(box_blur(&band, 4, 3, radius).unwrap(), band);
        }
    }
}

#[test]
fn box_blur_rounds_down() {
    // the four samples sum to 4, 5, 6 and 7: each mean is 1
    assert_eq!(box_blur(&vec![1, 0, 1, 2], 2, 2, 1).unwrap(), vec![1, 1, 1, 1]);
    assert_eq!(box_blur(&vec![1, 1, 1, 2], 2, 2, 1).unwrap(), vec![1, 1, 1, 1]);
    assert_eq!(box_blur(&vec![3, 1, 1, 2], 2, 2, 1).unwrap(), vec![1, 1, 1, 1]);
    assert_eq!(box_blur(&vec![2, 2, 2, 2], 2, 2, 1).unwrap(), vec![2, 2, 2, 2]);
}

#[test]
fn box_blur_irregular_band() {
    assert_eq!(
        box_blur(&twenty(), 5, 4, 1).unwrap(),
        vec![
            61, 45, 79, 94, 135, 83, 58, 78, 94, 137, 65, 61, 72, 97, 120, 88, 83, 79, 111, 131,
        ]
    );
    assert_eq!(
        box_blur(&twenty(), 5, 4, 2).unwrap(),
        vec![
            58, 64, 90, 107, 94, 64, 63, 91, 110, 103, 64, 63, 91, 110, 103, 61, 59, 84, 100, 97,
        ]
    );
}

#[test]
fn box_blur_single_row_and_single_column() {
    let line = vec![3, 200, 17, 88, 255];
    assert_eq!(box_blur(&line, 5, 1, 1).unwrap(), vec![101, 73, 101, 120, 171]);
    assert_eq!(box_blur(&line, 1, 5, 1).unwrap(), vec![101, 73, 101, 120, 171]);
}

#[test]
fn box_blur_single_cell_never_divides_by_zero() {
    for radius in [0, 1, 5, i32::MAX] {
        assert_eq!(box_blur(&vec![42], 1, 1, radius).unwrap(), vec![42]);
    }
}

#[test]
fn box_blur_radius_beyond_the_band_gives_the_overall_mean() {
    // the twenty samples sum to 1834
    assert_eq!(box_blur(&twenty(), 5, 4, 7).unwrap(), vec![91; 20]);
    assert_eq!(box_blur(&twenty(), 5, 4, i32::MAX).unwrap(), vec![91; 20]);
}

#[test]
fn box_blur_white_band_stays_white() {
    assert_eq!(box_blur(&vec![255; 9], 3, 3, 4).unwrap(), vec![255; 9]);
}

#[test]
fn box_blur_refuses_bad_arguments() {
    let band = nine();
    assert_eq!(box_blur(&band, 0, 3, 1), Err(BlurError::InvalidDimension));
    assert_eq!(box_blur(&band, 3, -3, 1), Err(BlurError::InvalidDimension));
    assert_eq!(box_blur(&band, 3, 4, 1), Err(BlurError::BandLengthMismatch));
    assert_eq!(box_blur(&band, 3, 3, -1), Err(BlurError::RadiusOutOfRange));
    assert_eq!(box_blur(&vec![], 1, 1, 0), Err(BlurError::BandLengthMismatch));
}

#[test]
fn box_blur_leaves_its_input_alone_and_repeats_itself() {
    let band = twenty();
    let first = box_blur(&band, 5, 4, 2);
    let second = box_blur(&band, 5, 4, 2);
    assert_eq!(first, second);
    assert_eq!(band, twenty());
}
