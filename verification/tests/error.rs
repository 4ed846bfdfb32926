use band_blur::error::{validate, ANY_RADIUS};
use band_blur::tables::TABLE_RADIUS;
use band_blur::BlurError;

#[test]
fn validate_accepts_a_band_of_the_stated_shape() {
    assert_eq!(validate(20, 5, 4, 0, ANY_RADIUS), None);
    assert_eq!(validate(20, 4, 5, 3, ANY_RADIUS), None);
    assert_eq!(validate(1, 1, 1, i32::MAX, ANY_RADIUS), None);
    assert_eq!(validate(20, 5, 4, 255, TABLE_RADIUS), None);
}

#[test]
fn validate_refuses_a_width_or_height_that_is_not_positive() {
    assert_eq!(validate(0, 0, 0, 0, ANY_RADIUS), Some(BlurError::InvalidDimension));
    assert_eq!(validate(20, 0, 4, 1, ANY_RADIUS), Some(BlurError::InvalidDimension));
    assert_eq!(validate(20, 5, 0, 1, ANY_RADIUS), Some(BlurError::InvalidDimension));
    assert_eq!(validate(20, -5, -4, 1, ANY_RADIUS), Some(BlurError::InvalidDimension));
    assert_eq!(validate(20, i32::MIN, 4, 1, ANY_RADIUS), Some(BlurError::InvalidDimension));
}

#[test]
fn validate_refuses_a_band_of_another_length() {
    assert_eq!(validate(19, 5, 4, 1, ANY_RADIUS), Some(BlurError::BandLengthMismatch));
    assert_eq!(validate(21, 5, 4, 1, ANY_RADIUS), Some(BlurError::BandLengthMismatch));
    assert_eq!(validate(0, 1, 1, 1, ANY_RADIUS), Some(BlurError::BandLengthMismatch));
}

#[test]
fn validate_multiplies_large_dimensions_without_wrapping() {
    // 65536 * 65536 is 2^32, and 2^31 - 1 squared is far beyond it
    assert_eq!(validate(0, 65536, 65536, 1, ANY_RADIUS), Some(BlurError::BandLengthMismatch));
    assert_eq!(
        validate(1, i32::MAX, i32::MAX, 1, ANY_RADIUS),
        Some(BlurError::BandLengthMismatch)
    );
}

#[test]
fn validate_refuses_a_radius_out_of_range() {
    assert_eq!(validate(20, 5, 4, -1, ANY_RADIUS), Some(BlurError::RadiusOutOfRange));
    assert_eq!(validate(20, 5, 4, i32::MIN, ANY_RADIUS), Some(BlurError::RadiusOutOfRange));
    assert_eq!(validate(20, 5, 4, 256, TABLE_RADIUS), Some(BlurError::RadiusOutOfRange));
    assert_eq!(validate(20, 5, 4, -1, TABLE_RADIUS), Some(BlurError::RadiusOutOfRange));
}

#[test]
fn validate_judges_dimensions_then_length_then_radius() {
    assert_eq!(validate(7, 0, 4, -1, ANY_RADIUS), Some(BlurError::InvalidDimension));
    assert_eq!(validate(7, 5, 4, -1, ANY_RADIUS), Some(BlurError::BandLengthMismatch));
}

#[test]
fn table_radius_is_the_last_index_of_the_tables() {
    assert_eq!(TABLE_RADIUS, 255);
    assert_eq!(band_blur::tables::MUL_TABLE.len(), 256);
    assert_eq!(band_blur::tables::SHG_TABLE.len(), 256);
}

#[test]
fn tables_hold_their_known_entries() {
    let mul = band_blur::tables::MUL_TABLE;
    let shg = band_blur::tables::SHG_TABLE;
    assert_eq!((mul[0], shg[0]), (512, 9));
    assert_eq!((mul[1], shg[1]), (512, 11));
    assert_eq!((mul[2], shg[2]), (512, 12));
    assert_eq!((mul[3], shg[3]), (456, 13));
    assert_eq!((mul[4], shg[4]), (328, 13));
    assert_eq!((mul[127], shg[127]), (512, 23));
    assert_eq!((mul[255], shg[255]), (257, 24));
    assert_eq!(mul.iter().map(|&m| m as u32).sum::<u32>(), 93728);
    assert_eq!(shg.iter().map(|&s| s as u32).sum::<u32>(), 5540);
}
