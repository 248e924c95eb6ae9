use goop_converter::error::GoopError;
use goop_converter::webp::{check_encode_input, validate_raster, verify_container};

#[test]
fn pixel_ceiling_is_checked_without_allocating_the_raster() {
    assert!(validate_raster(10_001, 10_000, 4).is_err());
}

fn container(declared: u32, len: usize) -> Vec<u8> {
    let mut bytes = b"RIFF".to_vec();
    bytes.extend_from_slice(&declared.to_le_bytes());
    bytes.extend_from_slice(b"WEBP");
    bytes.resize(len, 0);
    bytes
}

#[test]
fn invalid_or_truncated_encoder_output_is_rejected() {
    assert!(verify_container(&container(12, 20)).is_ok());
    let invalid = verify_container(b"not webp").unwrap_err();
    assert!(matches!(invalid, GoopError::SubprocessFailed { .. }));
    assert!(invalid.user_message().contains("invalid container"));
    let truncated = verify_container(&container(100, 20)).unwrap_err();
    assert!(truncated.user_message().contains("truncated container"));
}

#[test]
fn raster_limits_and_sizes() {
    assert_eq!(validate_raster(16, 8, 3).unwrap(), 384);
    assert_eq!(
        validate_raster(0, 8, 3).unwrap_err().user_message(),
        "WebP dimensions must be non-zero"
    );
    assert_eq!(
        validate_raster(16_384, 1, 3).unwrap_err().user_message(),
        "WebP dimensions exceed libwebp's 16383-pixel axis limit"
    );
    assert_eq!(
        validate_raster(10_001, 10_000, 4).unwrap_err().user_message(),
        "WebP dimensions exceed the 100-million-pixel limit"
    );
    assert_eq!(
        validate_raster(10_000, 10_000, 8).unwrap_err().user_message(),
        "WebP exceeds the 512 MiB raster allocation limit"
    );
    assert_eq!(
        validate_raster(2, 1, u64::MAX).unwrap_err().user_message(),
        "WebP raster allocation overflow"
    );
}

#[test]
fn encoder_input_checks_quality_and_raster_length() {
    assert!(check_encode_input(80, 2, 2, 3, 12).is_ok());
    assert_eq!(
        check_encode_input(0, 2, 2, 3, 12).unwrap_err().user_message(),
        "WebP quality must be between 1 and 100"
    );
    assert_eq!(
        check_encode_input(80, 2, 2, 4, 12).unwrap_err().user_message(),
        "WebP RGBA raster length does not match its dimensions"
    );
}
