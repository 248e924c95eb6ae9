use goop_converter::raw::{check_raw_dimensions, is_raw_extension, rgba_to_rgb, unavailable};

#[test]
fn extensions_are_case_insensitive_and_exclude_rasters() {
    for ext in ["dng", "DNG", "ArW", "cr3", "nef", "RAF"] {
        assert!(is_raw_extension(ext));
    }
    for ext in ["", "raw", "png", "tiff", "jpg", ".dng"] {
        assert!(!is_raw_extension(ext));
    }
}

#[test]
fn the_unavailable_platform_error_is_actionable() {
    let text = unavailable().user_message();
    assert!(text.contains("macOS only"));
    assert!(text.contains("TIFF or PNG"));
}

#[test]
fn raw_dimensions_are_bounded() {
    assert!(check_raw_dimensions(6000, 4000).is_ok());
    assert!(check_raw_dimensions(0, 4000).is_err());
    assert!(check_raw_dimensions(32769, 1).is_err());
    assert!(check_raw_dimensions(20000, 20000).is_err());
}

#[test]
fn rgba_drops_the_alpha_channel() {
    let rgba = [1u8, 2, 3, 255, 4, 5, 6, 128];
    assert_eq!(rgba_to_rgb(&rgba, 2, 1).unwrap(), vec![1, 2, 3, 4, 5, 6]);
    assert!(rgba_to_rgb(&rgba, 3, 1).is_err());
}
