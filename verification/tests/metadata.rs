use goop_converter::error::GoopError;
use goop_converter::metadata::{
    container_of, parse_jpeg, prepare_jpeg_plan, prepare_jpeg_target_plan, validate_icc_profile,
    Container, JpegOutputColor, MetadataPolicy,
};
use goop_converter::metadata_transfer::{embed_metadata, metadata_of, png_metadata};

/// A minimal baseline JPEG with the given APPn segments and a frame of
/// `components` components.
fn jpeg_with_segments(segments: Vec<(u8, Vec<u8>)>, components: u8) -> Vec<u8> {
    let mut b = vec![0xFF, 0xD8];
    for (marker, contents) in segments {
        b.push(0xFF);
        b.push(marker);
        b.extend_from_slice(&((contents.len() + 2) as u16).to_be_bytes());
        b.extend_from_slice(&contents);
    }
    b.extend_from_slice(&[0xFF, 0xC0]);
    b.extend_from_slice(&(8 + 3 * components as u16).to_be_bytes());
    b.push(8);
    b.extend_from_slice(&8u16.to_be_bytes());
    b.extend_from_slice(&16u16.to_be_bytes());
    b.push(components);
    for i in 0..components {
        b.extend_from_slice(&[i + 1, 0x11, 0]);
    }
    b.extend_from_slice(&[0xFF, 0xDA]);
    b.extend_from_slice(&(6 + 2 * components as u16).to_be_bytes());
    b.push(components);
    for i in 0..components {
        b.extend_from_slice(&[i + 1, 0x00]);
    }
    b.extend_from_slice(&[0, 63, 0]);
    b.extend_from_slice(&[0x12, 0x34, 0x56]);
    b.extend_from_slice(&[0xFF, 0xD9]);
    b
}

fn rgb_icc(size: usize) -> Vec<u8> {
    assert!(size >= 128);
    let mut profile = vec![0; size];
    profile[..4].copy_from_slice(&(size as u32).to_be_bytes());
    profile[16..20].copy_from_slice(b"RGB ");
    profile[36..40].copy_from_slice(b"acsp");
    profile
}

fn icc_segment(sequence: u8, count: u8, payload: &[u8]) -> (u8, Vec<u8>) {
    let mut contents = b"ICC_PROFILE\0".to_vec();
    contents.extend_from_slice(&[sequence, count]);
    contents.extend_from_slice(payload);
    (0xe2, contents)
}

fn exif_segment(payload: &[u8]) -> (u8, Vec<u8>) {
    let mut contents = b"Exif\0\0".to_vec();
    contents.extend_from_slice(payload);
    (0xe1, contents)
}

#[test]
fn container_of_recognizes_jpeg_and_png() {
    assert_eq!(container_of("/x.jpg"), Container::Jpeg);
    assert_eq!(container_of("/x.jpeg"), Container::Jpeg);
    assert_eq!(container_of("/x.png"), Container::Png);
    assert_eq!(container_of("/x.webp"), Container::Other);
}

#[test]
fn remove_personal_rejects_every_icc_profile() {
    let profile = rgb_icc(128);
    let source = jpeg_with_segments(vec![icc_segment(1, 1, &profile)], 3);
    let failure =
        prepare_jpeg_plan(&source, MetadataPolicy::RemovePersonal, JpegOutputColor::Rgb, &None).unwrap_err();
    assert!(failure.user_message().contains("ICC profile"));
    assert!(failure.user_message().contains("unavailable"));
}

#[test]
fn remove_personal_rejects_non_three_component_jpeg() {
    let source = jpeg_with_segments(vec![], 1);
    let failure =
        prepare_jpeg_plan(&source, MetadataPolicy::RemovePersonal, JpegOutputColor::Rgb, &None).unwrap_err();
    assert!(failure.user_message().contains("RGB JPEG input"));
}

#[test]
fn privacy_plan_refuses_malformed_icc_sequences() {
    let profile = rgb_icc(128);
    for segments in [
        vec![icc_segment(0, 1, &profile)],
        vec![icc_segment(1, 0, &profile)],
        vec![icc_segment(1, 2, &profile)],
        vec![icc_segment(1, 2, &profile[..64]), icc_segment(1, 2, &profile[64..])],
        vec![icc_segment(1, 2, &profile[..64]), icc_segment(2, 3, &profile[64..])],
    ] {
        let source = jpeg_with_segments(segments, 3);
        assert!(prepare_jpeg_plan(&source, MetadataPolicy::StripAll, JpegOutputColor::Rgb, &None).is_err());
    }
    let truncated_header = jpeg_with_segments(vec![(0xe2, b"ICC_PROFILE\0".to_vec())], 3);
    assert!(
        prepare_jpeg_plan(&truncated_header, MetadataPolicy::StripAll, JpegOutputColor::Rgb, &None).is_err()
    );
}

#[test]
fn remove_personal_requires_valid_rgb_icc_for_rgb_output() {
    let mut wrong_size = rgb_icc(128);
    wrong_size[..4].copy_from_slice(&127u32.to_be_bytes());
    let mut wrong_magic = rgb_icc(128);
    wrong_magic[36..40].copy_from_slice(b"nope");
    let mut gray = rgb_icc(128);
    gray[16..20].copy_from_slice(b"GRAY");
    for profile in [wrong_size, wrong_magic, gray] {
        let source = jpeg_with_segments(vec![icc_segment(1, 1, &profile)], 3);
        assert!(
            prepare_jpeg_plan(&source, MetadataPolicy::RemovePersonal, JpegOutputColor::Rgb, &None).is_err()
        );
    }
}

#[test]
fn privacy_plan_rejects_invalid_icc_data_color_space() {
    let mut invalid = rgb_icc(128);
    invalid[16..20].copy_from_slice(b"NOPE");
    let source = jpeg_with_segments(vec![icc_segment(1, 1, &invalid)], 3);
    assert!(prepare_jpeg_plan(&source, MetadataPolicy::StripAll, JpegOutputColor::Rgb, &None).is_err());
}

#[test]
fn strip_all_keeps_a_valid_split_profile_out_of_the_output() {
    let profile = rgb_icc(128);
    let source = jpeg_with_segments(
        vec![icc_segment(1, 2, &profile[..64]), icc_segment(2, 2, &profile[64..])],
        3,
    );
    let plan = prepare_jpeg_plan(&source, MetadataPolicy::StripAll, JpegOutputColor::Rgb, &None).unwrap();
    assert_eq!(plan.source_icc, None);
    assert!(!plan.normalize_preserve_exif);
}

#[test]
fn preserve_reassembles_the_profile_and_keeps_the_exif() {
    let profile = vec![37u8; 300];
    let source = jpeg_with_segments(
        vec![
            exif_segment(b"II*\0payload"),
            icc_segment(1, 2, &profile[..100]),
            icc_segment(2, 2, &profile[100..]),
        ],
        3,
    );
    let plan = prepare_jpeg_plan(&source, MetadataPolicy::Preserve, JpegOutputColor::Rgb, &None).unwrap();
    assert_eq!(plan.source_icc, Some(profile));
    assert_eq!(plan.source_exif, Some(b"II*\0payload".to_vec()));
    assert!(plan.normalize_preserve_exif);
    let duplicates = jpeg_with_segments(vec![exif_segment(b"one"), exif_segment(b"two")], 3);
    assert!(prepare_jpeg_plan(&duplicates, MetadataPolicy::Preserve, JpegOutputColor::Rgb, &None).is_err());
    let target = prepare_jpeg_target_plan(&duplicates).unwrap();
    assert_eq!(target.source_exif, Some(b"one".to_vec()));
}

#[test]
fn segments_parse_in_order() {
    let source = jpeg_with_segments(vec![exif_segment(b"x")], 3);
    let segments = parse_jpeg(&source, "source JPEG").unwrap();
    assert!(segments.iter().any(|s| s.marker == 0xe1));
    assert!(segments.iter().any(|s| s.marker == 0xc0));
    assert!(parse_jpeg(b"not a jpeg", "source JPEG").is_err());
}

#[test]
fn icc_profiles_are_validated() {
    assert!(validate_icc_profile(&rgb_icc(128)).is_ok());
    assert!(validate_icc_profile(&vec![0u8; 10]).is_err());
}

fn crc32(bytes: &[u8]) -> u32 {
    let mut crc: u32 = 0xFFFF_FFFF;
    for &b in bytes {
        crc ^= b as u32;
        for _ in 0..8 {
            crc = if crc & 1 != 0 { (crc >> 1) ^ 0xEDB8_8320 } else { crc >> 1 };
        }
    }
    !crc
}

fn png_chunk(kind: &[u8; 4], contents: &[u8]) -> Vec<u8> {
    let mut c = (contents.len() as u32).to_be_bytes().to_vec();
    c.extend_from_slice(kind);
    c.extend_from_slice(contents);
    let mut crc_input = kind.to_vec();
    crc_input.extend_from_slice(contents);
    c.extend_from_slice(&crc32(&crc_input).to_be_bytes());
    c
}

fn png_with_chunks(extra: Vec<Vec<u8>>) -> Vec<u8> {
    let mut b = vec![0x89, 0x50, 0x4e, 0x47, 0x0d, 0x0a, 0x1a, 0x0a];
    let mut ihdr = 1u32.to_be_bytes().to_vec();
    ihdr.extend_from_slice(&1u32.to_be_bytes());
    ihdr.extend_from_slice(&[8, 2, 0, 0, 0]);
    b.extend(png_chunk(b"IHDR", &ihdr));
    for c in extra {
        b.extend(c);
    }
    b.extend(png_chunk(b"IEND", &[]));
    b
}

#[test]
fn jpeg_metadata_is_carried_into_the_output() {
    let profile = rgb_icc(128);
    let exif = b"II*\0\x08\0\0\0\0\0".to_vec();
    let source = jpeg_with_segments(vec![exif_segment(&exif), icc_segment(1, 1, &profile)], 3);
    let (read_exif, read_icc) = metadata_of(Container::Jpeg, &source).unwrap();
    assert_eq!(read_exif.as_deref(), Some(&exif[..]));
    assert_eq!(read_icc.as_deref(), Some(&profile[..]));

    let mut dqt = vec![0u8];
    dqt.extend_from_slice(&[1u8; 64]);
    let output = jpeg_with_segments(
        vec![(0xe0, b"JFIF\0\x01\x01\0\0\x01\0\x01\0\0".to_vec()), (0xdb, dqt.clone()), (0xdb, dqt)],
        3,
    );
    assert_eq!(metadata_of(Container::Jpeg, &output).unwrap(), (None, None));
    let updated = embed_metadata(Container::Jpeg, &output, &read_exif, &read_icc).unwrap();
    assert_ne!(updated, output);
    assert_eq!(metadata_of(Container::Jpeg, &updated).unwrap(), (Some(exif), Some(profile)));
}

#[test]
fn png_metadata_is_carried_into_the_output() {
    let exif = b"MM\0*\0\0\0\x08\0\0".to_vec();
    let profile = rgb_icc(200);
    let output = png_with_chunks(vec![]);
    assert_eq!(metadata_of(Container::Png, &output).unwrap(), (None, None));
    let updated =
        embed_metadata(Container::Png, &output, &Some(exif.clone()), &Some(profile.clone())).unwrap();
    assert_ne!(updated, output);
    assert_eq!(metadata_of(Container::Png, &updated).unwrap(), (Some(exif.clone()), Some(profile)));
    let only_exif = embed_metadata(Container::Png, &output, &Some(exif.clone()), &None).unwrap();
    assert_eq!(metadata_of(Container::Png, &only_exif).unwrap(), (Some(exif), None));
}

#[test]
fn unreadable_png_metadata_is_refused() {
    let no_nul = png_with_chunks(vec![png_chunk(b"iCCP", b"icc")]);
    assert!(png_metadata(&no_nul).unwrap_err().user_message().contains("ICC profile chunk is malformed"));
    assert!(png_metadata(b"not a png").unwrap_err().user_message().starts_with("image: metadata: failed to parse PNG"));
    assert_eq!(metadata_of(Container::Other, b"anything").unwrap(), (None, None));
}

fn exif_with_orientation(value: u16) -> Vec<u8> {
    let mut exif = b"II".to_vec();
    exif.extend_from_slice(&42u16.to_le_bytes());
    exif.extend_from_slice(&8u32.to_le_bytes());
    exif.extend_from_slice(&1u16.to_le_bytes());
    exif.extend_from_slice(&0x0112u16.to_le_bytes());
    exif.extend_from_slice(&3u16.to_le_bytes());
    exif.extend_from_slice(&1u32.to_le_bytes());
    exif.extend_from_slice(&value.to_le_bytes());
    exif.extend_from_slice(&[0, 0]);
    exif.extend_from_slice(&0u32.to_le_bytes());
    exif
}

/// The refusal the EXIF orientation rules give for an orientation outside 1..=8.
fn orientation_refusal() -> Option<GoopError> {
    Some(GoopError::InvalidRequest("Cannot safely process JPEG metadata: EXIF orientation is malformed".into()))
}

#[test]
fn privacy_plan_refuses_duplicate_or_malformed_exif() {
    let duplicates = jpeg_with_segments(
        vec![exif_segment(&exif_with_orientation(1)), exif_segment(&exif_with_orientation(6))],
        3,
    );
    assert!(prepare_jpeg_plan(&duplicates, MetadataPolicy::StripAll, JpegOutputColor::Rgb, &None).is_err());

    // Orientation 9 is malformed; the orientation rules refuse it.
    let malformed = jpeg_with_segments(vec![exif_segment(&exif_with_orientation(9))], 3);
    assert!(prepare_jpeg_plan(
        &malformed,
        MetadataPolicy::RemovePersonal,
        JpegOutputColor::Rgb,
        &orientation_refusal()
    )
    .is_err());
}

#[test]
fn a_malformed_orientation_refuses_every_plan_that_reads_exif() {
    let malformed = jpeg_with_segments(vec![exif_segment(&exif_with_orientation(9))], 3);
    for policy in [MetadataPolicy::Preserve, MetadataPolicy::StripAll, MetadataPolicy::RemovePersonal] {
        let err = prepare_jpeg_plan(&malformed, policy, JpegOutputColor::Rgb, &orientation_refusal())
            .unwrap_err();
        assert_eq!(err, orientation_refusal().unwrap());
    }
    // Without EXIF there is no orientation to judge.
    let plain = jpeg_with_segments(vec![], 3);
    assert!(prepare_jpeg_plan(&plain, MetadataPolicy::Preserve, JpegOutputColor::Rgb, &orientation_refusal()).is_ok());
}
