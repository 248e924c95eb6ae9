use goop_converter::error::GoopError;
use goop_converter::formats::TargetFormat;
use goop_converter::preview::{
    deterministic_unavailable, edge, validate_request_admission, validate_source_facts,
    validate_color_sample_request, ColorSampleRequest, PreviewAdmission, PreviewSourceFacts,
    RasterEncoding, SourceFactsRequest, preview_source_family, remove_artifacts, scale_heic_sample_dimensions, validate_pixels,
    validate_request_identity, CompressMode, PreviewSettings, PreviewSourceFamily,
    PublishedArtifacts, RemovalOutcome,
};
use goop_converter::video_options::ResolutionCap;

fn settings(target: TargetFormat) -> PreviewSettings {
    PreviewSettings {
        target,
        resolution_cap: None,
        compress_mode: None,
        quality_preset_original: None,
        image_resize_original: None,
    }
}

#[test]
fn the_pixel_budget_is_four_million() {
    assert!(validate_pixels(2000, 2000).is_ok());
    assert!(validate_pixels(2001, 2000).is_err());
    assert!(validate_pixels(0, 10).is_err());
    assert!(validate_pixels(32_769, 1).is_err());
    assert_eq!(
        validate_pixels(4000, 4000).unwrap_err().user_message(),
        "Sample preview unavailable: source exceeds the 4 million decoded-pixel limit"
    );
}

#[test]
fn request_identity_is_bounded() {
    assert!(validate_request_identity("captured").is_ok());
    assert!(validate_request_identity("").is_err());
    assert!(validate_request_identity(&"x".repeat(201)).is_err());
    assert!(validate_request_identity(&"x".repeat(200)).is_ok());
}

#[test]
fn families_follow_the_extension_and_target() {
    assert_eq!(
        preview_source_family(&settings(TargetFormat::Png), "png", false, true).unwrap(),
        PreviewSourceFamily::Raster
    );
    assert_eq!(
        preview_source_family(&settings(TargetFormat::Mp4), "mov", false, true).unwrap(),
        PreviewSourceFamily::Video
    );
    assert_eq!(
        preview_source_family(&settings(TargetFormat::Webm), "mov", false, true)
            .unwrap_err()
            .user_message(),
        "Video sample preview is available for MP4 only"
    );
    assert_eq!(
        preview_source_family(&settings(TargetFormat::Png), "psd", true, true)
            .unwrap_err()
            .user_message(),
        "Sample preview unavailable for this image source; bounded decoding is not supported"
    );
    assert_eq!(
        preview_source_family(&settings(TargetFormat::Gif), "jpg", false, true)
            .unwrap_err()
            .user_message(),
        "Sample preview unavailable for this image target"
    );
}

#[test]
fn heic_needs_the_feature_and_explicit_jpeg_settings() {
    let err = preview_source_family(&settings(TargetFormat::Jpeg), "heic", false, false).unwrap_err();
    assert!(matches!(err, GoopError::PreviewUnavailable(_)));
    assert_eq!(
        preview_source_family(&settings(TargetFormat::Jpeg), "heic", false, true)
            .unwrap_err()
            .user_message(),
        "Bounded HEIC preview requires explicit JPEG conversion settings"
    );
    let mut explicit = settings(TargetFormat::Jpeg);
    explicit.image_resize_original = Some(true);
    assert_eq!(
        preview_source_family(&explicit, "heif", false, true).unwrap(),
        PreviewSourceFamily::Heic
    );
}

#[test]
fn image_previews_refuse_video_only_settings() {
    let mut capped = settings(TargetFormat::Png);
    capped.resolution_cap = Some(ResolutionCap::R720p);
    assert_eq!(
        preview_source_family(&capped, "png", false, true).unwrap_err().user_message(),
        "Image conversion does not support resolution caps"
    );
    let mut lossless = settings(TargetFormat::Jpeg);
    lossless.compress_mode = Some(CompressMode::LosslessReoptimize);
    assert_eq!(
        preview_source_family(&lossless, "jpg", false, true).unwrap_err().user_message(),
        "Lossless JPEG sample preview is unavailable"
    );
    let mut quality = settings(TargetFormat::Png);
    quality.compress_mode = Some(CompressMode::Quality(80));
    assert_eq!(
        preview_source_family(&quality, "png", false, true).unwrap_err().user_message(),
        "Sample quality control is available for JPEG and WebP only"
    );
    let mut fit = settings(TargetFormat::Jpeg);
    fit.image_resize_original = Some(false);
    assert_eq!(
        preview_source_family(&fit, "jpg", false, true).unwrap_err().user_message(),
        "Fit within image samples are not available yet"
    );
}

fn artifact(id: &str) -> PublishedArtifacts {
    PublishedArtifacts { request_id: id.to_string(), path: format!("/tmp/{id}.png") }
}

#[test]
fn cleanup_retains_only_failed_removals_and_reports_the_first_error() {
    let artifacts = vec![artifact("a"), artifact("b"), artifact("c"), artifact("d")];
    let outcomes = vec![
        RemovalOutcome::Removed,
        RemovalOutcome::Failed("busy".to_string()),
        RemovalOutcome::NotFound,
        RemovalOutcome::Failed("denied".to_string()),
    ];
    let (retained, first) = remove_artifacts(artifacts, &outcomes);
    assert_eq!(retained, vec![artifact("b"), artifact("d")]);
    assert_eq!(first.as_deref(), Some("busy"));
    let (retained, first) = remove_artifacts(
        vec![artifact("a"), artifact("b")],
        &vec![RemovalOutcome::Removed, RemovalOutcome::NotFound],
    );
    assert!(retained.is_empty());
    assert_eq!(first, None);
}

#[test]
fn heic_sample_dimensions_follow_the_primary_plan() {
    assert_eq!(
        scale_heic_sample_dimensions((4000, 3000), (400, 300), (1280, 960)).unwrap(),
        (128, 96)
    );
    assert_eq!(
        scale_heic_sample_dimensions((4000, 3000), (400, 300), (8000, 1)).unwrap(),
        (400, 1)
    );
}

#[test]
fn sample_edges_follow_the_resolution_cap() {
    assert_eq!(edge(Some(ResolutionCap::R480p)), 854);
    assert_eq!(edge(Some(ResolutionCap::R720p)), 1280);
    assert_eq!(edge(Some(ResolutionCap::R1080p)), 1280);
    assert_eq!(edge(None), 1280);
}

#[test]
fn admission_refusals_become_unavailable_answers() {
    let answer = deterministic_unavailable(GoopError::InvalidRequest("Quality must be between 1 and 100".into()));
    assert!(!answer.available);
    assert_eq!(answer.reason.as_deref(), Some("Quality must be between 1 and 100"));
    let answer = deterministic_unavailable(GoopError::PreviewUnavailable("No video".into()));
    assert_eq!(answer.reason.as_deref(), Some("No video"));
}

fn admission(target: TargetFormat) -> PreviewAdmission {
    PreviewAdmission {
        has_video_options: false,
        image_options_verdict: None,
        compress_mode: None,
        target,
        has_subtitle: false,
        has_gif_options: false,
    }
}

#[test]
fn admission_refuses_what_a_sample_cannot_show() {
    assert!(validate_request_admission(&admission(TargetFormat::Mp4)).is_ok());
    let mut r = admission(TargetFormat::Mp4);
    r.has_video_options = true;
    assert!(validate_request_admission(&r).unwrap_err().user_message().starts_with("Explicit video previews"));
    let mut r = admission(TargetFormat::Png);
    r.image_options_verdict = Some(Ok(()));
    assert_eq!(
        validate_request_admission(&r).unwrap_err().user_message(),
        "Explicit image samples require a JPEG target"
    );
    r.image_options_verdict = Some(Err(GoopError::InvalidRequest("bad settings".into())));
    assert_eq!(validate_request_admission(&r).unwrap_err().user_message(), "bad settings");
    let mut r = admission(TargetFormat::Jpeg);
    r.image_options_verdict = Some(Ok(()));
    r.compress_mode = Some(CompressMode::Quality(80));
    assert_eq!(
        validate_request_admission(&r).unwrap_err().user_message(),
        "Image settings cannot be combined with compression"
    );
    let mut r = admission(TargetFormat::Jpeg);
    r.compress_mode = Some(CompressMode::TargetSizeBytes(1_000));
    assert!(validate_request_admission(&r).unwrap_err().user_message().contains("target-size"));
    r.compress_mode = Some(CompressMode::Quality(0));
    assert_eq!(validate_request_admission(&r).unwrap_err().user_message(), "Quality must be between 1 and 100");
    r.compress_mode = Some(CompressMode::Quality(100));
    assert!(validate_request_admission(&r).is_ok());
    r.has_gif_options = true;
    assert!(validate_request_admission(&r).unwrap_err().user_message().contains("GIF"));
}

fn facts_request(target: TargetFormat) -> SourceFactsRequest {
    SourceFactsRequest {
        target,
        has_image_options: false,
        uses_managed_image_path: false,
        has_alpha_policy: false,
    }
}

fn raster(format: RasterEncoding, has_alpha: bool) -> PreviewSourceFacts {
    PreviewSourceFacts::Raster { format, width: 640, height: 480, decoded_bytes: 640 * 480 * 4, has_alpha }
}

#[test]
fn source_facts_decide_whether_a_sample_is_possible() {
    let jpeg = facts_request(TargetFormat::Jpeg);
    assert!(validate_source_facts(&jpeg, &raster(RasterEncoding::Png, false), (0, 0)).is_ok());
    assert!(validate_source_facts(&jpeg, &raster(RasterEncoding::Other, false), (0, 0)).is_err());
    assert!(validate_source_facts(&jpeg, &raster(RasterEncoding::Png, true), (0, 0))
        .unwrap_err()
        .user_message()
        .starts_with("JPEG removes transparency"));
    let mut explicit = jpeg;
    explicit.has_image_options = true;
    assert!(validate_source_facts(&explicit, &raster(RasterEncoding::WebP, false), (0, 0)).is_err());
    explicit.uses_managed_image_path = true;
    assert!(validate_source_facts(&explicit, &raster(RasterEncoding::WebP, false), (0, 0)).is_ok());
    let huge = PreviewSourceFacts::Raster {
        format: RasterEncoding::Jpeg,
        width: 4_000,
        height: 1_000,
        decoded_bytes: 64_000_001,
        has_alpha: false,
    };
    assert_eq!(
        validate_source_facts(&jpeg, &huge, (0, 0)).unwrap_err().user_message(),
        "Decoded image exceeds preview memory limit"
    );
    let gone = PreviewSourceFacts::Unavailable("No thumbnail".into());
    assert!(matches!(validate_source_facts(&jpeg, &gone, (0, 0)), Err(GoopError::PreviewUnavailable(_))));
    let mp4 = facts_request(TargetFormat::Mp4);
    let video = PreviewSourceFacts::Video { has_video: true, duration_ms: 5_000, width: Some(1920), height: Some(1080) };
    assert!(validate_source_facts(&mp4, &video, (1280, 720)).is_ok());
    assert_eq!(
        validate_source_facts(&mp4, &video, (1280, 1)).unwrap_err().user_message(),
        "Invalid video dimensions"
    );
    let silent = PreviewSourceFacts::Video { has_video: true, duration_ms: 0, width: Some(1920), height: Some(1080) };
    assert!(validate_source_facts(&mp4, &silent, (1280, 720)).unwrap_err().user_message().contains("known duration"));
}

fn color_request(target: TargetFormat) -> ColorSampleRequest {
    ColorSampleRequest {
        target,
        color_policy_preserve: false,
        has_alpha_policy: false,
        has_compress_mode: false,
        has_video_options: false,
        has_gif_options: false,
        has_subtitle: false,
        quality_preset_original: None,
        resolution_cap: None,
        image_options_verdict: None,
    }
}

#[test]
fn colour_managed_samples_refuse_unsupported_requests() {
    assert!(validate_color_sample_request(&color_request(TargetFormat::Png)).is_ok());
    let mut r = color_request(TargetFormat::Png);
    r.has_alpha_policy = true;
    assert_eq!(
        validate_color_sample_request(&r).unwrap_err().user_message(),
        "Transparency flattening is currently available only for JPEG output"
    );
    let mut r = color_request(TargetFormat::Jpeg);
    r.has_alpha_policy = true;
    r.color_policy_preserve = true;
    assert!(validate_color_sample_request(&r).unwrap_err().user_message().contains("Convert to sRGB"));
    assert!(validate_color_sample_request(&color_request(TargetFormat::Webp)).is_err());
    let mut r = color_request(TargetFormat::Jpeg);
    r.has_compress_mode = true;
    assert!(validate_color_sample_request(&r).unwrap_err().user_message().contains("Convert only"));
    let mut r = color_request(TargetFormat::Jpeg);
    r.resolution_cap = Some(ResolutionCap::R720p);
    assert!(validate_color_sample_request(&r).unwrap_err().user_message().contains("cannot be combined"));
    r.resolution_cap = Some(ResolutionCap::Original);
    r.quality_preset_original = Some(true);
    assert!(validate_color_sample_request(&r).is_ok());
    let mut r = color_request(TargetFormat::Png);
    r.image_options_verdict = Some(Ok(()));
    assert!(validate_color_sample_request(&r).unwrap_err().user_message().contains("require JPEG output"));
    r.image_options_verdict = Some(Err(GoopError::InvalidRequest("bad".into())));
    assert_eq!(validate_color_sample_request(&r).unwrap_err().user_message(), "bad");
}
