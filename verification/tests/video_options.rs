use goop_converter::formats::TargetFormat;
use goop_converter::media::{
    ProbeResult, SourceKind, VideoProbeDetails, VideoRationalFact, VideoStreamInfo,
};
use goop_converter::video_options::{
    capabilities, constant_frame_rates, fit_within, resolve, resolve_without_auxiliary,
    validate_copy_facts, validate_output, validate_output_against_source, DetectedEncoders,
    ResolutionCap, VideoCodec, VideoConvertOptions, VideoConvertRequest, VideoFrameRate,
    VideoProcessor, VideoRateControl, VideoResize, VideoSpeed, PREVIEW_REASON,
};

fn text(s: &str) -> Option<String> {
    Some(s.to_string())
}

fn stream(index: u32, kind: &str, codec: &str) -> VideoStreamInfo {
    VideoStreamInfo {
        index,
        codec_type: kind.to_string(),
        codec_name: text(codec),
        pixel_format: None,
        color_transfer: None,
        color_primaries: None,
        color_space: None,
        color_range: None,
        field_order: None,
        sample_aspect_ratio: None,
        average_frame_rate: None,
        base_frame_rate: None,
        time_base: None,
        rotation_degrees: None,
        rotation_ambiguous: false,
        attached_pic: false,
        start_time_ms: Some(0),
        duration_ms: Some(10_000),
    }
}

fn video(codec: &str) -> VideoStreamInfo {
    let mut v = stream(0, "video", codec);
    v.pixel_format = text("yuv420p");
    v.field_order = text("progressive");
    v.sample_aspect_ratio = text("1:1");
    v.color_transfer = text("bt709");
    v.color_primaries = text("bt709");
    v.color_space = text("bt709");
    v.color_range = text("tv");
    v.average_frame_rate = Some(VideoRationalFact::Exact { numerator: 30, denominator: 1 });
    v.base_frame_rate = Some(VideoRationalFact::Exact { numerator: 30, denominator: 1 });
    v.time_base = Some(VideoRationalFact::Exact { numerator: 1, denominator: 15_360 });
    v
}

fn probe(streams: Vec<VideoStreamInfo>) -> ProbeResult {
    ProbeResult {
        video_details: Some(VideoProbeDetails { streams }),
        duration_ms: 10_000,
        width: Some(1920),
        height: Some(1080),
        video_codec: text("h264"),
        audio_codec: text("aac"),
        file_size: 1_000_000,
        container: text("mov,mp4"),
        has_video: true,
        has_audio: true,
        source_kind: SourceKind::Video,
        color_space: None,
        image_format: None,
        has_subtitles: false,
        subtitle_codecs: vec![],
        audio_codecs: vec!["aac".to_string()],
        image_has_alpha: None,
        audio_details: None,
        track_inventory: None,
    }
}

fn encoders(names: &[&str]) -> DetectedEncoders {
    DetectedEncoders { available: names.iter().map(|s| s.to_string()).collect() }
}

fn encode(codec: VideoCodec) -> VideoConvertOptions {
    VideoConvertOptions::Encode {
        codec,
        rate_control: VideoRateControl::ConstantQuality { crf: 23 },
        speed: VideoSpeed::Medium,
        processor: VideoProcessor::Software,
        resize: None,
        frame_rate: None,
    }
}

fn request(target: TargetFormat, options: VideoConvertOptions) -> VideoConvertRequest {
    VideoConvertRequest { target, resolution_cap: None, video_options: Some(options) }
}

#[test]
fn copy_streams_maps_and_copies_both_streams() {
    let p = probe(vec![video("h264"), stream(1, "audio", "aac")]);
    let plan = resolve(&request(TargetFormat::Mp4, VideoConvertOptions::Copy), &p, &encoders(&[]))
        .unwrap();
    assert_eq!(
        plan.plan.args,
        vec!["-map", "0:0", "-map", "0:1", "-c:v", "copy", "-c:a", "copy"]
    );
    assert!(!plan.plan.reencoded);
    assert_eq!(plan.plan.ext, "mp4");
    assert_eq!(plan.summary.video_codec, VideoCodec::H264);
    assert_eq!(plan.summary.encoder, None);
    assert!(plan.summary.audio_copied);
    assert_eq!(plan.summary.audio_codec.as_deref(), Some("aac"));
    assert_eq!((plan.summary.width, plan.summary.height), (1920, 1080));
}

#[test]
fn copy_streams_refuses_codecs_other_than_h264_and_hevc() {
    let p = probe(vec![video("vp9")]);
    let err = resolve(&request(TargetFormat::Mkv, VideoConvertOptions::Copy), &p, &encoders(&[]))
        .unwrap_err();
    assert_eq!(err.user_message(), "Copy streams currently requires H.264 or HEVC video");
}

#[test]
fn copy_streams_cannot_copy_unsupported_audio() {
    let p = probe(vec![video("h264"), stream(1, "audio", "vorbis")]);
    let err = resolve(&request(TargetFormat::Mp4, VideoConvertOptions::Copy), &p, &encoders(&[]))
        .unwrap_err();
    assert_eq!(
        err.user_message(),
        "Copy streams cannot copy vorbis audio into mp4; choose Custom encode for AAC audio"
    );
}

#[test]
fn custom_encode_builds_the_software_encoder_arguments() {
    let p = probe(vec![video("h264"), stream(1, "audio", "aac")]);
    let plan = resolve(
        &request(TargetFormat::Mp4, encode(VideoCodec::H264)),
        &p,
        &encoders(&["libx264", "aac"]),
    )
    .unwrap();
    assert_eq!(
        plan.plan.args,
        vec![
            "-map", "0:0", "-map", "0:1", "-c:v", "libx264", "-preset", "medium", "-pix_fmt",
            "yuv420p", "-crf", "23", "-c:a", "copy",
        ]
    );
    assert!(plan.plan.reencoded);
    assert_eq!(plan.summary.encoder.as_deref(), Some("libx264"));
}

#[test]
fn hevc_in_mp4_is_tagged_hvc1() {
    let p = probe(vec![video("h264")]);
    let plan = resolve(
        &request(TargetFormat::Mp4, encode(VideoCodec::Hevc)),
        &p,
        &encoders(&["libx265"]),
    )
    .unwrap();
    let n = plan.plan.args.len();
    assert_eq!(&plan.plan.args[n - 2..], &["-tag:v".to_string(), "hvc1".to_string()]);
}

#[test]
fn a_missing_encoder_is_refused_by_name() {
    let p = probe(vec![video("h264")]);
    let err = resolve(&request(TargetFormat::Mp4, encode(VideoCodec::H264)), &p, &encoders(&[]))
        .unwrap_err();
    assert_eq!(
        err.user_message(),
        "Required software encoder libx264 is unavailable; bundled encoder discovery may have failed"
    );
}

#[test]
fn incompatible_audio_is_encoded_as_aac() {
    let p = probe(vec![video("h264"), stream(1, "audio", "vorbis")]);
    let plan = resolve(
        &request(TargetFormat::Mp4, encode(VideoCodec::H264)),
        &p,
        &encoders(&["libx264", "aac"]),
    )
    .unwrap();
    let n = plan.plan.args.len();
    assert_eq!(&plan.plan.args[n - 4..], &["-c:a", "aac", "-b:a", "192k"]);
    assert!(!plan.summary.audio_copied);
    assert_eq!(
        plan.summary.notices.last().map(String::as_str),
        Some("Incompatible audio is encoded as AAC at 192 kbps independently of video settings.")
    );
}

#[test]
fn fit_within_scales_and_keeps_square_pixels() {
    let p = probe(vec![video("h264")]);
    let mut options = encode(VideoCodec::H264);
    if let VideoConvertOptions::Encode { resize, .. } = &mut options {
        *resize = Some(VideoResize::FitWithin { width: 1280, height: 1280 });
    }
    let plan = resolve(&request(TargetFormat::Mp4, options), &p, &encoders(&["libx264"])).unwrap();
    assert_eq!(plan.plan.video_filters, vec!["scale=1280:720", "setsar=1"]);
    assert_eq!((plan.summary.width, plan.summary.height), (1280, 720));
}

#[test]
fn a_resolution_cap_applies_without_explicit_resize() {
    let p = probe(vec![video("h264")]);
    let mut req = request(TargetFormat::Mp4, encode(VideoCodec::H264));
    req.resolution_cap = Some(ResolutionCap::R720p);
    let plan = resolve(&req, &p, &encoders(&["libx264"])).unwrap();
    assert_eq!(
        plan.plan.video_filters,
        vec!["scale='trunc(min(1280,iw)/2)*2':-2", "setsar=1"]
    );
    assert_eq!((plan.summary.width, plan.summary.height), (1280, 720));
}

#[test]
fn a_constant_frame_rate_adds_the_fps_filter() {
    let p = probe(vec![video("h264")]);
    let mut options = encode(VideoCodec::H264);
    if let VideoConvertOptions::Encode { frame_rate, .. } = &mut options {
        *frame_rate = Some(VideoFrameRate::Constant { numerator: 24_000, denominator: 1_001 });
    }
    let plan = resolve(&request(TargetFormat::Mp4, options), &p, &encoders(&["libx264"])).unwrap();
    assert_eq!(plan.plan.video_filters, vec!["fps=fps=24000/1001:round=near"]);
    assert_eq!(
        plan.summary.resolved_constant_frame_rate,
        Some(VideoRationalFact::Exact { numerator: 24_000, denominator: 1_001 })
    );
}

#[test]
fn quarter_turn_rotation_swaps_the_upright_size() {
    let mut v = video("h264");
    v.rotation_degrees = Some(-90);
    let p = probe(vec![v]);
    let plan = resolve(&request(TargetFormat::Mkv, VideoConvertOptions::Copy), &p, &encoders(&[]))
        .unwrap();
    assert_eq!((plan.summary.width, plan.summary.height), (1080, 1920));
}

#[test]
fn explicit_settings_refuse_extra_streams_and_artwork() {
    let p = probe(vec![video("h264"), stream(1, "subtitle", "subrip")]);
    let err = resolve(&request(TargetFormat::Mkv, VideoConvertOptions::Copy), &p, &encoders(&[]))
        .unwrap_err();
    assert_eq!(
        err.user_message(),
        "Additional or unsupported subtitle stream; explicit video settings support one video and at most one audio stream"
    );
    assert!(resolve_without_auxiliary(
        &request(TargetFormat::Mkv, VideoConvertOptions::Copy),
        &p,
        &encoders(&[])
    )
    .is_ok());
    let mut art = video("h264");
    art.attached_pic = true;
    let err = resolve(&request(TargetFormat::Mkv, VideoConvertOptions::Copy), &probe(vec![art]), &encoders(&[]))
        .unwrap_err();
    assert_eq!(err.user_message(), "Attached artwork is not supported by explicit video settings");
}

#[test]
fn missing_settings_and_duplicate_indices_are_refused() {
    let p = probe(vec![video("h264")]);
    let req = VideoConvertRequest { target: TargetFormat::Mp4, resolution_cap: None, video_options: None };
    assert_eq!(
        resolve(&req, &p, &encoders(&[])).unwrap_err().user_message(),
        "Explicit video settings are required"
    );
    let dup = probe(vec![video("h264"), stream(0, "audio", "aac")]);
    assert_eq!(
        resolve(&request(TargetFormat::Mp4, VideoConvertOptions::Copy), &dup, &encoders(&[]))
            .unwrap_err()
            .user_message(),
        "Duplicate source stream indices"
    );
}

#[test]
fn fit_within_never_enlarges() {
    assert_eq!(fit_within(640, 360, 1920, 1080).unwrap(), (640, 360));
    assert_eq!(fit_within(1921, 1081, 1920, 1080).unwrap(), (1918, 1080));
    assert!(fit_within(1000, 2, 100, 100).is_err());
}

#[test]
fn capabilities_agree_with_the_resolver() {
    let p = probe(vec![video("h264"), stream(1, "audio", "aac")]);
    let caps = capabilities(&p, TargetFormat::Mp4, &encoders(&["libx264"]));
    assert!(caps.copy.available);
    assert!(caps.codecs[0].available);
    assert!(!caps.codecs[1].available);
    assert_eq!(
        caps.codecs[1].reason.as_deref(),
        Some("Required software encoder libx265 is unavailable; bundled encoder discovery may have failed")
    );
    assert!(caps.encode.available);
    assert_eq!(caps.frame_rate.as_ref().unwrap().constant_choices.len(), 8);
    assert_eq!(caps.preview_unavailable_reason.as_deref(), Some(PREVIEW_REASON));
    let vp9 = probe(vec![video("vp9")]);
    let caps = capabilities(&vp9, TargetFormat::Mkv, &encoders(&[]));
    assert!(!caps.copy.available);
    assert!(!caps.encode.available);
    assert!(!caps.resize.as_ref().unwrap().available);
}

#[test]
fn constant_frame_rate_labels() {
    let rates = constant_frame_rates();
    assert_eq!(rates[0].label, "23.976 fps");
    assert_eq!(rates[0].frame_rate, VideoFrameRate::Constant { numerator: 24_000, denominator: 1_001 });
    assert_eq!(rates[7].label, "60 fps");
}

#[test]
fn a_matching_output_validates() {
    let source = probe(vec![video("h264"), stream(1, "audio", "aac")]);
    let plan = resolve(
        &request(TargetFormat::Mp4, VideoConvertOptions::Copy),
        &source,
        &encoders(&[]),
    )
    .unwrap();
    assert!(validate_output(&plan.summary, &source).is_ok());
    assert!(validate_copy_facts(&source, &source).is_ok());
    let mut wider = source.clone();
    wider.width = Some(1280);
    assert!(validate_output(&plan.summary, &wider).is_err());
    assert_eq!(
        validate_copy_facts(&source, &wider).unwrap_err().user_message(),
        "Copied video changed its coded geometry, pixel format or display metadata"
    );
}

#[test]
fn output_timing_is_checked_within_the_tolerance() {
    let source = probe(vec![video("h264")]);
    let mut options = encode(VideoCodec::H264);
    if let VideoConvertOptions::Encode { frame_rate, .. } = &mut options {
        *frame_rate = Some(VideoFrameRate::Preserve);
    }
    let plan = resolve(&request(TargetFormat::Mp4, options), &source, &encoders(&["libx264"]))
        .unwrap();
    assert!(validate_output_against_source(&plan.summary, &source, &source).is_ok());
    let mut longer = source.clone();
    longer.duration_ms = 10_100;
    assert_eq!(
        validate_output_against_source(&plan.summary, &source, &longer)
            .unwrap_err()
            .user_message(),
        "Completed video duration differs from the source by more than the 35 ms timing tolerance"
    );
}
