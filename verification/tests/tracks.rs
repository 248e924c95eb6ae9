use goop_converter::formats::TargetFormat;
use goop_converter::media::{
    VideoRationalFact, AudioProbeDetails, AudioStreamInfo, ProbeResult, SourceKind, VideoProbeDetails, VideoStreamInfo,
};
use goop_converter::track_options::{
    resolve as resolve_selection, selected_audio_stream, selected_track, source_unavailable_reason,
    validate_output_against_selection, verify_source_binding, SourceIdentityLimit,
};
use goop_converter::tracks::{
    TrackConvertOptions, TrackDisposition, TrackIdentity, TrackInventory, TrackSourceBinding,
    TrackStreamPolicy, TrackTextFact,
};
use goop_converter::video_options::{DetectedEncoders, VideoConvertOptions, VideoConvertRequest};
use goop_converter::video_tracks::{
    expected_output_codec_tag, required_tag, resolve, settings, stream_codec_tags,
    validate_output_against_source as validate_tracks_against_source,
    validate_output_codec_tag, ProbedCodecTag, StreamCodecTag, VideoTrackProcessing, VideoTrackRequest,
};

fn value(s: &str) -> TrackTextFact {
    TrackTextFact::Value { value: s.to_string() }
}

fn identity(index: u32, kind: &str, codec: &str, default: bool) -> TrackIdentity {
    TrackIdentity {
        index,
        codec_type: kind.to_string(),
        codec_name: value(codec),
        container_stream_id: TrackTextFact::Missing,
        language: TrackTextFact::Missing,
        title: TrackTextFact::Missing,
        disposition: TrackDisposition {
            default: Some(default),
            forced: Some(false),
            malformed: false,
            other: vec![],
        },
    }
}

fn inventory(streams: Vec<TrackIdentity>) -> TrackInventory {
    TrackInventory { version: 1, streams }
}

fn binding(inv: TrackInventory) -> TrackSourceBinding {
    TrackSourceBinding {
        version: 1,
        canonical_path: "/media/source.mkv".to_string(),
        size_bytes: "6".to_string(),
        modified_unix_ns: "1700000000000000000".to_string(),
        inventory: inv,
    }
}

fn facts(index: u32, kind: &str, codec: &str) -> VideoStreamInfo {
    VideoStreamInfo {
        index,
        codec_type: kind.to_string(),
        codec_name: Some(codec.to_string()),
        pixel_format: None,
        color_transfer: None,
        color_primaries: None,
        color_space: None,
        color_range: None,
        field_order: None,
        sample_aspect_ratio: None,
        average_frame_rate: None,
        base_frame_rate: None,
        time_base: None,
        rotation_degrees: None,
        rotation_ambiguous: false,
        attached_pic: false,
        start_time_ms: Some(0),
        duration_ms: Some(10_000),
    }
}

fn probe(inv: Option<TrackInventory>, streams: Vec<VideoStreamInfo>, has_audio: bool) -> ProbeResult {
    ProbeResult {
        video_details: Some(VideoProbeDetails { streams }),
        duration_ms: 10_000,
        width: Some(1280),
        height: Some(720),
        video_codec: Some("h264".to_string()),
        audio_codec: None,
        file_size: 1_000,
        container: None,
        has_video: true,
        has_audio,
        source_kind: SourceKind::Video,
        color_space: None,
        image_format: None,
        has_subtitles: false,
        subtitle_codecs: vec![],
        audio_codecs: vec![],
        image_has_alpha: None,
        audio_details: None,
        track_inventory: inv,
    }
}

fn empty_probe() -> ProbeResult {
    let mut p = probe(Some(inventory(vec![])), vec![], false);
    p.video_details = None;
    p.source_kind = SourceKind::Audio;
    p
}

#[test]
fn unavailable_reason_is_specific_to_audio_with_no_complete_inventory() {
    let mut probe = empty_probe();
    assert_eq!(source_unavailable_reason(&probe, None), None);
    probe.has_audio = true;
    probe.track_inventory = None;
    assert!(source_unavailable_reason(&probe, None)
        .unwrap()
        .contains("complete bounded stream inventory"));
}

#[test]
fn wrong_but_nonempty_output_container_tags_are_rejected() {
    assert!(validate_output_codec_tag(TargetFormat::Mp4, "aac", &value("wrong")).is_err());
    assert!(validate_output_codec_tag(TargetFormat::Mkv, "ass", &value("[0][0][0][0]")).is_ok());
}

#[test]
fn identity_limits_name_their_reason() {
    assert!(SourceIdentityLimit::PreEpochModified.unavailable_reason().contains("1970"));
    assert_eq!(
        SourceIdentityLimit::NonUtf8CanonicalPath.strict_error().user_message(),
        "Track selection requires a UTF-8 source path"
    );
}

#[test]
fn malformed_identity_disables_only_selection() {
    let mut inv = inventory(vec![identity(1, "audio", "aac", true)]);
    inv.streams[0].language = TrackTextFact::Malformed;
    let mut p = empty_probe();
    p.has_audio = true;
    p.track_inventory = Some(inv);
    assert!(source_unavailable_reason(&p, None).unwrap().contains("malformed stream identity"));
    p.track_inventory = Some(inventory(vec![identity(1, "audio", "aac", true)]));
    assert!(source_unavailable_reason(&p, None).unwrap().contains("64 KiB"));
}

#[test]
fn a_changed_binding_is_rejected() {
    let expected = binding(inventory(vec![identity(1, "audio", "aac", true)]));
    assert!(verify_source_binding(&expected, Some(&expected.clone())).is_ok());
    let mut moved = expected.clone();
    moved.canonical_path = "/different/source.mkv".to_string();
    assert!(verify_source_binding(&expected, Some(&moved)).is_err());
    let mut retitled = expected.clone();
    retitled.inventory.streams[0].title = value("changed metadata");
    assert!(verify_source_binding(&expected, Some(&retitled)).is_err());
    assert!(verify_source_binding(&expected, None).is_err());
}

#[test]
fn an_audio_selection_discloses_what_it_drops() {
    let inv = inventory(vec![
        identity(0, "video", "h264", true),
        identity(1, "audio", "aac", true),
        identity(3, "audio", "aac", false),
    ]);
    let options = Some(TrackConvertOptions::Audio { source: binding(inv.clone()), stream_index: 3 });
    let p = probe(Some(inv.clone()), vec![], true);
    assert_eq!(selected_track(&options, &p).unwrap().unwrap().index, 3);
    let summary = resolve_selection(&options, &p).unwrap().unwrap();
    assert_eq!(summary.selected.index, 3);
    assert_eq!(summary.dropped_audio.len(), 1);
    assert_eq!(summary.dropped_other.len(), 1);
    assert_eq!(
        summary.notices,
        vec!["1 additional audio stream was omitted", "1 non-audio stream was omitted"]
    );
    let gone = Some(TrackConvertOptions::Audio { source: binding(inv.clone()), stream_index: 7 });
    assert_eq!(
        selected_track(&gone, &p).unwrap_err().user_message(),
        "The selected audio track is no longer present; reinspect the source"
    );
    assert!(selected_track(&None, &p).unwrap().is_none());
}

fn video_request(target: TargetFormat, opts: VideoConvertOptions, options: TrackConvertOptions) -> VideoTrackRequest {
    VideoTrackRequest {
        video: VideoConvertRequest { target, resolution_cap: None, video_options: Some(opts) },
        track_options: Some(options),
    }
}

#[test]
fn video_policies_map_retained_streams_after_the_video() {
    let mut sub = identity(2, "subtitle", "subrip", false);
    sub.language = value("eng");
    let inv = inventory(vec![
        identity(0, "video", "h264", true),
        identity(1, "audio", "aac", true),
        sub,
    ]);
    let p = probe(
        Some(inv.clone()),
        vec![facts(0, "video", "h264"), facts(1, "audio", "aac"), facts(2, "subtitle", "subrip")],
        true,
    );
    let options = TrackConvertOptions::Video {
        source: binding(inv),
        audio: TrackStreamPolicy::KeepAll,
        subtitles: TrackStreamPolicy::KeepAll,
    };
    let plan = resolve(
        &video_request(TargetFormat::Mkv, VideoConvertOptions::Copy, options),
        &p,
        &DetectedEncoders { available: vec![] },
    )
    .unwrap();
    assert_eq!(
        plan.plan.args,
        vec![
            "-map", "0:0", "-c:v", "copy", "-map", "0:1", "-c:a:0", "copy", "-disposition:a:0",
            "default", "-map", "0:2", "-c:s:0", "copy", "-metadata:s:s:0", "language=eng",
            "-disposition:s:0", "0",
        ]
    );
    assert_eq!(plan.track_summary.retained.len(), 2);
    assert_eq!(plan.track_summary.retained[0].output_stream_index, 1);
    assert_eq!(plan.track_summary.retained[1].output_stream_index, 2);
    assert_eq!(plan.track_summary.retained[0].processing, VideoTrackProcessing::Copied);
}

#[test]
fn dropped_streams_are_counted_in_the_notices() {
    let inv = inventory(vec![
        identity(0, "video", "h264", true),
        identity(1, "audio", "aac", true),
        identity(2, "audio", "vorbis", false),
    ]);
    let p = probe(
        Some(inv.clone()),
        vec![facts(0, "video", "h264"), facts(1, "audio", "aac"), facts(2, "audio", "vorbis")],
        true,
    );
    let options = TrackConvertOptions::Video {
        source: binding(inv),
        audio: TrackStreamPolicy::Choose { stream_indices: vec![1] },
        subtitles: TrackStreamPolicy::KeepNone,
    };
    let plan = resolve(
        &video_request(TargetFormat::Mp4, VideoConvertOptions::Copy, options),
        &p,
        &DetectedEncoders { available: vec![] },
    )
    .unwrap();
    assert_eq!(plan.track_summary.omitted_audio.len(), 1);
    assert_eq!(plan.track_summary.notices, vec!["1 audio stream(s) omitted by request."]);
}

#[test]
fn mp4_requires_a_retained_default_audio_stream() {
    let inv = inventory(vec![identity(0, "video", "h264", true), identity(1, "audio", "aac", false)]);
    let p = probe(Some(inv.clone()), vec![facts(0, "video", "h264"), facts(1, "audio", "aac")], true);
    let options = TrackConvertOptions::Video {
        source: binding(inv),
        audio: TrackStreamPolicy::KeepAll,
        subtitles: TrackStreamPolicy::KeepAll,
    };
    let err = resolve(
        &video_request(TargetFormat::Mp4, VideoConvertOptions::Copy, options),
        &p,
        &DetectedEncoders { available: vec![] },
    )
    .unwrap_err();
    assert!(err.user_message().starts_with("MP4 and MOV require one retained source-default audio stream"));
}

#[test]
fn a_changed_inventory_is_refused() {
    let inv = inventory(vec![identity(0, "video", "h264", true)]);
    let p = probe(None, vec![facts(0, "video", "h264")], false);
    let options = TrackConvertOptions::Video {
        source: binding(inv),
        audio: TrackStreamPolicy::KeepAll,
        subtitles: TrackStreamPolicy::KeepAll,
    };
    assert_eq!(
        resolve(
            &video_request(TargetFormat::Mkv, VideoConvertOptions::Copy, options),
            &p,
            &DetectedEncoders { available: vec![] },
        )
        .unwrap_err()
        .user_message(),
        "The source track inventory changed; reinspect it before converting"
    );
}

#[test]
fn settings_offer_per_stream_and_policy_modes() {
    let inv = inventory(vec![
        identity(0, "video", "h264", true),
        identity(1, "audio", "vorbis", true),
        identity(2, "subtitle", "ass", false),
    ]);
    let p = probe(
        Some(inv.clone()),
        vec![facts(0, "video", "h264"), facts(1, "audio", "vorbis"), facts(2, "subtitle", "ass")],
        true,
    );
    let caps = settings(&p, TargetFormat::Mp4, &DetectedEncoders { available: vec!["aac".to_string()] }, &binding(inv))
        .unwrap();
    assert_eq!(caps.audio_tracks.len(), 1);
    assert!(!caps.audio_tracks[0].copy.available);
    assert_eq!(
        caps.audio_tracks[0].copy.reason.as_deref(),
        Some("vorbis audio cannot be copied into mp4")
    );
    assert!(caps.audio_tracks[0].custom.available);
    assert!(!caps.subtitle_tracks[0].copy.available);
    assert!(caps.audio_policy.custom.keep_all.available);
    assert!(!caps.audio_policy.copy.keep_all.available);
    assert!(caps.subtitle_policy.copy.none.available);
}

#[test]
fn codec_tags_are_required_and_expected() {
    assert_eq!(expected_output_codec_tag(TargetFormat::Mov, "mp3"), Some(".mp3"));
    assert_eq!(expected_output_codec_tag(TargetFormat::Mp4, "dts"), None);
    let tags = vec![
        StreamCodecTag { index: 1, tag: value("mp4a"), handler_title: TrackTextFact::Missing },
        StreamCodecTag { index: 2, tag: value(""), handler_title: TrackTextFact::Missing },
    ];
    assert_eq!(required_tag(&tags, 1, "Source").unwrap(), value("mp4a"));
    assert_eq!(
        required_tag(&tags, 2, "Source").unwrap_err().user_message(),
        "Source codec tag is missing for stream 2"
    );
    assert_eq!(
        required_tag(&tags, 3, "Completed output").unwrap_err().user_message(),
        "Completed output codec tag is unavailable for stream 3"
    );
    assert_eq!(
        validate_output_codec_tag(TargetFormat::Webm, "opus", &value("x")).unwrap_err().user_message(),
        "No verified webm container tag exists for opus"
    );
}

fn audio_fact(index: u32) -> AudioStreamInfo {
    AudioStreamInfo {
        index,
        codec_name: Some("aac".to_string()),
        sample_rate: Some(48_000),
        channels: Some(2),
    }
}

fn audio_details(indices: &[u32], has_non_audio_streams: bool) -> Option<AudioProbeDetails> {
    Some(AudioProbeDetails {
        streams: indices.iter().map(|i| audio_fact(*i)).collect(),
        has_non_audio_streams,
    })
}

#[test]
fn explicit_audio_settings_apply_to_the_selected_or_only_stream() {
    let inv = inventory(vec![identity(1, "audio", "aac", true), identity(3, "audio", "aac", false)]);
    let mut p = empty_probe();
    p.has_audio = true;
    p.track_inventory = Some(inv.clone());
    assert!(selected_audio_stream(&None, &p)
        .unwrap_err()
        .user_message()
        .contains("complete fresh audio stream facts"));
    p.audio_details = audio_details(&[1, 3], false);
    assert!(selected_audio_stream(&None, &p)
        .unwrap_err()
        .user_message()
        .contains("Choose Automatic"));
    let chosen = Some(TrackConvertOptions::Audio { source: binding(inv.clone()), stream_index: 3 });
    assert_eq!(selected_audio_stream(&chosen, &p).unwrap().index, 3);
    p.audio_details = audio_details(&[1], false);
    assert!(selected_audio_stream(&chosen, &p).unwrap_err().user_message().contains("reinspect"));
    assert_eq!(selected_audio_stream(&None, &p).unwrap().index, 1);
}

#[test]
fn selected_track_output_must_hold_exactly_the_disclosed_stream() {
    let inv = inventory(vec![identity(0, "video", "h264", true), identity(1, "audio", "aac", true)]);
    let mut p = empty_probe();
    p.track_inventory = Some(inv.clone());
    let chosen = Some(TrackConvertOptions::Audio { source: binding(inv), stream_index: 1 });
    let summary = resolve_selection(&chosen, &p).unwrap().unwrap();
    assert_eq!(summary.output_stream_index, 0);
    let mut out = empty_probe();
    assert!(validate_output_against_selection(&summary, &out).is_err());
    out.audio_details = audio_details(&[0], false);
    assert!(validate_output_against_selection(&summary, &out).is_ok());
    out.audio_details = audio_details(&[0], true);
    assert!(validate_output_against_selection(&summary, &out)
        .unwrap_err()
        .user_message()
        .contains("exactly the disclosed audio stream"));
    out.audio_details = audio_details(&[1], false);
    assert!(validate_output_against_selection(&summary, &out).is_err());
    out.audio_details = audio_details(&[0, 1], false);
    assert!(validate_output_against_selection(&summary, &out).is_err());
}

fn reported(index: u32, tag: Option<&str>, handler: Option<&str>) -> ProbedCodecTag {
    ProbedCodecTag {
        index,
        codec_tag_string: tag.map(|t| t.to_string()),
        handler_name: handler.map(|h| h.to_string()),
    }
}

#[test]
fn codec_tags_drop_empty_tags_and_generic_handlers() {
    let tags = stream_codec_tags(&vec![
        reported(0, Some("avc1"), Some("VideoHandler")),
        reported(1, Some(""), Some("Commentary")),
        reported(2, None, Some("")),
    ])
    .unwrap();
    assert_eq!(tags.len(), 3);
    assert_eq!(tags[0].tag, value("avc1"));
    assert_eq!(tags[0].handler_title, TrackTextFact::Missing);
    assert_eq!(tags[1].tag, TrackTextFact::Missing);
    assert_eq!(tags[1].handler_title, value("Commentary"));
    assert_eq!(tags[2].index, 2);
    assert_eq!(tags[2].handler_title, TrackTextFact::Missing);
}

#[test]
fn codec_tag_indices_must_strictly_increase() {
    let err = stream_codec_tags(&vec![reported(1, None, None), reported(1, None, None)]).unwrap_err();
    assert_eq!(err.user_message(), "Codec-tag probe indices are not strictly ordered");
    assert!(stream_codec_tags(&vec![reported(2, None, None), reported(0, None, None)]).is_err());
    assert!(stream_codec_tags(&vec![]).unwrap().is_empty());
}

#[test]
fn finished_outputs_are_checked_against_the_retained_plan() {
    let inv = inventory(vec![identity(0, "video", "h264", true), identity(1, "audio", "aac", true)]);
    let mut video = facts(0, "video", "h264");
    video.average_frame_rate = Some(VideoRationalFact::Exact { numerator: 30, denominator: 1 });
    video.base_frame_rate = Some(VideoRationalFact::Exact { numerator: 30, denominator: 1 });
    video.time_base = Some(VideoRationalFact::Exact { numerator: 1, denominator: 1_000 });
    let source = probe(Some(inv.clone()), vec![video, facts(1, "audio", "aac")], true);
    let options = TrackConvertOptions::Video {
        source: binding(inv.clone()),
        audio: TrackStreamPolicy::KeepAll,
        subtitles: TrackStreamPolicy::KeepAll,
    };
    let plan = resolve(
        &video_request(TargetFormat::Mkv, VideoConvertOptions::Copy, options),
        &source,
        &DetectedEncoders { available: vec![] },
    )
    .unwrap();
    let done = validate_tracks_against_source(
        &plan.video_summary,
        &plan.track_summary,
        &source,
        &source,
        TargetFormat::Mkv,
    )
    .unwrap();
    assert_eq!(done.retained.len(), 1);
    assert_eq!(done.retained[0].output_codec_name, value("aac"));

    let mut relabelled = source.clone();
    relabelled.track_inventory.as_mut().unwrap().streams[1].language = value("fra");
    let err = validate_tracks_against_source(
        &plan.video_summary,
        &plan.track_summary,
        &source,
        &relabelled,
        TargetFormat::Mkv,
    )
    .unwrap_err();
    assert!(err
        .user_message()
        .starts_with("Completed auxiliary stream 1 does not match expected output 1"));

    let mut missing = source.clone();
    missing.track_inventory.as_mut().unwrap().streams.pop();
    assert_eq!(
        validate_tracks_against_source(
            &plan.video_summary,
            &plan.track_summary,
            &source,
            &missing,
            TargetFormat::Mkv,
        )
        .unwrap_err()
        .user_message(),
        "Completed video stream count does not match the exact retained set"
    );

    let mut shifted = source.clone();
    shifted.video_details.as_mut().unwrap().streams[1].start_time_ms = Some(5_000);
    shifted.video_details.as_mut().unwrap().streams[1].duration_ms = Some(5_000);
    assert_eq!(
        validate_tracks_against_source(
            &plan.video_summary,
            &plan.track_summary,
            &source,
            &shifted,
            TargetFormat::Mkv,
        )
        .unwrap_err()
        .user_message(),
        "Completed retained audio timing is outside the accepted tolerance"
    );
}
