use goop_converter::media::{SourceKind, VideoRationalFact};
use goop_converter::display_matrix::{parse_i64, valid_display_matrix};
use goop_converter::probe::{
    gcd, image_probe_result, stream_identity, stream_rotation, ticks_duration_ms, RotationTags,
    SideDataFacts, SideDataItem, probe_result, rational_fact, recorded_rotation, rotation_summary, ProbeFacts, ProbedStream,
};

fn stream(kind: &str, codec: &str) -> ProbedStream {
    ProbedStream {
        codec_type: Some(kind.to_string()),
        codec_name: Some(codec.to_string()),
        width: None,
        height: None,
    }
}

fn facts(streams: Vec<ProbedStream>) -> ProbeFacts {
    ProbeFacts { duration_ms: 0, size: None, format_name: None, streams }
}

#[test]
fn a_bare_subtitle_file_is_a_subtitle_source() {
    let r = probe_result(&facts(vec![stream("subtitle", "subrip")]), None);
    assert_eq!(r.source_kind, SourceKind::Subtitle);
    assert!(r.has_subtitles);
    assert_eq!(r.subtitle_codecs, vec!["subrip"]);
    assert!(!r.has_video);
    assert!(!r.has_audio);
}

#[test]
fn video_with_embedded_subtitles_stays_a_video_source() {
    let mut v = stream("video", "h264");
    v.width = Some(1280);
    v.height = Some(720);
    let r = probe_result(
        &facts(vec![v, stream("audio", "aac"), stream("subtitle", "subrip")]),
        None,
    );
    assert_eq!(r.source_kind, SourceKind::Video);
    assert!(r.has_video && r.has_audio && r.has_subtitles);
    assert_eq!(r.width, Some(1280));
    assert_eq!(r.video_codec.as_deref(), Some("h264"));
}

#[test]
fn every_audio_stream_is_listed_in_order_and_the_first_is_named() {
    let r = probe_result(
        &facts(vec![
            stream("video", "h264"),
            stream("audio", "aac"),
            stream("audio", "ac3"),
            stream("audio", "vorbis"),
        ]),
        None,
    );
    assert_eq!(r.audio_codecs, vec!["aac", "ac3", "vorbis"]);
    assert_eq!(r.audio_codec.as_deref(), Some("aac"));
}

#[test]
fn missing_facts_default_to_nothing() {
    let r = probe_result(&facts(vec![]), None);
    assert_eq!(r.duration_ms, 0);
    assert_eq!(r.file_size, 0);
    assert!(!r.has_video && !r.has_audio);
    assert_eq!(r.source_kind, SourceKind::Video);
    let mut sized = facts(vec![stream("audio", "opus")]);
    sized.size = Some("2048000".to_string());
    sized.duration_ms = 180_000;
    let r = probe_result(&sized, None);
    assert_eq!(r.file_size, 2_048_000);
    assert_eq!(r.duration_ms, 180_000);
    assert_eq!(r.source_kind, SourceKind::Audio);
}

#[test]
fn rational_facts_are_reduced_and_zero_is_malformed() {
    assert_eq!(gcd(48, 18), 6);
    assert_eq!(gcd(7, 0), 7);
    assert_eq!(
        rational_fact(Some(Some("60000/2002"))),
        Some(VideoRationalFact::Exact { numerator: 30_000, denominator: 1_001 })
    );
    assert_eq!(rational_fact(Some(Some("0/0"))), Some(VideoRationalFact::Malformed));
    assert_eq!(rational_fact(Some(Some("30"))), Some(VideoRationalFact::Malformed));
    assert_eq!(rational_fact(Some(None)), Some(VideoRationalFact::Malformed));
    assert_eq!(rational_fact(None), None);
}

#[test]
fn rotations_are_normalised_and_disagreement_is_ambiguous() {
    assert_eq!(recorded_rotation(Some(-90)), Some(270));
    assert_eq!(recorded_rotation(Some(450)), Some(90));
    assert_eq!(recorded_rotation(Some(45)), None);
    assert_eq!(recorded_rotation(None), None);
    assert_eq!(rotation_summary(&vec![90, 90], false), (Some(90), false));
    assert_eq!(rotation_summary(&vec![90, 180], false), (Some(90), true));
    assert_eq!(rotation_summary(&vec![], true), (None, true));
}

#[test]
fn display_matrices_must_match_the_rotation() {
    let upright = "\n00000000:        65536           0           0\n00000001:            0       65536           0\n00000002:            0           0  1073741824\n";
    assert!(valid_display_matrix(Some(upright), Some(0)));
    assert!(valid_display_matrix(Some(upright), Some(360)));
    assert!(!valid_display_matrix(Some(upright), Some(90)));
    let quarter = "00000000: 0 -65536 0\r\n00000001: 65536 0 0\r\n00000002: 0 0 1073741824";
    assert!(valid_display_matrix(Some(quarter), Some(-270)));
    assert!(!valid_display_matrix(Some("00000000: 0 0"), Some(0)));
    assert!(!valid_display_matrix(None, Some(0)));
    assert!(!valid_display_matrix(Some(upright), Some(45)));
    assert_eq!(parse_i64("-9223372036854775808"), Some(i64::MIN));
    assert_eq!(parse_i64("+12"), Some(12));
    assert_eq!(parse_i64("-+1"), None);
    assert_eq!(parse_i64("9223372036854775808"), None);
}

#[test]
fn tick_durations_use_the_time_base() {
    let tb = Some(VideoRationalFact::Exact { numerator: 1, denominator: 90_000 });
    assert_eq!(ticks_duration_ms(900_000, tb), Some(10_000));
    assert_eq!(ticks_duration_ms(-5, tb), None);
    assert_eq!(ticks_duration_ms(10, tb), None);
    assert_eq!(ticks_duration_ms(10, None), None);
}

#[test]
fn still_images_probe_as_srgb_images_without_streams() {
    let r = image_probe_result((640, 480), Some("png".to_string()), Some(true), 1_234);
    assert_eq!(r.source_kind, SourceKind::Image);
    assert_eq!((r.width, r.height), (Some(640), Some(480)));
    assert_eq!(r.color_space.as_deref(), Some("sRGB"));
    assert_eq!(r.image_format.as_deref(), Some("png"));
    assert_eq!(r.image_has_alpha, Some(true));
    assert_eq!(r.file_size, 1_234);
    assert!(!r.has_video && !r.has_audio && r.duration_ms == 0);
}

const UPRIGHT: &str = "\n00000000:        65536           0           0\n00000001:            0       65536           0\n00000002:            0           0  1073741824\n";

fn matrix_item(rotation: Option<Option<i64>>, matrix: Option<&str>) -> SideDataItem {
    SideDataItem {
        is_display_matrix: true,
        rotation,
        display_matrix: matrix.map(|m| Some(m.to_string())),
    }
}

#[test]
fn stream_rotation_reads_tags_and_side_data() {
    assert_eq!(stream_rotation(&RotationTags::Absent, &SideDataFacts::Absent), (None, false));
    let tagged = RotationTags::Object { rotate: Some(Some(90)) };
    assert_eq!(stream_rotation(&tagged, &SideDataFacts::Absent), (Some(90), false));
    assert_eq!(stream_rotation(&RotationTags::NotObject, &SideDataFacts::Absent), (None, true));
    let side = SideDataFacts::Items(vec![matrix_item(Some(Some(0)), Some(UPRIGHT))]);
    assert_eq!(stream_rotation(&RotationTags::Absent, &side), (Some(0), false));
    // A tag and the side data disagree.
    assert_eq!(stream_rotation(&tagged, &side), (Some(90), true));
    // A display matrix without a rotation, or one that is not the rotation's.
    let bare = SideDataFacts::Items(vec![matrix_item(None, Some(UPRIGHT))]);
    assert_eq!(stream_rotation(&RotationTags::Absent, &bare), (None, true));
    let wrong = SideDataFacts::Items(vec![matrix_item(Some(Some(90)), Some(UPRIGHT))]);
    assert_eq!(stream_rotation(&RotationTags::Absent, &wrong), (Some(90), true));
    // An angle that is not a multiple of 90 is unusable.
    let odd = RotationTags::Object { rotate: Some(Some(45)) };
    assert_eq!(stream_rotation(&odd, &SideDataFacts::Absent), (None, true));
    assert_eq!(stream_rotation(&RotationTags::Absent, &SideDataFacts::NotArray), (None, true));
}

#[test]
fn stream_identity_needs_an_index_and_a_binary_attached_flag() {
    assert_eq!(stream_identity(Some(3), Some(0)), Some((3, false)));
    assert_eq!(stream_identity(Some(3), Some(1)), Some((3, true)));
    assert_eq!(stream_identity(Some(3), Some(2)), None);
    assert_eq!(stream_identity(None, Some(0)), None);
    assert_eq!(stream_identity(Some(1 << 32), Some(0)), None);
}
