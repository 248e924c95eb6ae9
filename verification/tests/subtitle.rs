use goop_converter::error::GoopError;
use goop_converter::formats::{SubtitleMode, TargetFormat};
use goop_converter::plan::Plan;
use goop_converter::subtitle::{
    all_audio_copyable, apply_to_plan, audio_map, can_preserve_existing, copyable_audio_codecs,
    detect_charenc, escape_for_filter, escape_subtitles_path, is_safe_filter_label, plan_extract,
    preserve_audio_in_plan, preserve_codec, preserve_existing_in_plan, reencodes_audio,
    soft_codec, supports,
};

fn strings(v: &[&str]) -> Vec<String> {
    v.iter().map(|s| s.to_string()).collect()
}

/// The stream-copy (remux) plan a conversion starts from when both source
/// codecs already suit the target.
fn copy_plan(target: TargetFormat) -> Plan {
    Plan {
        args: strings(&["-c", "copy"]),
        video_filters: vec![],
        reencoded: false,
        ext: target.extension(),
    }
}

/// A re-encoding MP4 plan with no filters of its own.
fn burnable_plan() -> Plan {
    Plan {
        args: strings(&["-c:v", "libx264", "-c:a", "aac"]),
        video_filters: vec![],
        reencoded: true,
        ext: "mp4".to_string(),
    }
}

#[test]
fn valid_utf8_needs_no_charenc() {
    assert_eq!(detect_charenc(b"1\n00:00:01,000 --> 00:00:02,000\nhi\n"), None);
    assert_eq!(detect_charenc("Café déjà vu".as_bytes()), None);
    assert_eq!(detect_charenc("你好世界 こんにちは".as_bytes()), None);
}

#[test]
fn utf8_bom_needs_no_charenc() {
    let mut bytes = vec![0xEF, 0xBB, 0xBF];
    bytes.extend_from_slice("Café".as_bytes());
    assert_eq!(detect_charenc(&bytes), None);
}

#[test]
fn windows_1252_is_detected() {
    let bytes = b"Caf\xE9 \xE0 c\xF4t\xE9 de l'h\xF4tel. Elodie a d\xE9j\xE0 mang\xE9.";
    assert_eq!(detect_charenc(bytes), Some("windows-1252"));
}

#[test]
fn cp1251_cyrillic_is_detected() {
    let bytes = b"\xCF\xF0\xE8\xE2\xE5\xF2, \xEC\xE8\xF0! \xDD\xF2\xEE \
                  \xEF\xF0\xEE\xE2\xE5\xF0\xEA\xE0 \xEA\xEE\xE4\xE8\xF0\xEE\xE2\xEA\xE8.";
    assert_eq!(detect_charenc(bytes), Some("windows-1251"));
}

#[test]
fn utf16_is_left_for_ffmpeg_to_autodetect() {
    let le = [0xFF, 0xFE, b'h', 0x00, b'i', 0x00];
    let be = [0xFE, 0xFF, 0x00, b'h', 0x00, b'i'];
    assert_eq!(detect_charenc(&le), None);
    assert_eq!(detect_charenc(&be), None);
}

#[test]
fn empty_input_needs_no_charenc() {
    assert_eq!(detect_charenc(b""), None);
}

#[test]
fn utf32_is_not_guessed_at() {
    let be = [0x00, 0x00, 0xFE, 0xFF, 0x00, 0x00, 0x00, b'h'];
    let le = [0xFF, 0xFE, 0x00, 0x00, b'h', 0x00, 0x00, 0x00];
    assert_eq!(detect_charenc(&be), None);
    assert_eq!(detect_charenc(&le), None);
}

#[test]
fn only_filtergraph_safe_labels_reach_the_filter() {
    assert!(is_safe_filter_label("windows-1252"));
    assert!(is_safe_filter_label("Shift_JIS"));
    for bad in ["utf:8", "a,b", "x'y", "", "a\\b", "a[b]"] {
        assert!(!is_safe_filter_label(bad), "{bad:?} must be rejected");
    }
}

#[test]
fn burn_in_carries_the_detected_charenc_into_the_filter() {
    let mut plan = burnable_plan();
    apply_to_plan(
        &mut plan,
        TargetFormat::Mp4,
        SubtitleMode::BurnIn,
        "/tmp/sub.srt",
        false,
        Some("windows-1252"),
        &[],
    )
    .unwrap();
    let filter = plan
        .video_filters
        .iter()
        .find(|f| f.starts_with("subtitles="))
        .expect("burn-in must add a subtitles filter");
    assert!(filter.contains("charenc=windows-1252"), "filter lacks the charenc: {filter}");
}

#[test]
fn burn_in_omits_charenc_for_utf8() {
    let mut plan = burnable_plan();
    apply_to_plan(
        &mut plan,
        TargetFormat::Mp4,
        SubtitleMode::BurnIn,
        "/tmp/sub.srt",
        false,
        None,
        &[],
    )
    .unwrap();
    let filter = plan
        .video_filters
        .iter()
        .find(|f| f.starts_with("subtitles="))
        .unwrap();
    assert!(!filter.contains("charenc"), "unexpected charenc: {filter}");
}

#[test]
fn escapes_windows_drive_colon_and_backslashes() {
    assert_eq!(
        escape_for_filter(r"C:\Users\thor\my subs.srt", true),
        r"C\\:/Users/thor/my subs.srt"
    );
}

#[test]
fn keeps_a_literal_backslash_off_windows() {
    assert_eq!(escape_for_filter(r"/tmp/a\b.srt", false), r"/tmp/a\\\\b.srt");
}

#[test]
fn leaves_plain_posix_paths_alone() {
    assert_eq!(escape_subtitles_path("/Users/thor/my subs.srt"), "/Users/thor/my subs.srt");
}

#[test]
fn escapes_filtergraph_metacharacters() {
    assert_eq!(escape_subtitles_path("/tmp/a,b[1];c.srt"), r"/tmp/a\,b\[1\]\;c.srt");
}

#[test]
fn escapes_apostrophes_for_both_parser_layers() {
    assert_eq!(escape_subtitles_path("/tmp/it's.srt"), r"/tmp/it\\\'s.srt");
}

#[test]
fn soft_codec_per_container() {
    assert_eq!(soft_codec(TargetFormat::Mp4), Some("mov_text"));
    assert_eq!(soft_codec(TargetFormat::Mov), Some("mov_text"));
    assert_eq!(soft_codec(TargetFormat::Mkv), Some("srt"));
    assert_eq!(soft_codec(TargetFormat::Webm), Some("webvtt"));
    assert_eq!(soft_codec(TargetFormat::Avi), None);
    assert_eq!(soft_codec(TargetFormat::Gif), None);
    assert_eq!(soft_codec(TargetFormat::Mp3), None);
    assert_eq!(soft_codec(TargetFormat::Png), None);
}

#[test]
fn avi_takes_burn_in_but_not_a_soft_track() {
    assert!(!supports(TargetFormat::Avi, SubtitleMode::Soft));
    assert!(supports(TargetFormat::Avi, SubtitleMode::BurnIn));
}

#[test]
fn audio_and_image_targets_take_no_subtitles_at_all() {
    for t in [
        TargetFormat::Mp3,
        TargetFormat::Flac,
        TargetFormat::Png,
        TargetFormat::Jpeg,
        TargetFormat::Gif,
    ] {
        assert!(!supports(t, SubtitleMode::Soft), "{t:?} soft");
        assert!(!supports(t, SubtitleMode::BurnIn), "{t:?} burn");
    }
}

#[test]
fn soft_embed_maps_streams_and_keeps_the_remux_fast_path() {
    let mut plan = copy_plan(TargetFormat::Mp4);
    assert!(!plan.reencoded, "precondition: this is a remux plan");
    let extra = apply_to_plan(
        &mut plan,
        TargetFormat::Mp4,
        SubtitleMode::Soft,
        "/tmp/s.srt",
        false,
        None,
        &[],
    )
    .unwrap();
    assert_eq!(extra, Some("/tmp/s.srt".to_string()));
    assert_eq!(
        plan.args,
        vec!["-c", "copy", "-map", "0:v:0?", "-map", "0:a:0?", "-map", "1:0", "-c:s", "mov_text"]
    );
    assert!(!plan.reencoded);
}

#[test]
fn soft_embed_uses_the_target_container_codec() {
    for (target, codec) in [
        (TargetFormat::Mkv, "srt"),
        (TargetFormat::Webm, "webvtt"),
        (TargetFormat::Mov, "mov_text"),
    ] {
        let mut plan = copy_plan(target);
        apply_to_plan(&mut plan, target, SubtitleMode::Soft, "/tmp/s.srt", false, None, &[])
            .unwrap();
        let idx = plan.args.iter().position(|a| a == "-c:s").unwrap();
        assert_eq!(plan.args[idx + 1], codec, "{target:?}");
    }
}

#[test]
fn soft_embed_rejects_targets_without_a_subtitle_track() {
    for target in [TargetFormat::Avi, TargetFormat::Mp3, TargetFormat::Gif] {
        let mut plan = copy_plan(target);
        let err = apply_to_plan(&mut plan, target, SubtitleMode::Soft, "/tmp/s.srt", false, None, &[])
            .unwrap_err();
        assert!(
            matches!(err, GoopError::InvalidRequest(_)),
            "{target:?} should be rejected, got {err:?}"
        );
    }
}

#[test]
fn burn_in_appends_the_filter_and_adds_no_second_input() {
    let mut plan = burnable_plan();
    let extra = apply_to_plan(
        &mut plan,
        TargetFormat::Mp4,
        SubtitleMode::BurnIn,
        "/tmp/s.srt",
        false,
        None,
        &[],
    )
    .unwrap();
    assert_eq!(extra, None, "burn-in reads the file through the filter");
    assert_eq!(plan.video_filters, vec!["subtitles=filename=/tmp/s.srt".to_string()]);
}

#[test]
fn burn_in_filter_runs_after_the_resolution_cap() {
    let mut plan = burnable_plan();
    plan.video_filters.push("scale=1280:-2".to_string());
    apply_to_plan(
        &mut plan,
        TargetFormat::Mp4,
        SubtitleMode::BurnIn,
        "/tmp/s.srt",
        false,
        None,
        &[],
    )
    .unwrap();
    assert_eq!(
        plan.video_filters,
        vec!["scale=1280:-2".to_string(), "subtitles=filename=/tmp/s.srt".to_string()]
    );
}

#[test]
fn burn_in_refuses_a_stream_copy_plan() {
    let mut plan = copy_plan(TargetFormat::Mp4);
    assert!(!plan.reencoded);
    let err = apply_to_plan(
        &mut plan,
        TargetFormat::Mp4,
        SubtitleMode::BurnIn,
        "/tmp/s.srt",
        false,
        None,
        &[],
    )
    .unwrap_err();
    assert!(matches!(err, GoopError::InvalidRequest(_)));
}

#[test]
fn burn_in_rejects_targets_with_no_video() {
    for target in [TargetFormat::Mp3, TargetFormat::Png] {
        let mut plan = burnable_plan();
        let err =
            apply_to_plan(&mut plan, target, SubtitleMode::BurnIn, "/tmp/s.srt", false, None, &[])
                .unwrap_err();
        assert!(matches!(err, GoopError::InvalidRequest(_)), "{target:?}");
    }
}

#[test]
fn text_subtitle_streams_are_safe_to_preserve() {
    assert!(can_preserve_existing(&["subrip".to_string()]));
    assert!(can_preserve_existing(&["subrip".to_string(), "ass".to_string()]));
}

#[test]
fn bitmap_and_unknown_subtitle_streams_are_not_preserved() {
    assert!(!can_preserve_existing(&["hdmv_pgs_subtitle".to_string()]));
    assert!(!can_preserve_existing(&["dvd_subtitle".to_string()]));
    assert!(!can_preserve_existing(&["subrip".to_string(), "hdmv_pgs_subtitle".to_string()]));
    assert!(!can_preserve_existing(&["something_new".to_string()]));
    assert!(!can_preserve_existing(&[]));
}

#[test]
fn soft_embed_carries_existing_text_tracks_through() {
    let mut plan = copy_plan(TargetFormat::Mkv);
    apply_to_plan(&mut plan, TargetFormat::Mkv, SubtitleMode::Soft, "/tmp/s.srt", true, None, &[])
        .unwrap();
    assert_eq!(
        plan.args,
        vec![
            "-c", "copy", "-map", "0:v:0?", "-map", "0:a?", "-map", "0:s?", "-map", "1:0", "-c:s",
            "srt",
        ]
    );
}

#[test]
fn attaching_a_subtitle_keeps_every_audio_stream_it_safely_can() {
    let mut plan = copy_plan(TargetFormat::Mkv);
    apply_to_plan(&mut plan, TargetFormat::Mkv, SubtitleMode::Soft, "/tmp/s.srt", false, None, &[])
        .unwrap();
    assert!(plan.args.iter().any(|a| a == "0:a?"));
    assert!(!plan.args.iter().any(|a| a == "0:a:0?"));
}

#[test]
fn matroska_always_takes_every_audio_stream() {
    let copy = copy_plan(TargetFormat::Mkv);
    assert_eq!(audio_map(TargetFormat::Mkv, &copy, &[]), "0:a?");
}

#[test]
fn a_stream_copy_into_mp4_or_webm_keeps_only_the_first_audio_stream() {
    for t in [TargetFormat::Mp4, TargetFormat::Mov, TargetFormat::Webm] {
        let mut plan = copy_plan(t);
        assert!(!reencodes_audio(&plan), "precondition: {t:?} should be a copy plan");
        assert_eq!(audio_map(t, &plan, &[]), "0:a:0?", "{t:?}");
        plan.args.extend(["-c:a".to_string(), "aac".to_string()]);
        assert_eq!(audio_map(t, &plan, &[]), "0:a?", "{t:?} re-encoding");
    }
}

#[test]
fn an_explicit_audio_copy_is_not_mistaken_for_a_re_encode() {
    let mut plan = copy_plan(TargetFormat::Mp4);
    plan.args.extend(["-c:a".to_string(), "copy".to_string()]);
    assert!(!reencodes_audio(&plan));
    assert_eq!(audio_map(TargetFormat::Mp4, &plan, &[]), "0:a:0?");
}

#[test]
fn preserving_into_webm_narrows_the_audio_map_on_a_copy_plan() {
    let mut plan = copy_plan(TargetFormat::Webm);
    assert!(!plan.reencoded, "precondition: this is a remux plan");
    assert!(preserve_existing_in_plan(&mut plan, TargetFormat::Webm, &["subrip".to_string()], &[]));
    assert!(plan.args.iter().any(|a| a == "0:a:0?"));
    assert!(!plan.args.iter().any(|a| a == "0:a?"));
}

#[test]
fn preserving_maps_video_audio_and_subtitles_with_a_container_codec() {
    let mut plan = copy_plan(TargetFormat::Mp4);
    assert!(preserve_existing_in_plan(
        &mut plan,
        TargetFormat::Mp4,
        &["subrip".to_string(), "subrip".to_string()],
        &[],
    ));
    assert_eq!(
        plan.args,
        vec!["-c", "copy", "-map", "0:v:0?", "-map", "0:a:0?", "-map", "0:s?", "-c:s", "mov_text"],
        "an MP4 stream copy keeps only the vetted first audio stream"
    );
    assert!(!plan.reencoded);
}

#[test]
fn preserving_copies_matroska_native_codecs_instead_of_flattening_them() {
    assert_eq!(preserve_codec(TargetFormat::Mkv, &["ass".to_string()]), Some("copy"));
    assert_eq!(
        preserve_codec(TargetFormat::Mkv, &["subrip".to_string(), "ass".to_string()]),
        Some("copy")
    );
    assert_eq!(preserve_codec(TargetFormat::Mkv, &["mov_text".to_string()]), Some("srt"));
    assert_eq!(preserve_codec(TargetFormat::Mp4, &["ass".to_string()]), Some("mov_text"));
    assert_eq!(preserve_codec(TargetFormat::Webm, &["subrip".to_string()]), Some("webvtt"));
}

#[test]
fn preserving_leaves_targets_that_carry_no_subtitle_alone() {
    for t in [
        TargetFormat::Mp3,
        TargetFormat::Wav,
        TargetFormat::Flac,
        TargetFormat::Gif,
        TargetFormat::Avi,
        TargetFormat::Png,
    ] {
        let mut plan = copy_plan(t);
        let before = plan.args.clone();
        assert!(!preserve_existing_in_plan(&mut plan, t, &["subrip".to_string()], &[]), "{t:?}");
        assert_eq!(plan.args, before, "{t:?}");
    }
}

#[test]
fn preserving_adds_nothing_when_the_source_has_no_subtitles() {
    let mut plan = copy_plan(TargetFormat::Mkv);
    assert!(!preserve_existing_in_plan(&mut plan, TargetFormat::Mkv, &[], &[]));
    assert_eq!(plan.args, vec!["-c", "copy"]);
}

#[test]
fn soft_embed_omits_existing_tracks_when_they_cannot_be_transcoded() {
    let mut plan = copy_plan(TargetFormat::Mkv);
    apply_to_plan(&mut plan, TargetFormat::Mkv, SubtitleMode::Soft, "/tmp/s.srt", false, None, &[])
        .unwrap();
    assert!(!plan.args.iter().any(|a| a == "0:s?"));
}

#[test]
fn a_copy_into_mp4_widens_only_for_codecs_mp4_can_name() {
    let copy = copy_plan(TargetFormat::Mp4);
    assert!(!reencodes_audio(&copy), "precondition: a copy plan");
    for good in [["aac", "ac3"], ["aac", "eac3"], ["aac", "alac"]] {
        let codecs = strings(&good);
        assert_eq!(audio_map(TargetFormat::Mp4, &copy, &codecs), "0:a?", "{good:?}");
    }
    for bad in [["aac", "vorbis"], ["aac", "dts"], ["aac", "wmav2"]] {
        let codecs = strings(&bad);
        assert_eq!(audio_map(TargetFormat::Mp4, &copy, &codecs), "0:a:0?", "{bad:?}");
    }
}

#[test]
fn mov_and_mp4_do_not_share_an_allowlist() {
    let mov = copyable_audio_codecs(TargetFormat::Mov).unwrap();
    let mp4 = copyable_audio_codecs(TargetFormat::Mp4).unwrap();
    assert!(mov.contains(&"dts"));
    assert!(!mp4.contains(&"dts"));
    assert!(mp4.contains(&"flac"));
    assert!(!mov.contains(&"flac"));
}

#[test]
fn webm_widens_only_for_the_two_codecs_it_accepts() {
    let copy = copy_plan(TargetFormat::Webm);
    let ok = strings(&["opus", "vorbis"]);
    assert_eq!(audio_map(TargetFormat::Webm, &copy, &ok), "0:a?");
    let bad = strings(&["opus", "aac"]);
    assert_eq!(audio_map(TargetFormat::Webm, &copy, &bad), "0:a:0?");
}

#[test]
fn one_unvettable_track_narrows_the_whole_map() {
    let copy = copy_plan(TargetFormat::Mp4);
    let codecs = strings(&["aac", "aac", "aac", "vorbis"]);
    assert_eq!(audio_map(TargetFormat::Mp4, &copy, &codecs), "0:a:0?");
}

#[test]
fn an_unknown_audio_codec_fails_closed() {
    let copy = copy_plan(TargetFormat::Mp4);
    assert!(!all_audio_copyable(TargetFormat::Mp4, &["something_new".to_string()]));
    assert_eq!(audio_map(TargetFormat::Mp4, &copy, &["something_new".to_string()]), "0:a:0?");
    assert!(!all_audio_copyable(TargetFormat::Mp4, &[]));
}

#[test]
fn matroska_needs_no_allowlist() {
    assert!(copyable_audio_codecs(TargetFormat::Mkv).is_none());
    let copy = copy_plan(TargetFormat::Mkv);
    assert_eq!(audio_map(TargetFormat::Mkv, &copy, &["wmav2".to_string()]), "0:a?");
}

#[test]
fn re_encoding_outranks_the_allowlist() {
    let mut plan = copy_plan(TargetFormat::Mp4);
    plan.args.extend(["-c:a".to_string(), "aac".to_string()]);
    assert_eq!(audio_map(TargetFormat::Mp4, &plan, &["vorbis".to_string()]), "0:a?");
}

#[test]
fn preserving_audio_maps_video_and_every_stream() {
    let mut plan = copy_plan(TargetFormat::Mkv);
    assert!(preserve_audio_in_plan(&mut plan, TargetFormat::Mkv, &strings(&["aac", "ac3"])));
    assert_eq!(plan.args, vec!["-c", "copy", "-map", "0:v:0?", "-map", "0:a?"]);
    assert!(!plan.reencoded);
}

#[test]
fn preserving_audio_leaves_a_single_stream_alone() {
    let mut plan = copy_plan(TargetFormat::Mkv);
    assert!(!preserve_audio_in_plan(&mut plan, TargetFormat::Mkv, &strings(&["aac"])));
    assert_eq!(plan.args, vec!["-c", "copy"]);
}

#[test]
fn preserving_audio_skips_targets_that_hold_one_stream() {
    for t in [
        TargetFormat::Mp3,
        TargetFormat::Wav,
        TargetFormat::Flac,
        TargetFormat::Gif,
        TargetFormat::Png,
        TargetFormat::M4a,
    ] {
        let mut plan = copy_plan(t);
        let before = plan.args.clone();
        assert!(!preserve_audio_in_plan(&mut plan, t, &strings(&["aac", "aac"])), "{t:?}");
        assert_eq!(plan.args, before, "{t:?}");
    }
}

#[test]
fn preserving_audio_adds_nothing_when_the_map_would_narrow() {
    let mut plan = copy_plan(TargetFormat::Mp4);
    assert!(!preserve_audio_in_plan(&mut plan, TargetFormat::Mp4, &strings(&["aac", "vorbis"])));
    assert_eq!(plan.args, vec!["-c", "copy"]);
}

#[test]
fn extract_plans_name_the_right_encoder() {
    assert_eq!(plan_extract(TargetFormat::Srt).args[3], "srt");
    assert_eq!(plan_extract(TargetFormat::Vtt).args[3], "webvtt");
}

// --- further cases -----------------------------------------------------

#[test]
fn soft_subtitle_targets_also_take_burn_in() {
    for t in [TargetFormat::Mp4, TargetFormat::Mov, TargetFormat::Mkv, TargetFormat::Webm] {
        assert!(supports(t, SubtitleMode::Soft));
        assert!(supports(t, SubtitleMode::BurnIn));
    }
}

#[test]
fn a_refused_burn_in_leaves_the_plan_untouched() {
    let mut plan = copy_plan(TargetFormat::Mp4);
    let before = plan.clone();
    let err = apply_to_plan(
        &mut plan,
        TargetFormat::Mp4,
        SubtitleMode::BurnIn,
        "/tmp/s.srt",
        false,
        None,
        &[],
    )
    .unwrap_err();
    assert_eq!(
        err.user_message(),
        "burning in subtitles requires re-encoding the video"
    );
    assert_eq!(plan, before);
}

#[test]
fn an_unsafe_charenc_label_is_dropped_from_the_filter() {
    let mut plan = burnable_plan();
    apply_to_plan(
        &mut plan,
        TargetFormat::Mp4,
        SubtitleMode::BurnIn,
        "/tmp/s.srt",
        false,
        Some("utf:8"),
        &[],
    )
    .unwrap();
    assert_eq!(plan.video_filters, vec!["subtitles=filename=/tmp/s.srt".to_string()]);
}

fn unescape_once(s: &str) -> String {
    let mut out = String::new();
    let mut chars = s.chars();
    while let Some(c) = chars.next() {
        if c == '\\' {
            match chars.next() {
                Some(next) => out.push(next),
                None => out.push(c),
            }
        } else {
            out.push(c);
        }
    }
    out
}

#[test]
fn filter_escaping_round_trips_through_both_parsers() {
    let path = r"/tmp/it's [a]; b, c:d\e.srt";
    let escaped = escape_for_filter(path, false);
    assert_eq!(unescape_once(&unescape_once(&escaped)), path);
    let windows = r"C:\Users\o'neil\[x].srt";
    let escaped = escape_for_filter(windows, true);
    assert_eq!(unescape_once(&unescape_once(&escaped)), "C:/Users/o'neil/[x].srt");
}
