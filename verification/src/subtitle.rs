//! Subtitle handling for the ffmpeg backend: soft-embedding an external
//! text track, burning subtitles into the frames, extracting a subtitle
//! stream, and carrying a source's own audio and subtitle streams through
//! explicit stream maps.
use vstd::prelude::*;
use crate::error::{invalid, GoopError};
use crate::formats::{spec_extension, SubtitleMode, TargetFormat};
use crate::plan::Plan;
use crate::text::{owned, push_char, push_str, str_eq, views};

verus! {

broadcast use vstd::string::group_string_axioms;

/// The character view of an optional string slice.
pub open spec fn opt_view(o: Option<&str>) -> Option<Seq<char>> {
    match o {
        Some(s) => Some(s@),
        None => None,
    }
}

// ---------------------------------------------------------------------------
// Support matrix
// ---------------------------------------------------------------------------

/// The text codec a soft subtitle track is written in for each target.
pub open spec fn spec_soft_codec(t: TargetFormat) -> Option<Seq<char>> {
    match t {
        TargetFormat::Mp4 | TargetFormat::Mov => Some("mov_text"@),
        TargetFormat::Mkv => Some("srt"@),
        TargetFormat::Webm => Some("webvtt"@),
        _ => None,
    }
}

/// The subtitle codec to transcode into when muxing a soft track, or `None`
/// for targets that cannot carry a text subtitle stream.
pub fn soft_codec(target: TargetFormat) -> (r: Option<&'static str>)
    ensures
        opt_view(r) == spec_soft_codec(target),
{
    match target {
        TargetFormat::Mp4 | TargetFormat::Mov => Some("mov_text"),
        TargetFormat::Mkv => Some("srt"),
        TargetFormat::Webm => Some("webvtt"),
        _ => None,
    }
}

/// Video containers: the targets a subtitle can be burned into.
pub open spec fn spec_is_video_container(t: TargetFormat) -> bool {
    t is Mp4 || t is Mov || t is Mkv || t is Webm || t is Avi
}

/// Whether `t` accepts a subtitle attached in `mode`.
pub open spec fn spec_supports(t: TargetFormat, mode: SubtitleMode) -> bool {
    match mode {
        SubtitleMode::Soft => spec_soft_codec(t) is Some,
        SubtitleMode::BurnIn => spec_is_video_container(t),
    }
}

/// Whether `target` can accept a subtitle in `mode`. Burn-in only needs a
/// video stream to draw on, so it also covers AVI.
pub fn supports(target: TargetFormat, mode: SubtitleMode) -> (r: bool)
    ensures
        r == spec_supports(target, mode),
{
    match mode {
        SubtitleMode::Soft => soft_codec(target).is_some(),
        SubtitleMode::BurnIn => matches!(
            target,
            TargetFormat::Mp4 | TargetFormat::Mov | TargetFormat::Mkv | TargetFormat::Webm
                | TargetFormat::Avi
        ),
    }
}

/// Every target that takes a soft subtitle track also takes burned-in
/// subtitles.
pub proof fn lemma_soft_support_implies_burn_in(t: TargetFormat)
    ensures
        spec_supports(t, SubtitleMode::Soft) ==> spec_supports(t, SubtitleMode::BurnIn),
{
}

/// Appends `s` to an argument list.
pub fn push_arg(args: &mut Vec<String>, s: &str)
    ensures
        views(final(args)@) == views(old(args)@).push(s@),
{
    let ghost before = args@;
    args.push(owned(s));
    proof {
        assert(views(args@) =~= views(before).push(s@));
    }
}

/// The encoder used to write a standalone subtitle file for `t`.
pub open spec fn spec_extract_codec(t: TargetFormat) -> Seq<char> {
    if t is Vtt { "webvtt"@ } else { "srt"@ }
}

/// Plan for writing the source's first subtitle stream out on its own. The
/// map is not optional, so a source without subtitles fails loudly.
pub fn plan_extract(target: TargetFormat) -> (p: Plan)
    ensures
        views(p.args@) == seq!["-map"@, "0:s:0"@, "-c:s"@, spec_extract_codec(target)],
        p.video_filters@.len() == 0,
        p.reencoded,
        p.ext@ == spec_extension(target),
{
    let codec = match target {
        TargetFormat::Vtt => "webvtt",
        _ => "srt",
    };
    let mut args: Vec<String> = Vec::new();
    push_arg(&mut args, "-map");
    push_arg(&mut args, "0:s:0");
    push_arg(&mut args, "-c:s");
    push_arg(&mut args, codec);
    Plan { args, video_filters: Vec::new(), reencoded: true, ext: target.extension() }
}

// ---------------------------------------------------------------------------
// Codec families
// ---------------------------------------------------------------------------

/// Subtitle codecs that carry text and so can be transcoded into any soft
/// subtitle codec. Bitmap codecs are deliberately absent.
pub open spec fn spec_is_text_subtitle_codec(c: Seq<char>) -> bool {
    ||| c == "subrip"@
    ||| c == "srt"@
    ||| c == "ass"@
    ||| c == "ssa"@
    ||| c == "mov_text"@
    ||| c == "webvtt"@
    ||| c == "text"@
    ||| c == "subviewer"@
    ||| c == "subviewer1"@
    ||| c == "mpl2"@
    ||| c == "microdvd"@
    ||| c == "sami"@
    ||| c == "realtext"@
    ||| c == "stl"@
}

/// Whether `c` names a text subtitle codec.
pub fn is_text_subtitle_codec(c: &str) -> (r: bool)
    ensures
        r == spec_is_text_subtitle_codec(c@),
{
    str_eq(c, "subrip") || str_eq(c, "srt") || str_eq(c, "ass") || str_eq(c, "ssa")
        || str_eq(c, "mov_text") || str_eq(c, "webvtt") || str_eq(c, "text") || str_eq(
        c,
        "subviewer",
    ) || str_eq(c, "subviewer1") || str_eq(c, "mpl2") || str_eq(c, "microdvd") || str_eq(
        c,
        "sami",
    ) || str_eq(c, "realtext") || str_eq(c, "stl")
}

/// Subtitle codecs Matroska stores untouched.
pub open spec fn spec_is_matroska_native_subtitle_codec(c: Seq<char>) -> bool {
    ||| c == "subrip"@
    ||| c == "srt"@
    ||| c == "text"@
    ||| c == "ass"@
    ||| c == "ssa"@
    ||| c == "webvtt"@
}

/// Whether Matroska stores the subtitle codec `c` as-is.
pub fn is_matroska_native_subtitle_codec(c: &str) -> (r: bool)
    ensures
        r == spec_is_matroska_native_subtitle_codec(c@),
{
    str_eq(c, "subrip") || str_eq(c, "srt") || str_eq(c, "text") || str_eq(c, "ass") || str_eq(
        c,
        "ssa",
    ) || str_eq(c, "webvtt")
}

/// Whether every existing subtitle stream can be carried into a text
/// subtitle track; an empty list fails closed.
pub open spec fn spec_can_preserve_existing(codecs: Seq<Seq<char>>) -> bool {
    codecs.len() > 0 && forall|i: int|
        0 <= i < codecs.len() ==> #[trigger] spec_is_text_subtitle_codec(codecs[i])
}

/// Whether every one of the source's subtitle streams is text, so that
/// carrying them into a text track cannot abort the mux.
pub fn can_preserve_existing(subtitle_codecs: &[String]) -> (r: bool)
    ensures
        r == spec_can_preserve_existing(views(subtitle_codecs@)),
{
    if subtitle_codecs.len() == 0 {
        return false;
    }
    let mut i: usize = 0;
    while i < subtitle_codecs.len()
        invariant
            i <= subtitle_codecs@.len(),
            forall|j: int|
                0 <= j < i ==> #[trigger] spec_is_text_subtitle_codec(
                    views(subtitle_codecs@)[j],
                ),
        decreases subtitle_codecs@.len() - i,
    {
        if !is_text_subtitle_codec(subtitle_codecs[i].as_str()) {
            assert(!spec_is_text_subtitle_codec(views(subtitle_codecs@)[i as int]));
            return false;
        }
        i = i + 1;
    }
    true
}

/// Whether an argument list transcodes audio: some `-c:a` is followed by a
/// codec other than `copy`.
pub open spec fn spec_reencodes_audio(args: Seq<Seq<char>>) -> bool {
    exists|i: int| 0 <= i < args.len() - 1 && #[trigger] args[i] == "-c:a"@ && args[i + 1] != "copy"@
}

/// Whether `plan` transcodes audio rather than stream-copying it.
pub fn reencodes_audio(plan: &Plan) -> (r: bool)
    ensures
        r == spec_reencodes_audio(views(plan.args@)),
{
    let n = plan.args.len();
    if n < 2 {
        return false;
    }
    let mut i: usize = 0;
    while i + 1 < n
        invariant
            n == plan.args@.len(),
            n >= 2,
            i + 1 <= n,
            forall|j: int|
                0 <= j < i ==> !(#[trigger] views(plan.args@)[j] == "-c:a"@ && views(
                    plan.args@,
                )[j + 1] != "copy"@),
        decreases n - i,
    {
        if str_eq(plan.args[i].as_str(), "-c:a") && !str_eq(plan.args[i + 1].as_str(), "copy") {
            assert(views(plan.args@)[i as int] == "-c:a"@);
            return true;
        }
        i = i + 1;
    }
    false
}

/// Audio codecs each container can stream-copy under a registered codec tag.
pub open spec fn spec_copyable_audio_codecs(t: TargetFormat) -> Option<Seq<Seq<char>>> {
    match t {
        TargetFormat::Mp4 => Some(seq!["aac"@, "mp3"@, "ac3"@, "eac3"@, "alac"@, "flac"@, "opus"@]),
        TargetFormat::Mov => Some(
            seq!["aac"@, "mp3"@, "ac3"@, "eac3"@, "alac"@, "dts"@, "pcm_s16le"@],
        ),
        TargetFormat::Webm => Some(seq!["opus"@, "vorbis"@]),
        TargetFormat::Avi => Some(seq!["mp3"@, "ac3"@, "aac"@, "pcm_s16le"@]),
        _ => None,
    }
}

/// The character views of a list of string slices.
pub open spec fn str_views(v: Seq<&str>) -> Seq<Seq<char>> {
    v.map_values(|s: &str| s@)
}

/// Audio codecs `target` can stream-copy into a mapping that players other
/// than ffmpeg recognise; `None` for targets that never take a wide map.
pub fn copyable_audio_codecs(target: TargetFormat) -> (r: Option<Vec<&'static str>>)
    ensures
        match r {
            Some(v) => spec_copyable_audio_codecs(target) == Some(str_views(v@)),
            None => spec_copyable_audio_codecs(target) is None,
        },
{
    let r: Option<Vec<&'static str>> = match target {
        TargetFormat::Mp4 => Some(vec!["aac", "mp3", "ac3", "eac3", "alac", "flac", "opus"]),
        TargetFormat::Mov => Some(vec!["aac", "mp3", "ac3", "eac3", "alac", "dts", "pcm_s16le"]),
        TargetFormat::Webm => Some(vec!["opus", "vorbis"]),
        TargetFormat::Avi => Some(vec!["mp3", "ac3", "aac", "pcm_s16le"]),
        _ => None,
    };
    proof {
        if r is Some {
            assert(str_views(r->0@) =~= spec_copyable_audio_codecs(target)->0);
        }
    }
    r
}

/// Whether `allowed` holds `c`.
fn list_contains(allowed: &Vec<&'static str>, c: &str) -> (r: bool)
    ensures
        r == str_views(allowed@).contains(c@),
{
    let mut i: usize = 0;
    while i < allowed.len()
        invariant
            i <= allowed@.len(),
            forall|j: int| 0 <= j < i ==> #[trigger] str_views(allowed@)[j] != c@,
        decreases allowed@.len() - i,
    {
        if str_eq(allowed[i], c) {
            assert(str_views(allowed@)[i as int] == c@);
            return true;
        }
        i = i + 1;
    }
    proof {
        if str_views(allowed@).contains(c@) {
            let k = choose|k: int| 0 <= k < str_views(allowed@).len() && str_views(allowed@)[k] == c@;
            assert(str_views(allowed@)[k] != c@);
        }
    }
    false
}

/// Whether every listed audio codec survives a stream copy into `t`; an
/// empty list, and targets without a list, fail closed.
pub open spec fn spec_all_audio_copyable(t: TargetFormat, codecs: Seq<Seq<char>>) -> bool {
    match spec_copyable_audio_codecs(t) {
        None => false,
        Some(allowed) => codecs.len() > 0 && forall|i: int|
            0 <= i < codecs.len() ==> allowed.contains(#[trigger] codecs[i]),
    }
}

/// Whether every one of `audio_codecs` survives a stream copy into `target`.
pub fn all_audio_copyable(target: TargetFormat, audio_codecs: &[String]) -> (r: bool)
    ensures
        r == spec_all_audio_copyable(target, views(audio_codecs@)),
{
    let allowed = match copyable_audio_codecs(target) {
        Some(a) => a,
        None => return false,
    };
    if audio_codecs.len() == 0 {
        return false;
    }
    let ghost al = str_views(allowed@);
    let mut i: usize = 0;
    while i < audio_codecs.len()
        invariant
            i <= audio_codecs@.len(),
            al == str_views(allowed@),
            spec_copyable_audio_codecs(target) == Some(al),
            forall|j: int| 0 <= j < i ==> al.contains(#[trigger] views(audio_codecs@)[j]),
        decreases audio_codecs@.len() - i,
    {
        if !list_contains(&allowed, audio_codecs[i].as_str()) {
            assert(!al.contains(views(audio_codecs@)[i as int]));
            return false;
        }
        i = i + 1;
    }
    true
}

/// Whether every source audio stream can be mapped: Matroska accepts any
/// codec, a re-encoding plan rewrites every stream, and otherwise each
/// stream must be copyable into the target.
pub open spec fn spec_wide_audio_map(
    t: TargetFormat,
    args: Seq<Seq<char>>,
    codecs: Seq<Seq<char>>,
) -> bool {
    t is Mkv || spec_reencodes_audio(args) || spec_all_audio_copyable(t, codecs)
}

/// The `-map` selector for the source's audio streams.
pub open spec fn spec_audio_map(
    t: TargetFormat,
    args: Seq<Seq<char>>,
    codecs: Seq<Seq<char>>,
) -> Seq<char> {
    if spec_wide_audio_map(t, args, codecs) {
        "0:a?"@
    } else {
        "0:a:0?"@
    }
}

/// The `-map` selector for the source's audio streams: every stream when
/// each one lands somewhere the container can describe, else the first.
pub fn audio_map(target: TargetFormat, plan: &Plan, audio_codecs: &[String]) -> (r: &'static str)
    ensures
        r@ == spec_audio_map(target, views(plan.args@), views(audio_codecs@)),
{
    if target == TargetFormat::Mkv {
        "0:a?"
    } else if reencodes_audio(plan) {
        "0:a?"
    } else if all_audio_copyable(target, audio_codecs) {
        "0:a?"
    } else {
        "0:a:0?"
    }
}

/// Which selector `audio_map` chose, told apart by the selector text.
pub proof fn lemma_audio_map_is_wide(
    t: TargetFormat,
    args: Seq<Seq<char>>,
    codecs: Seq<Seq<char>>,
)
    ensures
        (spec_audio_map(t, args, codecs) == "0:a?"@) == spec_wide_audio_map(t, args, codecs),
{
    reveal_strlit("0:a?");
    reveal_strlit("0:a:0?");
    assert("0:a?"@.len() != "0:a:0?"@.len());
}

/// Video containers that can hold more than one audio stream.
pub open spec fn spec_holds_multiple_audio_streams(t: TargetFormat) -> bool {
    spec_is_video_container(t)
}

/// Whether `target` can hold more than one audio stream.
pub fn holds_multiple_audio_streams(target: TargetFormat) -> (r: bool)
    ensures
        r == spec_holds_multiple_audio_streams(target),
{
    matches!(
        target,
        TargetFormat::Mp4 | TargetFormat::Mov | TargetFormat::Mkv | TargetFormat::Webm
            | TargetFormat::Avi
    )
}

/// The maps that carry the first video stream and every audio stream.
pub open spec fn spec_all_audio_maps() -> Seq<Seq<char>> {
    seq!["-map"@, "0:v:0?"@, "-map"@, "0:a?"@]
}

/// Whether `preserve_audio_in_plan` adds maps.
pub open spec fn spec_preserves_audio(
    t: TargetFormat,
    args: Seq<Seq<char>>,
    codecs: Seq<Seq<char>>,
) -> bool {
    spec_holds_multiple_audio_streams(t) && codecs.len() >= 2 && spec_wide_audio_map(
        t,
        args,
        codecs,
    )
}

/// Maps every source audio stream when there is no subtitle work, so that
/// ffmpeg's automatic selection does not thin several tracks to one. Returns
/// whether any arguments were added.
pub fn preserve_audio_in_plan(plan: &mut Plan, target: TargetFormat, audio_codecs: &[String]) -> (r:
    bool)
    ensures
        r == spec_preserves_audio(target, views(old(plan).args@), views(audio_codecs@)),
        views(final(plan).args@) == views(old(plan).args@) + (if r {
            spec_all_audio_maps()
        } else {
            Seq::empty()
        }),
        final(plan).video_filters == old(plan).video_filters,
        final(plan).reencoded == old(plan).reencoded,
        final(plan).ext == old(plan).ext,
{
    let ghost before = views(plan.args@);
    if !holds_multiple_audio_streams(target) || audio_codecs.len() < 2 {
        assert(views(plan.args@) =~= before + Seq::<Seq<char>>::empty());
        return false;
    }
    let m = audio_map(target, plan, audio_codecs);
    proof {
        lemma_audio_map_is_wide(target, before, views(audio_codecs@));
    }
    if !str_eq(m, "0:a?") {
        assert(views(plan.args@) =~= before + Seq::<Seq<char>>::empty());
        return false;
    }
    push_arg(&mut plan.args, "-map");
    push_arg(&mut plan.args, "0:v:0?");
    push_arg(&mut plan.args, "-map");
    push_arg(&mut plan.args, "0:a?");
    assert(views(plan.args@) =~= before + spec_all_audio_maps());
    true
}

/// The `-c:s` value for carrying the source's own subtitle streams into `t`.
pub open spec fn spec_preserve_codec(t: TargetFormat, source: Seq<Seq<char>>) -> Option<Seq<char>> {
    match spec_soft_codec(t) {
        None => None,
        Some(codec) => if t is Mkv && (forall|i: int|
            0 <= i < source.len() ==> #[trigger] spec_is_matroska_native_subtitle_codec(
                source[i],
            )) {
            Some("copy"@)
        } else {
            Some(codec)
        },
    }
}

/// The `-c:s` value for carrying the source's own subtitle streams into
/// `target`: `copy` into Matroska when every stream is native to it, else
/// the container's text codec; `None` when the target holds no text track.
pub fn preserve_codec(target: TargetFormat, source_codecs: &[String]) -> (r: Option<&'static str>)
    ensures
        opt_view(r) == spec_preserve_codec(target, views(source_codecs@)),
{
    let codec = match soft_codec(target) {
        Some(c) => c,
        None => return None,
    };
    let mut all_native = true;
    let mut i: usize = 0;
    while i < source_codecs.len()
        invariant
            i <= source_codecs@.len(),
            all_native == (forall|j: int|
                0 <= j < i ==> #[trigger] spec_is_matroska_native_subtitle_codec(
                    views(source_codecs@)[j],
                )),
        decreases source_codecs@.len() - i,
    {
        let native = is_matroska_native_subtitle_codec(source_codecs[i].as_str());
        proof {
            if !native {
                assert(!spec_is_matroska_native_subtitle_codec(views(source_codecs@)[i as int]));
            }
        }
        all_native = all_native && native;
        i = i + 1;
    }
    if target == TargetFormat::Mkv && all_native {
        return Some("copy");
    }
    Some(codec)
}

/// A soft subtitle codec exists for a target exactly when the source's own
/// subtitle streams can be given a `-c:s` value there.
pub proof fn lemma_preserve_codec_matches_soft_support(t: TargetFormat, source: Seq<Seq<char>>)
    ensures
        spec_preserve_codec(t, source) is Some == spec_soft_codec(t) is Some,
{
}

/// The maps and codec that carry the source's own streams through.
pub open spec fn spec_preserve_maps(audio: Seq<char>, codec: Seq<char>) -> Seq<Seq<char>> {
    seq!["-map"@, "0:v:0?"@, "-map"@, audio, "-map"@, "0:s?"@, "-c:s"@, codec]
}

/// Whether `preserve_existing_in_plan` adds maps.
pub open spec fn spec_preserves_existing(t: TargetFormat, source: Seq<Seq<char>>) -> bool {
    source.len() > 0 && spec_preserve_codec(t, source) is Some
}

/// Maps the source's own video, audio and subtitle streams through when
/// nothing is attached, so that no subtitle track is silently dropped.
/// Returns whether any arguments were added.
pub fn preserve_existing_in_plan(
    plan: &mut Plan,
    target: TargetFormat,
    source_codecs: &[String],
    audio_codecs: &[String],
) -> (r: bool)
    requires
        source_codecs@.len() > 0 ==> spec_can_preserve_existing(views(source_codecs@)),
    ensures
        r == spec_preserves_existing(target, views(source_codecs@)),
        views(final(plan).args@) == views(old(plan).args@) + (if r {
            spec_preserve_maps(
                spec_audio_map(target, views(old(plan).args@), views(audio_codecs@)),
                spec_preserve_codec(target, views(source_codecs@))->0,
            )
        } else {
            Seq::empty()
        }),
        final(plan).video_filters == old(plan).video_filters,
        final(plan).reencoded == old(plan).reencoded,
        final(plan).ext == old(plan).ext,
{
    let ghost before = views(plan.args@);
    if source_codecs.len() == 0 {
        assert(views(plan.args@) =~= before + Seq::<Seq<char>>::empty());
        return false;
    }
    let codec = match preserve_codec(target, source_codecs) {
        Some(c) => c,
        None => {
            assert(views(plan.args@) =~= before + Seq::<Seq<char>>::empty());
            return false;
        },
    };
    let audio = audio_map(target, plan, audio_codecs);
    push_arg(&mut plan.args, "-map");
    push_arg(&mut plan.args, "0:v:0?");
    push_arg(&mut plan.args, "-map");
    push_arg(&mut plan.args, audio);
    push_arg(&mut plan.args, "-map");
    push_arg(&mut plan.args, "0:s?");
    push_arg(&mut plan.args, "-c:s");
    push_arg(&mut plan.args, codec);
    assert(views(plan.args@) =~= before + spec_preserve_maps(audio@, codec@));
    true
}

// ---------------------------------------------------------------------------
// Attaching an external subtitle
// ---------------------------------------------------------------------------

/// A character a filtergraph parser treats as ordinary text in a label.
pub open spec fn is_safe_label_char(c: char) -> bool {
    ('a' <= c && c <= 'z') || ('A' <= c && c <= 'Z') || ('0' <= c && c <= '9') || c == '-' || c
        == '_'
}

/// A nonempty label made only of ASCII alphanumerics, `-` and `_`.
pub open spec fn spec_is_safe_filter_label(label: Seq<char>) -> bool {
    label.len() > 0 && forall|i: int| 0 <= i < label.len() ==> #[trigger] is_safe_label_char(label[i])
}

/// Whether `label` is safe to interpolate into a filtergraph unescaped.
pub fn is_safe_filter_label(label: &str) -> (r: bool)
    ensures
        r == spec_is_safe_filter_label(label@),
{
    let mut ok = true;
    let mut nonempty = false;
    for c in it: label.chars()
        invariant
            it.seq() == label@,
            nonempty == (it.index() > 0),
            ok == (forall|j: int| 0 <= j < it.index() ==> #[trigger] is_safe_label_char(label@[j])),
    {
        let safe = ('a' <= c && c <= 'z') || ('A' <= c && c <= 'Z') || ('0' <= c && c <= '9') || c
            == '-' || c == '_';
        proof {
            if !safe {
                assert(!is_safe_label_char(label@[it.index() as int]));
            }
        }
        ok = ok && safe;
        nonempty = true;
    }
    nonempty && ok
}

/// The subtitle-filter option carrying a character encoding, or nothing
/// when there is none or it is not a safe label.
pub open spec fn spec_charenc_option(charenc: Option<Seq<char>>) -> Seq<char> {
    match charenc {
        Some(enc) => if spec_is_safe_filter_label(enc) {
            ":charenc="@ + enc
        } else {
            Seq::empty()
        },
        None => Seq::empty(),
    }
}

/// The `subtitles` video filter that burns a file, whose escaped path is
/// `escaped`, into the frames.
pub open spec fn spec_burn_in_filter(escaped: Seq<char>, charenc: Option<Seq<char>>) -> Seq<char> {
    "subtitles=filename="@ + escaped + spec_charenc_option(charenc)
}

/// The burn-in filter for `path` under either path convention.
pub open spec fn spec_is_burn_in_filter_for(
    filter: Seq<char>,
    path: Seq<char>,
    charenc: Option<Seq<char>>,
) -> bool {
    filter == spec_burn_in_filter(spec_escape_for_filter(path, false), charenc) || filter
        == spec_burn_in_filter(spec_escape_for_filter(path, true), charenc)
}

/// What a target is missing when it cannot carry a subtitle in `mode`.
pub open spec fn spec_unsupported_what(mode: SubtitleMode) -> Seq<char> {
    match mode {
        SubtitleMode::Soft => "a subtitle track"@,
        SubtitleMode::BurnIn => "burned-in subtitles"@,
    }
}

/// The message refusing a subtitle that `t` cannot carry.
pub open spec fn spec_unsupported_message(t: TargetFormat, mode: SubtitleMode) -> Seq<char> {
    spec_extension(t) + " output can't carry "@ + spec_unsupported_what(mode)
}

/// The maps a soft-embed adds ahead of its own `-c:s`.
pub open spec fn spec_soft_maps(audio: Seq<char>, preserve_existing: bool) -> Seq<Seq<char>> {
    seq!["-map"@, "0:v:0?"@, "-map"@, audio] + (if preserve_existing {
        seq!["-map"@, "0:s?"@]
    } else {
        Seq::empty()
    })
}

/// Attaches `sub_path` to `plan` according to `mode`.
///
/// Soft-embed maps the first video stream, the source's audio streams (see
/// `audio_map`), optionally the source's own subtitles, and the new track
/// from a second input, whose path it returns. Burn-in appends a
/// `subtitles` filter (carrying `charenc` when it is a safe label), adds no
/// input and requires a re-encoding plan.
pub fn apply_to_plan(
    plan: &mut Plan,
    target: TargetFormat,
    mode: SubtitleMode,
    sub_path: &str,
    preserve_existing: bool,
    charenc: Option<&str>,
    audio_codecs: &[String],
) -> (r: Result<Option<String>, GoopError>)
    ensures
        !spec_supports(target, mode) ==> (r matches Err(e) && e matches GoopError::InvalidRequest(m)
            && m@ == spec_unsupported_message(target, mode)),
        spec_supports(target, mode) && mode is BurnIn && !old(plan).reencoded ==> (r matches Err(e)
            && e matches GoopError::InvalidRequest(m)
            && m@ == "burning in subtitles requires re-encoding the video"@),
        r is Err ==> *final(plan) == *old(plan),
        spec_supports(target, mode) && mode is Soft ==> (r matches Ok(Some(p)) && p@ == sub_path@
            && views(final(plan).args@) == views(old(plan).args@) + spec_soft_maps(
            spec_audio_map(target, views(old(plan).args@), views(audio_codecs@)),
            preserve_existing,
        ) + seq!["-map"@, "1:0"@, "-c:s"@, spec_soft_codec(target)->0]
            && final(plan).video_filters == old(plan).video_filters),
        spec_supports(target, mode) && mode is BurnIn && old(plan).reencoded ==> (r matches Ok(None)
            && final(plan).args == old(plan).args && final(plan).video_filters@.len()
            == old(plan).video_filters@.len() + 1 && views(final(plan).video_filters@).drop_last()
            == views(old(plan).video_filters@) && spec_is_burn_in_filter_for(
            final(plan).video_filters@.last()@,
            sub_path@,
            opt_view(charenc),
        )),
        final(plan).reencoded == old(plan).reencoded,
        final(plan).ext == old(plan).ext,
{
    if !supports(target, mode) {
        let what = match mode {
            SubtitleMode::Soft => "a subtitle track",
            SubtitleMode::BurnIn => "burned-in subtitles",
        };
        let mut message = target.extension();
        push_str(&mut message, " output can't carry ");
        push_str(&mut message, what);
        return Err(GoopError::InvalidRequest(message));
    }
    match mode {
        SubtitleMode::Soft => {
            let ghost before = views(plan.args@);
            let codec = match soft_codec(target) {
                Some(c) => c,
                None => {
                    // `supports` established that a codec exists.
                    assert(false);
                    "srt"
                },
            };
            let audio = audio_map(target, plan, audio_codecs);
            push_arg(&mut plan.args, "-map");
            push_arg(&mut plan.args, "0:v:0?");
            push_arg(&mut plan.args, "-map");
            push_arg(&mut plan.args, audio);
            if preserve_existing {
                push_arg(&mut plan.args, "-map");
                push_arg(&mut plan.args, "0:s?");
            }
            push_arg(&mut plan.args, "-map");
            push_arg(&mut plan.args, "1:0");
            push_arg(&mut plan.args, "-c:s");
            push_arg(&mut plan.args, codec);
            assert(views(plan.args@) =~= before + spec_soft_maps(audio@, preserve_existing)
                + seq!["-map"@, "1:0"@, "-c:s"@, codec@]);
            Ok(Some(owned(sub_path)))
        },
        SubtitleMode::BurnIn => {
            if !plan.reencoded {
                return Err(
                    invalid("burning in subtitles requires re-encoding the video"),
                );
            }
            let mut filter = owned("subtitles=filename=");
            let escaped = escape_subtitles_path(sub_path);
            push_str(&mut filter, escaped.as_str());
            match charenc {
                Some(enc) => {
                    if is_safe_filter_label(enc) {
                        push_str(&mut filter, ":charenc=");
                        push_str(&mut filter, enc);
                        assert(filter@ =~= spec_burn_in_filter(escaped@, opt_view(charenc)));
                    } else {
                        assert(filter@ =~= spec_burn_in_filter(escaped@, opt_view(charenc)));
                    }
                },
                None => {
                    assert(filter@ =~= spec_burn_in_filter(escaped@, opt_view(charenc)));
                },
            }
            let ghost before = plan.video_filters@;
            plan.video_filters.push(filter);
            proof {
                assert(views(plan.video_filters@).drop_last() =~= views(before));
            }
            Ok(None)
        },
    }
}

// ---------------------------------------------------------------------------
// Escaping for the `subtitles` filter
// ---------------------------------------------------------------------------

/// Windows paths use `/` in place of `\`.
pub open spec fn normalize_char(c: char, windows_paths: bool) -> char {
    if windows_paths && c == '\\' { '/' } else { c }
}

/// The first (AVOption) escaping round for one character.
pub open spec fn escape_round1_char(c: char) -> Seq<char> {
    if c == '\\' || c == '\'' || c == ':' { seq!['\\', c] } else { seq![c] }
}

/// The second (filtergraph) escaping round for one character.
pub open spec fn escape_round2_char(c: char) -> Seq<char> {
    if c == '\\' || c == '\'' || c == '[' || c == ']' || c == ',' || c == ';' {
        seq!['\\', c]
    } else {
        seq![c]
    }
}

/// Both escaping rounds applied to one (normalized) character.
pub open spec fn escape_both_char(c: char) -> Seq<char> {
    escape_round2_seq(escape_round1_char(c))
}

/// The second escaping round over a whole sequence.
pub open spec fn escape_round2_seq(s: Seq<char>) -> Seq<char>
    decreases s.len(),
{
    if s.len() == 0 {
        Seq::empty()
    } else {
        escape_round2_seq(s.drop_last()) + escape_round2_char(s.last())
    }
}

/// The first escaping round over a whole sequence.
pub open spec fn escape_round1_seq(s: Seq<char>) -> Seq<char>
    decreases s.len(),
{
    if s.len() == 0 {
        Seq::empty()
    } else {
        escape_round1_seq(s.drop_last()) + escape_round1_char(s.last())
    }
}

/// Path normalization over a whole sequence.
pub open spec fn normalize_seq(s: Seq<char>, windows_paths: bool) -> Seq<char> {
    s.map_values(|c: char| normalize_char(c, windows_paths))
}

/// The `filename` option value for the `subtitles` filter: the path,
/// normalized, escaped for the AVOption parser and then for the
/// filtergraph parser.
pub open spec fn spec_escape_for_filter(path: Seq<char>, windows_paths: bool) -> Seq<char> {
    escape_round2_seq(escape_round1_seq(normalize_seq(path, windows_paths)))
}


proof fn lemma_round2_append(a: Seq<char>, b: Seq<char>)
    ensures
        escape_round2_seq(a + b) == escape_round2_seq(a) + escape_round2_seq(b),
    decreases b.len(),
{
    if b.len() == 0 {
        assert(a + b =~= a);
        assert(escape_round2_seq(b) =~= Seq::<char>::empty());
        assert(escape_round2_seq(a) + escape_round2_seq(b) =~= escape_round2_seq(a));
    } else {
        lemma_round2_append(a, b.drop_last());
        assert((a + b).drop_last() =~= a + b.drop_last());
        assert((a + b).last() == b.last());
        assert(escape_round2_seq(a + b) =~= escape_round2_seq(a) + escape_round2_seq(b));
    }
}

proof fn lemma_round1_append(a: Seq<char>, b: Seq<char>)
    ensures
        escape_round1_seq(a + b) == escape_round1_seq(a) + escape_round1_seq(b),
    decreases b.len(),
{
    if b.len() == 0 {
        assert(a + b =~= a);
        assert(escape_round1_seq(b) =~= Seq::<char>::empty());
        assert(escape_round1_seq(a) + escape_round1_seq(b) =~= escape_round1_seq(a));
    } else {
        lemma_round1_append(a, b.drop_last());
        assert((a + b).drop_last() =~= a + b.drop_last());
        assert((a + b).last() == b.last());
        assert(escape_round1_seq(a + b) =~= escape_round1_seq(a) + escape_round1_seq(b));
    }
}

proof fn lemma_round1_single(c: char)
    ensures
        escape_round1_seq(seq![c]) == escape_round1_char(c),
{
    assert(seq![c].drop_last() =~= Seq::<char>::empty());
    assert(escape_round1_seq(Seq::<char>::empty()) + escape_round1_char(c) =~= escape_round1_char(c));
}

proof fn lemma_round2_of_pair(a: char, b: char)
    ensures
        escape_round2_seq(seq![a, b]) == escape_round2_char(a) + escape_round2_char(b),
{
    assert(seq![a, b].drop_last() =~= seq![a]);
    lemma_round2_single(a);
    assert(escape_round2_seq(seq![a, b]) == escape_round2_seq(seq![a]) + escape_round2_char(b));
}

proof fn lemma_round2_single(a: char)
    ensures
        escape_round2_seq(seq![a]) == escape_round2_char(a),
{
    assert(seq![a].drop_last() =~= Seq::<char>::empty());
    assert(escape_round2_seq(Seq::<char>::empty()) + escape_round2_char(a) =~= escape_round2_char(a));
}

/// Both rounds over a prefix extended by one character.
proof fn lemma_escape_step(prefix: Seq<char>, c: char)
    ensures
        escape_round2_seq(escape_round1_seq(prefix.push(c))) == escape_round2_seq(
            escape_round1_seq(prefix),
        ) + escape_both_char(c),
{
    assert(prefix.push(c) =~= prefix + seq![c]);
    lemma_round1_append(prefix, seq![c]);
    lemma_round1_single(c);
    lemma_round2_append(escape_round1_seq(prefix), escape_round1_char(c));
}

/// One round of backslash unescaping as a filter option parser applies it:
/// a backslash stands for the character after it.
pub open spec fn unescape_seq(s: Seq<char>) -> Seq<char>
    decreases s.len(),
{
    if s.len() == 0 {
        Seq::empty()
    } else if s[0] == '\\' && s.len() >= 2 {
        seq![s[1]] + unescape_seq(s.skip(2))
    } else {
        seq![s[0]] + unescape_seq(s.skip(1))
    }
}

proof fn lemma_unescape_char(e: Seq<char>, c: char, t: Seq<char>)
    requires
        e == seq!['\\', c] || (e == seq![c] && c != '\\'),
    ensures
        unescape_seq(e + t) == seq![c] + unescape_seq(t),
{
    let x = e + t;
    if e.len() == 2 {
        assert(x[0] == '\\' && x[1] == c);
        assert(x.skip(2) =~= t);
    } else {
        assert(x[0] == c);
        assert(x.skip(1) =~= t);
    }
}

proof fn lemma_unescape_round1(y: Seq<char>, t: Seq<char>)
    ensures
        unescape_seq(escape_round1_seq(y) + t) == y + unescape_seq(t),
    decreases y.len(),
{
    if y.len() == 0 {
        assert(escape_round1_seq(y) + t =~= t);
        assert(y + unescape_seq(t) =~= unescape_seq(t));
    } else {
        let c = y[0];
        let rest = y.skip(1);
        assert(y =~= seq![c] + rest);
        lemma_round1_append(seq![c], rest);
        lemma_round1_single(c);
        lemma_unescape_round1(rest, t);
        assert(escape_round1_seq(y) + t =~= escape_round1_char(c) + (escape_round1_seq(rest) + t));
        lemma_unescape_char(escape_round1_char(c), c, escape_round1_seq(rest) + t);
        assert(seq![c] + (rest + unescape_seq(t)) =~= y + unescape_seq(t));
    }
}

proof fn lemma_unescape_round2(y: Seq<char>, t: Seq<char>)
    ensures
        unescape_seq(escape_round2_seq(y) + t) == y + unescape_seq(t),
    decreases y.len(),
{
    if y.len() == 0 {
        assert(escape_round2_seq(y) + t =~= t);
        assert(y + unescape_seq(t) =~= unescape_seq(t));
    } else {
        let c = y[0];
        let rest = y.skip(1);
        assert(y =~= seq![c] + rest);
        lemma_round2_append(seq![c], rest);
        assert(escape_round2_seq(seq![c]) =~= escape_round2_char(c)) by {
            assert(seq![c].drop_last() =~= Seq::<char>::empty());
            assert(escape_round2_seq(Seq::<char>::empty()) + escape_round2_char(c)
                =~= escape_round2_char(c));
        }
        lemma_unescape_round2(rest, t);
        assert(escape_round2_seq(y) + t =~= escape_round2_char(c) + (escape_round2_seq(rest) + t));
        lemma_unescape_char(escape_round2_char(c), c, escape_round2_seq(rest) + t);
        assert(seq![c] + (rest + unescape_seq(t)) =~= y + unescape_seq(t));
    }
}

/// The filter escaping loses nothing: the filtergraph parser's and then
/// the option parser's unescaping give back exactly the normalized path.
pub proof fn lemma_filter_escape_round_trips(path: Seq<char>, windows_paths: bool)
    ensures
        unescape_seq(unescape_seq(spec_escape_for_filter(path, windows_paths))) == normalize_seq(
            path,
            windows_paths,
        ),
{
    let n = normalize_seq(path, windows_paths);
    let e1 = escape_round1_seq(n);
    assert(unescape_seq(Seq::<char>::empty()) =~= Seq::<char>::empty());
    lemma_unescape_round2(e1, Seq::empty());
    assert(escape_round2_seq(e1) + Seq::<char>::empty() =~= escape_round2_seq(e1));
    assert(e1 + Seq::<char>::empty() =~= e1);
    lemma_unescape_round1(n, Seq::empty());
    assert(e1 + Seq::<char>::empty() =~= e1);
    assert(n + Seq::<char>::empty() =~= n);
}

fn push_escaped_round2(out: &mut String, c: char)
    ensures
        final(out)@ == old(out)@ + escape_round2_char(c),
{
    if c == '\\' || c == '\'' || c == '[' || c == ']' || c == ',' || c == ';' {
        push_char(out, '\\');
    }
    push_char(out, c);
    assert(out@ =~= old(out)@ + escape_round2_char(c));
}

/// Escapes a path for the `filename` option of the `subtitles` filter. The
/// value is unescaped twice on the way in, so every metacharacter gets two
/// rounds of escaping. `windows_paths` rewrites `\` separators to `/`;
/// elsewhere a backslash is an ordinary filename character.
pub fn escape_for_filter(path: &str, windows_paths: bool) -> (r: String)
    ensures
        r@ == spec_escape_for_filter(path@, windows_paths),
{
    let mut out = String::new();
    let ghost norm = normalize_seq(path@, windows_paths);
    for c0 in it: path.chars()
        invariant
            it.seq() == path@,
            norm == normalize_seq(path@, windows_paths),
            out@ == escape_round2_seq(escape_round1_seq(norm.take(it.index() as int))),
    {
        let ghost i = it.index() as int;
        let c = if windows_paths && c0 == '\\' { '/' } else { c0 };
        proof {
            assert(norm.take(i + 1) =~= norm.take(i).push(c));
            lemma_escape_step(norm.take(i), c);
        }
        if c == '\\' || c == '\'' || c == ':' {
            push_escaped_round2(&mut out, '\\');
            push_escaped_round2(&mut out, c);
            proof {
                lemma_round2_of_pair('\\', c);
            }
        } else {
            push_escaped_round2(&mut out, c);
            proof {
                lemma_round2_single(c);
            }
        }
    }
    proof {
        assert(norm.take(norm.len() as int) =~= norm);
    }
    out
}

/// Whether this host writes paths with `\` separators.
#[verifier::external_body]
fn host_uses_backslash_separator() -> bool {
    std::path::MAIN_SEPARATOR == '\\'
}

/// Escapes a path for the `subtitles` filter using the host's own path
/// convention: backslash separators are rewritten only where they are
/// separators.
pub fn escape_subtitles_path(path: &str) -> (r: String)
    ensures
        r@ == spec_escape_for_filter(path@, false) || r@ == spec_escape_for_filter(path@, true),
{
    escape_for_filter(path, host_uses_backslash_separator())
}

// ---------------------------------------------------------------------------
// Character encoding of subtitle files
// ---------------------------------------------------------------------------

/// The name of the encoding `chardetng` guesses for `bytes` when fed them
/// whole, with no top-level-domain hint and UTF-8 allowed.
pub uninterp spec fn spec_guessed_encoding(bytes: Seq<u8>) -> Seq<char>;

/// `chardetng::EncodingDetector`: feed every byte, then ask for its guess.
#[verifier::external_body]
fn guess_encoding_name(bytes: &[u8]) -> (name: &'static str)
    ensures
        name@ == spec_guessed_encoding(bytes@),
{
    let mut detector = chardetng::EncodingDetector::new();
    detector.feed(bytes, true);
    detector.guess(None, true).name()
}

/// `std::str::from_utf8` succeeds exactly on valid UTF-8.
#[verifier::external_body]
fn is_valid_utf8(bytes: &[u8]) -> (r: bool)
    ensures
        r == vstd::utf8::valid_utf8(bytes@),
{
    std::str::from_utf8(bytes).is_ok()
}

/// A UTF-16 or UTF-32 byte-order mark at the start of `b`.
pub open spec fn spec_has_wide_bom(b: Seq<u8>) -> bool {
    ||| (b.len() >= 2 && b[0] == 0xFF && b[1] == 0xFE)
    ||| (b.len() >= 2 && b[0] == 0xFE && b[1] == 0xFF)
    ||| (b.len() >= 4 && b[0] == 0x00 && b[1] == 0x00 && b[2] == 0xFE && b[3] == 0xFF)
    ||| (b.len() >= 4 && b[0] == 0xFF && b[1] == 0xFE && b[2] == 0x00 && b[3] == 0x00)
}

/// The encoding ffmpeg has to be told about, given the detector's guess:
/// none when the guess is UTF-8, which would be a no-op.
pub open spec fn spec_charenc_from_guess(guess: Seq<char>) -> Option<Seq<char>> {
    if guess == "UTF-8"@ {
        None
    } else {
        Some(guess)
    }
}

/// What `detect_charenc` answers: nothing for empty input, valid UTF-8 and
/// inputs that start with a UTF-16/UTF-32 byte-order mark; otherwise the
/// detector's guess unless it is UTF-8.
pub open spec fn spec_detect_charenc(bytes: Seq<u8>) -> Option<Seq<char>> {
    if bytes.len() == 0 || vstd::utf8::valid_utf8(bytes) || spec_has_wide_bom(bytes) {
        None
    } else {
        spec_charenc_from_guess(spec_guessed_encoding(bytes))
    }
}

/// The `-sub_charenc` value for a detector guess: `None` for UTF-8.
pub fn charenc_from_guess(guess: &'static str) -> (r: Option<&'static str>)
    ensures
        opt_view(r) == spec_charenc_from_guess(guess@),
{
    if str_eq(guess, "UTF-8") {
        None
    } else {
        Some(guess)
    }
}

fn starts_with_bytes(b: &[u8], p0: u8, p1: u8) -> (r: bool)
    ensures
        r == (b@.len() >= 2 && b@[0] == p0 && b@[1] == p1),
{
    b.len() >= 2 && b[0] == p0 && b[1] == p1
}

/// The `-sub_charenc` value ffmpeg needs to read `bytes` as text, or `None`
/// when it already reads them correctly (valid UTF-8, or a UTF-16 byte-order
/// mark ffmpeg handles itself; UTF-32 is not guessed at).
pub fn detect_charenc(bytes: &[u8]) -> (r: Option<&'static str>)
    ensures
        opt_view(r) == spec_detect_charenc(bytes@),
{
    if bytes.len() == 0 || is_valid_utf8(bytes) {
        return None;
    }
    let bom = starts_with_bytes(bytes, 0xFF, 0xFE) || starts_with_bytes(bytes, 0xFE, 0xFF) || (
    bytes.len() >= 4 && bytes[0] == 0x00 && bytes[1] == 0x00 && bytes[2] == 0xFE && bytes[3]
        == 0xFF) || (bytes.len() >= 4 && bytes[0] == 0xFF && bytes[1] == 0xFE && bytes[2] == 0x00
        && bytes[3] == 0x00);
    if bom {
        return None;
    }
    charenc_from_guess(guess_encoding_name(bytes))
}

/// Valid UTF-8 never needs an encoding named for it.
pub proof fn lemma_utf8_needs_no_charenc(bytes: Seq<u8>)
    requires
        vstd::utf8::valid_utf8(bytes),
    ensures
        spec_detect_charenc(bytes) is None,
{
}

} // verus!
