//! Admission and deterministic software plans for explicit video controls.
use vstd::prelude::*;
use crate::error::{invalid, invalid_owned, is_invalid_with, GoopError};
use crate::formats::{spec_extension, TargetFormat};
use crate::plan::Plan;
use crate::subtitle::{copyable_audio_codecs, push_arg, spec_copyable_audio_codecs, str_views};
use crate::media::{opt_string, ProbeResult, SourceKind, VideoRationalFact, VideoStreamInfo};
use crate::text::{decimal, decimal_string, owned, push_str, str_eq, views};

verus! {

broadcast use vstd::string::group_string_axioms;

/// Whether an optional string holds exactly `lit`.
pub fn opt_str_is(o: &Option<String>, lit: &str) -> (r: bool)
    ensures
        r == (opt_string(*o) == Some(lit@)),
{
    match o {
        Some(s) => str_eq(s.as_str(), lit),
        None => false,
    }
}

/// An optional position as an optional integer.
pub open spec fn opt_pos(o: Option<usize>) -> Option<int> {
    match o {
        Some(i) => Some(i as int),
        None => None,
    }
}

// ---------------------------------------------------------------------------
// Stream admission
// ---------------------------------------------------------------------------

/// A codec name that does not identify a codec.
pub open spec fn unknown_codec(c: Option<Seq<char>>) -> bool {
    match c {
        None => true,
        Some(n) => n.len() == 0 || n == "unknown"@,
    }
}

/// The message refusing an extra or unsupported stream of type `kind`.
pub open spec fn extra_stream_message(kind: Seq<char>) -> Seq<char> {
    "Additional or unsupported "@ + kind
        + " stream; explicit video settings support one video and at most one audio stream"@
}

/// Choosing the video and audio stream positions over the first streams:
/// indices must be unique, no stream may be attached artwork or of unknown
/// codec; the first video stream is the video, auxiliary audio and
/// subtitle streams are left to a stream policy when `aux`, and otherwise
/// the first audio stream is the audio and anything else is refused.
pub open spec fn pick_fold(s: Seq<VideoStreamInfo>, aux: bool) -> Result<(Option<int>, Option<int>), Seq<char>>
    decreases s.len(),
{
    if s.len() == 0 {
        Ok((None, None))
    } else {
        match pick_fold(s.drop_last(), aux) {
            Err(m) => Err(m),
            Ok((v, a)) => {
                let k = s.len() - 1;
                let st = s[k];
                let kind = st.codec_type@;
                if exists|j: int| 0 <= j < k && (#[trigger] s[j]).index == st.index {
                    Err("Duplicate source stream indices"@)
                } else if st.attached_pic {
                    Err("Attached artwork is not supported by explicit video settings"@)
                } else if unknown_codec(opt_string(st.codec_name)) {
                    Err("Every source stream requires a known codec"@)
                } else if kind == "video"@ && v is None {
                    Ok((Some(k), a))
                } else if (kind == "audio"@ || kind == "subtitle"@) && aux {
                    Ok((v, a))
                } else if kind == "audio"@ && a is None {
                    Ok((v, Some(k)))
                } else {
                    Err(extra_stream_message(kind))
                }
            },
        }
    }
}

/// A rotation that is ambiguous or not a multiple of 90 degrees.
pub open spec fn bad_rotation(st: VideoStreamInfo) -> bool {
    st.rotation_ambiguous || (st.rotation_degrees is Some && (st.rotation_degrees->0 as int) % 90
        != 0)
}

/// The positions of the single video stream and the optional audio stream
/// explicit video settings operate on, or why the source is refused.
pub open spec fn spec_streams_for_mode(probe: ProbeResult, aux: bool) -> Result<(int, Option<int>), Seq<char>> {
    if probe.source_kind != SourceKind::Video {
        Err("Explicit video settings require a video source"@)
    } else {
        match probe.video_details {
            None => Err(
                "Complete stream indices and disposition facts require a fresh video probe"@,
            ),
            Some(d) => match pick_fold(d.streams@, aux) {
                Err(m) => Err(m),
                Ok((None, _)) => Err("Exactly one ordinary video stream is required"@),
                Ok((Some(v), a)) => if bad_rotation(d.streams@[v]) {
                    Err(
                        "Video rotation is malformed or ambiguous; only multiples of 90 degrees are supported"@,
                    )
                } else {
                    Ok((v, a))
                },
            },
        }
    }
}

proof fn lemma_pick_fold_error_sticks(s: Seq<VideoStreamInfo>, k: int, aux: bool)
    requires
        0 <= k <= s.len(),
        pick_fold(s.take(k), aux) is Err,
    ensures
        pick_fold(s, aux) == pick_fold(s.take(k), aux),
    decreases s.len() - k,
{
    if k < s.len() {
        assert(s.take(k + 1).drop_last() =~= s.take(k));
        lemma_pick_fold_error_sticks(s, k + 1, aux);
    } else {
        assert(s.take(k) =~= s);
    }
}

proof fn lemma_pick_fold_bounds(s: Seq<VideoStreamInfo>, aux: bool)
    ensures
        pick_fold(s, aux) matches Ok((v, a)) ==> (v matches Some(x) ==> 0 <= x < s.len()) && (
        a matches Some(y) ==> 0 <= y < s.len()),
    decreases s.len(),
{
    if s.len() > 0 {
        lemma_pick_fold_bounds(s.drop_last(), aux);
    }
}

/// Whether `v` has a stream with `index` before position `k`.
fn index_seen(v: &Vec<VideoStreamInfo>, k: usize, index: u32) -> (r: bool)
    requires
        k <= v@.len(),
    ensures
        r == exists|j: int| 0 <= j < k && (#[trigger] v@[j]).index == index,
{
    let mut j: usize = 0;
    while j < k
        invariant
            j <= k <= v@.len(),
            forall|q: int| 0 <= q < j ==> (#[trigger] v@[q]).index != index,
        decreases k - j,
    {
        if v[j].index == index {
            return true;
        }
        j = j + 1;
    }
    false
}

/// Chooses the video stream and the optional audio stream for explicit
/// video settings, as positions in the stream list.
pub fn streams_for_mode(probe: &ProbeResult, allow_auxiliary_streams: bool) -> (r: Result<
    (usize, Option<usize>),
    GoopError,
>)
    ensures
        match spec_streams_for_mode(*probe, allow_auxiliary_streams) {
            Ok((v, a)) => (r matches Ok((x, y)) && x as int == v && opt_pos(y) == a),
            Err(m) => (r matches Err(e) && is_invalid_with(e, m)),
        },
{
    if probe.source_kind != SourceKind::Video {
        return Err(invalid("Explicit video settings require a video source"));
    }
    let details = match &probe.video_details {
        Some(d) => d,
        None => {
            return Err(
                invalid("Complete stream indices and disposition facts require a fresh video probe"),
            );
        },
    };
    let streams = &details.streams;
    let ghost s = streams@;
    let mut video: Option<usize> = None;
    let mut audio: Option<usize> = None;
    let mut k: usize = 0;
    proof {
        assert(s.take(0) =~= Seq::<VideoStreamInfo>::empty());
    }
    while k < streams.len()
        invariant
            s == streams@,
            s == details.streams@,
            probe.source_kind == SourceKind::Video,
            probe.video_details == Some(*details),
            k <= s.len(),
            pick_fold(s.take(k as int), allow_auxiliary_streams) == Ok::<
                (Option<int>, Option<int>),
                Seq<char>,
            >((opt_pos(video), opt_pos(audio))),
        decreases s.len() - k,
    {
        proof {
            assert(s.take(k + 1).drop_last() =~= s.take(k as int));
            assert(s.take(k + 1).last() == s[k as int]);
            assert forall|j: int| 0 <= j < k implies s.take(k + 1)[j] == s[j] by {}
        }
        let st = &streams[k];
        if index_seen(streams, k, st.index) {
            proof {
                let j = choose|j: int| 0 <= j < k && (#[trigger] s[j]).index == st.index;
                let t = s.take(k + 1);
                assert(t[j] == s[j]);
                assert(t[k as int] == s[k as int]);
                assert(exists|j: int| 0 <= j < t.len() - 1 && (#[trigger] t[j]).index == t[t.len()
                    - 1].index);
                lemma_pick_fold_error_sticks(s, k + 1, allow_auxiliary_streams);
            }
            return Err(invalid("Duplicate source stream indices"));
        }
        proof {
            let t = s.take(k + 1);
            assert(t[k as int] == s[k as int]);
            assert forall|j: int| 0 <= j < k implies (#[trigger] t[j]).index != t[k as int].index by {
                assert(t[j] == s[j]);
            }
        }
        if st.attached_pic {
            proof {
                lemma_pick_fold_error_sticks(s, k + 1, allow_auxiliary_streams);
            }
            return Err(invalid("Attached artwork is not supported by explicit video settings"));
        }
        let unknown = match &st.codec_name {
            None => true,
            Some(c) => c.as_str().unicode_len() == 0 || str_eq(c.as_str(), "unknown"),
        };
        assert(unknown == unknown_codec(opt_string(st.codec_name)));
        if unknown {
            proof {
                lemma_pick_fold_error_sticks(s, k + 1, allow_auxiliary_streams);
            }
            return Err(invalid("Every source stream requires a known codec"));
        }
        let kind = st.codec_type.as_str();
        let is_video = str_eq(kind, "video");
        let is_audio = str_eq(kind, "audio");
        let is_subtitle = str_eq(kind, "subtitle");
        if is_video && video.is_none() {
            video = Some(k);
        } else if (is_audio || is_subtitle) && allow_auxiliary_streams {
        } else if is_audio && audio.is_none() {
            audio = Some(k);
        } else {
            proof {
                lemma_pick_fold_error_sticks(s, k + 1, allow_auxiliary_streams);
            }
            let mut m = owned("Additional or unsupported ");
            push_str(&mut m, kind);
            push_str(
                &mut m,
                " stream; explicit video settings support one video and at most one audio stream",
            );
            return Err(invalid_owned(m));
        }
        k = k + 1;
    }
    proof {
        assert(s.take(s.len() as int) =~= s);
        lemma_pick_fold_bounds(s, allow_auxiliary_streams);
    }
    let v = match video {
        Some(v) => v,
        None => return Err(invalid("Exactly one ordinary video stream is required")),
    };
    let vs = &streams[v];
    let bad = vs.rotation_ambiguous || match vs.rotation_degrees {
        Some(r) => rem_euclid(r, 90) != 0,
        None => false,
    };
    if bad {
        return Err(
            invalid(
                "Video rotation is malformed or ambiguous; only multiples of 90 degrees are supported",
            ),
        );
    }
    Ok((v, audio))
}

/// `i32::rem_euclid` for a positive modulus.
pub fn rem_euclid(x: i32, m: i32) -> (r: i32)
    requires
        m > 0,
    ensures
        r as int == (x as int) % (m as int),
        0 <= r < m,
{
    let mm = m as i64 as u64;
    if x >= 0 {
        let v = (x as i64 as u64) % mm;
        v as i32
    } else {
        let a: u64 = (-(x as i64)) as u64;
        let v = a % mm;
        if v == 0 {
            proof {
                let xi = x as int;
                let mi = m as int;
                let q = (-xi) / mi;
                vstd::arithmetic::div_mod::lemma_fundamental_div_mod(-xi, mi);
                assert(xi == (-q) * mi + 0) by (nonlinear_arith)
                    requires -xi == mi * q + 0;
                vstd::arithmetic::div_mod::lemma_fundamental_div_mod_converse(xi, mi, -q, 0);
            }
            0
        } else {
            proof {
                let xi = x as int;
                let mi = m as int;
                let vi = v as int;
                let q = (-xi) / mi;
                vstd::arithmetic::div_mod::lemma_fundamental_div_mod(-xi, mi);
                assert(xi == (-q - 1) * mi + (mi - vi)) by (nonlinear_arith)
                    requires -xi == mi * q + vi;
                vstd::arithmetic::div_mod::lemma_fundamental_div_mod_converse(xi, mi, -q - 1, mi - vi);
            }
            (mm - v) as i32
        }
    }
}

// ---------------------------------------------------------------------------
// Geometry
// ---------------------------------------------------------------------------

/// The upright dimensions of the source: the probed width and height, both
/// within 1..=32768, swapped for a quarter-turn rotation.
pub open spec fn spec_dimensions(probe: ProbeResult, rotation: Option<i32>) -> Result<(u32, u32), Seq<char>> {
    if probe.width is Some && probe.height is Some && 0 < probe.width->0 <= 32768 && 0
        < probe.height->0 <= 32768 {
        let w = probe.width->0;
        let h = probe.height->0;
        let r = match rotation {
            Some(d) => d as int,
            None => 0,
        };
        if r % 180 == 90 {
            Ok((h, w))
        } else {
            Ok((w, h))
        }
    } else {
        Err("Video dimensions are missing or unsupported"@)
    }
}

/// The upright dimensions of a video source.
pub fn dimensions(probe: &ProbeResult, video: &VideoStreamInfo) -> (r: Result<(u32, u32), GoopError>)
    ensures
        match spec_dimensions(*probe, video.rotation_degrees) {
            Ok(d) => r == Ok::<(u32, u32), GoopError>(d),
            Err(m) => (r matches Err(e) && is_invalid_with(e, m)),
        },
{
    let (w, h) = match (probe.width, probe.height) {
        (Some(w), Some(h)) => (w, h),
        _ => return Err(invalid("Video dimensions are missing or unsupported")),
    };
    if !(w > 0 && h > 0 && w <= 32768 && h <= 32768) {
        return Err(invalid("Video dimensions are missing or unsupported"));
    }
    let r = match video.rotation_degrees {
        Some(d) => d,
        None => 0,
    };
    if rem_euclid(r, 180) == 90 {
        Ok((h, w))
    } else {
        Ok((w, h))
    }
}

/// The scale factor that fits a source inside a box without enlarging it.
pub open spec fn fit_scale(sw: int, sh: int, bw: int, bh: int) -> (int, int) {
    if sw <= bw && sh <= bh {
        (1, 1)
    } else if bw * sh <= bh * sw {
        (bw, sw)
    } else {
        (bh, sh)
    }
}

/// An axis scaled by `num/den`, rounded down to an even number.
pub open spec fn even_floor(axis: int, num: int, den: int) -> int {
    ((axis * num / den) / 2) * 2
}

/// Fit-within geometry: the source scaled to fit the box preserving its
/// aspect ratio (never enlarged), each axis rounded down to an even number;
/// refused when an axis would fall below 2.
pub open spec fn spec_fit_within(sw: u32, sh: u32, bw: u32, bh: u32) -> Result<(u32, u32), Seq<char>> {
    let (n, d) = fit_scale(sw as int, sh as int, bw as int, bh as int);
    let w = even_floor(sw as int, n, d);
    let h = even_floor(sh as int, n, d);
    if w < 2 || h < 2 {
        Err("Fit-within dimensions resolve below 2 pixels on one axis"@)
    } else {
        Ok((w as u32, h as u32))
    }
}

proof fn lemma_fit_scale_bounds(sw: int, sh: int, bw: int, bh: int)
    requires
        sw >= 0,
        sh >= 0,
        bw >= 0,
        bh >= 0,
    ensures
        sw > 0 && sh > 0 ==> fit_scale(sw, sh, bw, bh).1 > 0,
        fit_scale(sw, sh, bw, bh).1 > 0 ==> 0 <= fit_scale(sw, sh, bw, bh).0 <= fit_scale(
            sw,
            sh,
            bw,
            bh,
        ).1,
{
    if sw <= bw && sh <= bh {
    } else if bw * sh <= bh * sw {
        if bw > sw {
            assert(sh > bh);
            assert(bw * sh > bh * sw) by (nonlinear_arith)
                requires
                    bw > sw,
                    sh > bh,
                    sw >= 0,
                    bh >= 0,
            ;
        }
    } else {
        if bh > sh {
            assert(sw > bw);
            assert(bw * sh <= bh * sw) by (nonlinear_arith)
                requires
                    sw > bw,
                    bh > sh,
                    sh >= 0,
                    bw >= 0,
            ;
        }
    }
}

proof fn lemma_even_floor_bounds(axis: int, n: int, d: int)
    requires
        axis >= 0,
        d > 0,
        0 <= n <= d,
    ensures
        0 <= even_floor(axis, n, d) <= axis,
{
    assert(axis * n <= axis * d) by (nonlinear_arith)
        requires
            axis >= 0,
            n <= d,
    ;
    assert(axis * n / d <= axis) by (nonlinear_arith)
        requires
            axis * n <= axis * d,
            d > 0,
            axis * n >= 0,
    ;
    assert(axis * n >= 0) by (nonlinear_arith)
        requires
            axis >= 0,
            n >= 0,
    ;
}

/// Fits the source inside a box without enlargement, keeping both axes even.
pub fn fit_within(source_width: u32, source_height: u32, box_width: u32, box_height: u32) -> (r:
    Result<(u32, u32), GoopError>)
    requires
        fit_scale(source_width as int, source_height as int, box_width as int, box_height as int).1
            > 0,
    ensures
        match spec_fit_within(source_width, source_height, box_width, box_height) {
            Ok(d) => r == Ok::<(u32, u32), GoopError>(d),
            Err(m) => (r matches Err(e) && is_invalid_with(e, m)),
        },
{
    let sw = source_width as u64;
    let sh = source_height as u64;
    let bw = box_width as u64;
    let bh = box_height as u64;
    assert(bw * sh <= u32::MAX * u32::MAX) by (nonlinear_arith)
        requires bw <= u32::MAX, sh <= u32::MAX;
    assert(bh * sw <= u32::MAX * u32::MAX) by (nonlinear_arith)
        requires bh <= u32::MAX, sw <= u32::MAX;
    let (n, d): (u64, u64) = if sw <= bw && sh <= bh {
        (1, 1)
    } else if bw * sh <= bh * sw {
        (bw, sw)
    } else {
        (bh, sh)
    };
    proof {
        lemma_fit_scale_bounds(sw as int, sh as int, bw as int, bh as int);
        lemma_even_floor_bounds(sw as int, n as int, d as int);
        lemma_even_floor_bounds(sh as int, n as int, d as int);
    }
    assert(sw * n <= u32::MAX * u32::MAX) by (nonlinear_arith)
        requires sw <= u32::MAX, n <= u32::MAX;
    assert(sh * n <= u32::MAX * u32::MAX) by (nonlinear_arith)
        requires sh <= u32::MAX, n <= u32::MAX;
    let w = ((sw * n / d) / 2) * 2;
    let h = ((sh * n / d) / 2) * 2;
    if w < 2 || h < 2 {
        return Err(invalid("Fit-within dimensions resolve below 2 pixels on one axis"));
    }
    Ok((w as u32, h as u32))
}

// ---------------------------------------------------------------------------
// Timing facts
// ---------------------------------------------------------------------------

/// Why frame-rate controls are unavailable from the stream's own timing
/// facts: one is malformed, or one of average rate, base rate and time base
/// is missing.
pub open spec fn spec_timing_unavailable_reason(v: VideoStreamInfo) -> Option<Seq<char>> {
    if v.average_frame_rate == Some(VideoRationalFact::Malformed) || v.base_frame_rate == Some(
        VideoRationalFact::Malformed,
    ) || v.time_base == Some(VideoRationalFact::Malformed) {
        Some("Frame-rate controls are unavailable because source timing facts are malformed"@)
    } else if v.average_frame_rate is None || v.base_frame_rate is None || v.time_base is None {
        Some(
            "Frame-rate controls require complete source timing facts: average rate, base rate and time base"@,
        )
    } else {
        None
    }
}

fn is_malformed(f: Option<VideoRationalFact>) -> (r: bool)
    ensures
        r == (f == Some(VideoRationalFact::Malformed)),
{
    match f {
        Some(VideoRationalFact::Malformed) => true,
        _ => false,
    }
}

/// Why the stream's timing facts cannot support frame-rate controls.
pub fn timing_unavailable_reason(video: &VideoStreamInfo) -> (r: Option<String>)
    ensures
        opt_string(r) == spec_timing_unavailable_reason(*video),
{
    if is_malformed(video.average_frame_rate) || is_malformed(video.base_frame_rate) || is_malformed(
        video.time_base,
    ) {
        Some(owned("Frame-rate controls are unavailable because source timing facts are malformed"))
    } else if video.average_frame_rate.is_none() || video.base_frame_rate.is_none()
        || video.time_base.is_none() {
        Some(
            owned(
                "Frame-rate controls require complete source timing facts: average rate, base rate and time base",
            ),
        )
    } else {
        None
    }
}

/// Why frame-rate controls are unavailable for a video (and its optional
/// audio): the timing facts, then complete start times and endpoints.
pub open spec fn spec_source_timing_unavailable_reason(
    v: VideoStreamInfo,
    a: Option<VideoStreamInfo>,
) -> Option<Seq<char>> {
    match spec_timing_unavailable_reason(v) {
        Some(r) => Some(r),
        None => {
            let complete = v.start_time_ms is Some && v.duration_ms is Some && match a {
                None => true,
                Some(x) => x.start_time_ms is Some && x.duration_ms is Some,
            };
            if complete {
                None
            } else {
                Some(
                    "Frame-rate controls require complete source stream endpoints and start times"@,
                )
            }
        },
    }
}

/// Why frame-rate controls are unavailable for this video and audio.
pub fn source_timing_unavailable_reason(
    video: &VideoStreamInfo,
    audio: Option<&VideoStreamInfo>,
) -> (r: Option<String>)
    ensures
        opt_string(r) == spec_source_timing_unavailable_reason(
            *video,
            match audio {
                Some(x) => Some(*x),
                None => None,
            },
        ),
{
    if let Some(reason) = timing_unavailable_reason(video) {
        return Some(reason);
    }
    let complete = video.start_time_ms.is_some() && video.duration_ms.is_some() && match audio {
        None => true,
        Some(x) => x.start_time_ms.is_some() && x.duration_ms.is_some(),
    };
    if complete {
        None
    } else {
        Some(owned("Frame-rate controls require complete source stream endpoints and start times"))
    }
}

// ---------------------------------------------------------------------------
// Encode admission
// ---------------------------------------------------------------------------

/// Transfer characteristics a custom encode accepts.
pub open spec fn allowed_transfer(v: Seq<char>) -> bool {
    v == "bt709"@ || v == "smpte170m"@ || v == "smpte240m"@ || v == "gamma22"@ || v == "gamma28"@
        || v == "bt470m"@ || v == "bt470bg"@
}

/// Colour primaries a custom encode accepts.
pub open spec fn allowed_primaries(v: Seq<char>) -> bool {
    v == "bt709"@ || v == "bt470m"@ || v == "bt470bg"@ || v == "smpte170m"@ || v == "smpte240m"@
}

/// Colour matrices a custom encode accepts.
pub open spec fn allowed_matrix(v: Seq<char>) -> bool {
    v == "bt709"@ || v == "bt470bg"@ || v == "smpte170m"@ || v == "smpte240m"@ || v == "fcc"@
}

/// Colour ranges a custom encode accepts.
pub open spec fn allowed_range(v: Seq<char>) -> bool {
    v == "tv"@ || v == "pc"@
}

/// A colour tag that says nothing.
pub open spec fn unspecified_tag(v: Option<Seq<char>>) -> bool {
    match v {
        None => true,
        Some(t) => t == "unknown"@ || t == "unspecified"@,
    }
}

/// A colour tag that is specified but not allowed.
pub open spec fn rejected_tag(v: Option<Seq<char>>, allowed: spec_fn(Seq<char>) -> bool) -> bool {
    !unspecified_tag(v) && !allowed(v->0)
}

/// The notice attached when colour tags are unspecified.
pub open spec fn unspecified_color_notice() -> Seq<char> {
    "Color tags are unspecified; no color correction is performed."@
}

/// The refusal for an unsupported colour tag.
pub open spec fn color_refusal(label: Seq<char>) -> Seq<char> {
    "Unsupported or malformed color "@ + label
        + "; HDR and wide-gamut custom encoding are unavailable"@
}

/// Whether a custom encode accepts the source: explicitly progressive
/// 8-bit yuv420p with square pixels and even upright dimensions, and colour
/// tags that are unspecified or SDR; the result is the notices to show.
pub open spec fn spec_encode_source(v: VideoStreamInfo, w: u32, h: u32) -> Result<Seq<Seq<char>>, Seq<char>> {
    if opt_string(v.field_order) != Some("progressive"@) {
        Err(
            "Custom encode requires explicitly progressive video; field order is interlaced or unknown"@,
        )
    } else if opt_string(v.pixel_format) != Some("yuv420p"@) {
        Err(
            "Custom encode supports 8-bit yuv420p video only; high bit depth, alpha and other pixel layouts are unavailable"@,
        )
    } else if opt_string(v.sample_aspect_ratio) != Some("1:1"@) {
        Err("Custom encode requires verified square pixels (sample aspect ratio 1:1)"@)
    } else if w % 2 != 0 || h % 2 != 0 {
        Err("Custom encode requires even upright dimensions"@)
    } else if rejected_tag(opt_string(v.color_transfer), |t: Seq<char>| allowed_transfer(t)) {
        Err(color_refusal("transfer"@))
    } else if rejected_tag(opt_string(v.color_primaries), |t: Seq<char>| allowed_primaries(t)) {
        Err(color_refusal("primaries"@))
    } else if rejected_tag(opt_string(v.color_space), |t: Seq<char>| allowed_matrix(t)) {
        Err(color_refusal("matrix"@))
    } else if rejected_tag(opt_string(v.color_range), |t: Seq<char>| allowed_range(t)) {
        Err(color_refusal("range"@))
    } else if unspecified_tag(opt_string(v.color_transfer)) || unspecified_tag(
        opt_string(v.color_primaries),
    ) || unspecified_tag(opt_string(v.color_space)) || unspecified_tag(opt_string(v.color_range)) {
        Ok(seq![unspecified_color_notice()])
    } else {
        Ok(Seq::empty())
    }
}

/// 0: unspecified, 1: allowed, 2: rejected.
fn classify_tag(v: &Option<String>, which: u8) -> (r: u8)
    requires
        which < 4,
    ensures
        r == 0 <==> unspecified_tag(opt_string(*v)),
        r == 2 <==> rejected_tag(
            opt_string(*v),
            if which == 0 {
                |t: Seq<char>| allowed_transfer(t)
            } else if which == 1 {
                |t: Seq<char>| allowed_primaries(t)
            } else if which == 2 {
                |t: Seq<char>| allowed_matrix(t)
            } else {
                |t: Seq<char>| allowed_range(t)
            },
        ),
        r <= 2,
{
    let t = match v {
        None => return 0,
        Some(t) => t.as_str(),
    };
    if str_eq(t, "unknown") || str_eq(t, "unspecified") {
        return 0;
    }
    let ok = if which == 0 {
        str_eq(t, "bt709") || str_eq(t, "smpte170m") || str_eq(t, "smpte240m") || str_eq(
            t,
            "gamma22",
        ) || str_eq(t, "gamma28") || str_eq(t, "bt470m") || str_eq(t, "bt470bg")
    } else if which == 1 {
        str_eq(t, "bt709") || str_eq(t, "bt470m") || str_eq(t, "bt470bg") || str_eq(t, "smpte170m")
            || str_eq(t, "smpte240m")
    } else if which == 2 {
        str_eq(t, "bt709") || str_eq(t, "bt470bg") || str_eq(t, "smpte170m") || str_eq(
            t,
            "smpte240m",
        ) || str_eq(t, "fcc")
    } else {
        str_eq(t, "tv") || str_eq(t, "pc")
    };
    if ok {
        1
    } else {
        2
    }
}

fn color_error(label: &str) -> (e: GoopError)
    ensures
        is_invalid_with(e, color_refusal(label@)),
{
    let mut m = owned("Unsupported or malformed color ");
    push_str(&mut m, label);
    push_str(&mut m, "; HDR and wide-gamut custom encoding are unavailable");
    invalid_owned(m)
}

/// Admits a source for custom encoding at upright size `w`×`h`.
pub fn encode_source(video: &VideoStreamInfo, w: u32, h: u32) -> (r: Result<Vec<String>, GoopError>)
    ensures
        match spec_encode_source(*video, w, h) {
            Ok(n) => (r matches Ok(v) && views(v@) == n),
            Err(m) => (r matches Err(e) && is_invalid_with(e, m)),
        },
{
    if !opt_str_is(&video.field_order, "progressive") {
        return Err(
            invalid(
                "Custom encode requires explicitly progressive video; field order is interlaced or unknown",
            ),
        );
    }
    if !opt_str_is(&video.pixel_format, "yuv420p") {
        return Err(
            invalid(
                "Custom encode supports 8-bit yuv420p video only; high bit depth, alpha and other pixel layouts are unavailable",
            ),
        );
    }
    if !opt_str_is(&video.sample_aspect_ratio, "1:1") {
        return Err(invalid("Custom encode requires verified square pixels (sample aspect ratio 1:1)"));
    }
    if w % 2 != 0 || h % 2 != 0 {
        return Err(invalid("Custom encode requires even upright dimensions"));
    }
    let t = classify_tag(&video.color_transfer, 0);
    if t == 2 {
        return Err(color_error("transfer"));
    }
    let p = classify_tag(&video.color_primaries, 1);
    if p == 2 {
        return Err(color_error("primaries"));
    }
    let m = classify_tag(&video.color_space, 2);
    if m == 2 {
        return Err(color_error("matrix"));
    }
    let g = classify_tag(&video.color_range, 3);
    if g == 2 {
        return Err(color_error("range"));
    }
    let mut notices: Vec<String> = Vec::new();
    if t == 0 || p == 0 || m == 0 || g == 0 {
        notices.push(owned("Color tags are unspecified; no color correction is performed."));
        assert(views(notices@) =~= seq![unspecified_color_notice()]);
    } else {
        assert(views(notices@) =~= Seq::<Seq<char>>::empty());
    }
    Ok(notices)
}

// ---------------------------------------------------------------------------
// Audio copy admission
// ---------------------------------------------------------------------------

/// Audio codecs the Matroska muxer accepts by CodecID in explicit mode.
pub open spec fn spec_matroska_audio(c: Seq<char>) -> bool {
    c == "aac"@ || c == "mp3"@ || c == "mp2"@ || c == "ac3"@ || c == "eac3"@ || c == "alac"@ || c
        == "flac"@ || c == "opus"@ || c == "vorbis"@ || c == "dts"@ || c == "truehd"@ || c
        == "pcm_s16le"@ || c == "pcm_s24le"@ || c == "pcm_s32le"@ || c == "pcm_f32le"@ || c
        == "pcm_f64le"@
}

/// Whether an audio stream of codec `c` may be stream-copied into `t`.
pub open spec fn spec_audio_copyable(t: TargetFormat, c: Seq<char>) -> bool {
    if t is Mkv {
        spec_matroska_audio(c)
    } else {
        match spec_copyable_audio_codecs(t) {
            Some(allowed) => allowed.contains(c),
            None => false,
        }
    }
}

/// Whether an audio stream of `codec` may be stream-copied into `target`.
pub fn audio_copyable(target: TargetFormat, codec: &str) -> (r: bool)
    ensures
        r == spec_audio_copyable(target, codec@),
{
    if target == TargetFormat::Mkv {
        return str_eq(codec, "aac") || str_eq(codec, "mp3") || str_eq(codec, "mp2") || str_eq(
            codec,
            "ac3",
        ) || str_eq(codec, "eac3") || str_eq(codec, "alac") || str_eq(codec, "flac") || str_eq(
            codec,
            "opus",
        ) || str_eq(codec, "vorbis") || str_eq(codec, "dts") || str_eq(codec, "truehd") || str_eq(
            codec,
            "pcm_s16le",
        ) || str_eq(codec, "pcm_s24le") || str_eq(codec, "pcm_s32le") || str_eq(
            codec,
            "pcm_f32le",
        ) || str_eq(codec, "pcm_f64le");
    }
    match copyable_audio_codecs(target) {
        None => false,
        Some(allowed) => {
            let mut i: usize = 0;
            while i < allowed.len()
                invariant
                    i <= allowed@.len(),
                    target != TargetFormat::Mkv,
                    spec_copyable_audio_codecs(target) == Some(str_views(allowed@)),
                    forall|j: int| 0 <= j < i ==> #[trigger] str_views(allowed@)[j] != codec@,
                decreases allowed@.len() - i,
            {
                if str_eq(allowed[i], codec) {
                    assert(str_views(allowed@)[i as int] == codec@);
                    assert(str_views(allowed@).contains(codec@));
                    assert(spec_copyable_audio_codecs(target) == Some(str_views(allowed@)));
                    return true;
                }
                i = i + 1;
            }
            proof {
                if str_views(allowed@).contains(codec@) {
                    let k = choose|k: int|
                        0 <= k < str_views(allowed@).len() && str_views(allowed@)[k] == codec@;
                    assert(str_views(allowed@)[k] != codec@);
                }
            }
            false
        },
    }
}

// ---------------------------------------------------------------------------
// Options, encoders and the resolved plan
// ---------------------------------------------------------------------------

/// The video codec of an explicit conversion.
#[derive(Debug, Clone, Copy, PartialEq, Eq, Hash, Structural)]
pub enum VideoCodec {
    H264,
    Hevc,
}

/// The encoder speed preset.
#[derive(Debug, Clone, Copy, PartialEq, Eq, Hash, Structural)]
pub enum VideoSpeed {
    Fast,
    Medium,
    Slow,
}

/// How the encoder spends bits.
#[derive(Debug, Clone, Copy, PartialEq, Eq, Hash, Structural)]
pub enum VideoRateControl {
    ConstantQuality { crf: u32 },
    AverageBitrate { kbps: u32 },
}

/// Where encoding runs.
#[derive(Debug, Clone, Copy, PartialEq, Eq, Hash, Structural)]
pub enum VideoProcessor {
    Software,
}

/// Output geometry.
#[derive(Debug, Clone, Copy, PartialEq, Eq, Hash, Structural)]
pub enum VideoResize {
    Original,
    FitWithin { width: u32, height: u32 },
}

/// Output frame rate.
#[derive(Debug, Clone, Copy, PartialEq, Eq, Hash, Structural)]
pub enum VideoFrameRate {
    Preserve,
    Constant { numerator: u32, denominator: u32 },
}

/// Explicit video settings.
#[derive(Debug, Clone, Copy, PartialEq, Eq, Hash, Structural)]
pub enum VideoConvertOptions {
    Copy,
    Encode {
        codec: VideoCodec,
        rate_control: VideoRateControl,
        speed: VideoSpeed,
        processor: VideoProcessor,
        resize: Option<VideoResize>,
        frame_rate: Option<VideoFrameRate>,
    },
}

/// The legacy resolution cap of a request.
#[derive(Debug, Clone, Copy, PartialEq, Eq, Hash, Structural)]
pub enum ResolutionCap {
    Original,
    R2160p,
    R1440p,
    R1080p,
    R720p,
    R480p,
}

/// The encoders found in the bundled ffmpeg.
#[derive(Debug, Clone, PartialEq, Eq)]
pub struct DetectedEncoders {
    pub available: Vec<String>,
}

impl DetectedEncoders {
    /// Whether an encoder called `name` was found.
    pub fn is_available(&self, name: &str) -> (r: bool)
        ensures
            r == views(self.available@).contains(name@),
    {
        let mut i: usize = 0;
        while i < self.available.len()
            invariant
                i <= self.available@.len(),
                forall|j: int| 0 <= j < i ==> #[trigger] views(self.available@)[j] != name@,
            decreases self.available@.len() - i,
        {
            if str_eq(self.available[i].as_str(), name) {
                assert(views(self.available@)[i as int] == name@);
                return true;
            }
            i = i + 1;
        }
        proof {
            if views(self.available@).contains(name@) {
                let k = choose|k: int|
                    0 <= k < views(self.available@).len() && views(self.available@)[k] == name@;
                assert(views(self.available@)[k] != name@);
            }
        }
        false
    }
}

/// The independently resolved outcome of an explicit video conversion.
#[derive(Debug, Clone, PartialEq, Eq)]
pub struct VideoExecutionSummary {
    pub requested: VideoConvertOptions,
    pub encoder: Option<String>,
    pub video_codec: VideoCodec,
    pub video_stream_index: u32,
    pub audio_stream_index: Option<u32>,
    pub audio_codec: Option<String>,
    pub audio_copied: bool,
    pub width: u32,
    pub height: u32,
    pub requested_resize: Option<VideoResize>,
    pub requested_frame_rate: Option<VideoFrameRate>,
    pub source_average_frame_rate: Option<VideoRationalFact>,
    pub source_base_frame_rate: Option<VideoRationalFact>,
    pub source_time_base: Option<VideoRationalFact>,
    pub resolved_constant_frame_rate: Option<VideoRationalFact>,
    pub notices: Vec<String>,
}

/// Concrete ffmpeg arguments and the independently resolved stream outcomes.
#[derive(Debug, Clone, PartialEq, Eq)]
pub struct ResolvedVideoPlan {
    pub plan: Plan,
    pub summary: VideoExecutionSummary,
}

/// `prefix` followed by the decimal rendering of `n`.
pub fn with_decimal(prefix: &str, n: u64) -> (r: String)
    ensures
        r@ == prefix@ + decimal(n as nat),
{
    let mut s = owned(prefix);
    let d = decimal_string(n);
    push_str(&mut s, d.as_str());
    s
}

/// Appends an owned argument.
fn push_owned(args: &mut Vec<String>, s: String)
    ensures
        views(final(args)@) == views(old(args)@).push(s@),
{
    let ghost before = args@;
    args.push(s);
    proof {
        assert(views(args@) =~= views(before).push(s@));
    }
}

/// The encoder library for a codec.
pub open spec fn spec_encoder_name(c: VideoCodec) -> Seq<char> {
    match c {
        VideoCodec::H264 => "libx264"@,
        VideoCodec::Hevc => "libx265"@,
    }
}

/// The preset name for a speed.
pub open spec fn spec_speed_name(s: VideoSpeed) -> Seq<char> {
    match s {
        VideoSpeed::Fast => "fast"@,
        VideoSpeed::Medium => "medium"@,
        VideoSpeed::Slow => "slow"@,
    }
}

/// The rate-control arguments.
pub open spec fn spec_rate_args(r: VideoRateControl) -> Seq<Seq<char>> {
    match r {
        VideoRateControl::ConstantQuality { crf } => seq!["-crf"@, decimal(crf as nat)],
        VideoRateControl::AverageBitrate { kbps } => seq!["-b:v"@, decimal(kbps as nat) + "k"@],
    }
}

/// The width limit of a resolution cap, if it has one.
pub open spec fn spec_cap_width(cap: Option<ResolutionCap>) -> Option<u32> {
    match cap {
        Some(ResolutionCap::R1080p) => Some(1920u32),
        Some(ResolutionCap::R720p) => Some(1280u32),
        Some(ResolutionCap::R480p) => Some(854u32),
        _ => None,
    }
}

/// Output geometry and its filters: fit-within when resize is requested,
/// else the legacy width cap with ffmpeg's nearest even height.
pub open spec fn spec_geometry(
    resize: Option<VideoResize>,
    cap: Option<ResolutionCap>,
    w: u32,
    h: u32,
) -> Result<(Seq<Seq<char>>, u32, u32), Seq<char>> {
    match resize {
        Some(VideoResize::Original) => Ok((Seq::empty(), w, h)),
        Some(VideoResize::FitWithin { width: bw, height: bh }) => match spec_fit_within(
            w,
            h,
            bw,
            bh,
        ) {
            Err(m) => Err(m),
            Ok((nw, nh)) => Ok(
                (
                    seq![
                        "scale="@ + decimal(nw as nat) + ":"@ + decimal(nh as nat),
                        "setsar=1"@,
                    ],
                    nw,
                    nh,
                ),
            ),
        },
        None => match spec_cap_width(cap) {
            None => Ok((Seq::empty(), w, h)),
            Some(c) => {
                let out_w = if w <= c { w } else { c };
                let out_h = ((h as int) * (out_w as int) + (w as int)) / (2 * (w as int)) * 2;
                if out_h == 0 || out_h > h {
                    Err(
                        "Resolution cap cannot produce valid video geometry without enlargement"@,
                    )
                } else {
                    Ok(
                        (
                            seq![
                                "scale='trunc(min("@ + decimal(c as nat) + ",iw)/2)*2':-2"@,
                                "setsar=1"@,
                            ],
                            out_w,
                            out_h as u32,
                        ),
                    )
                }
            },
        },
    }
}

/// Frame-rate arguments and filters, refused when the source timing facts
/// cannot support them.
pub open spec fn spec_frame_rate_stage(
    fr: Option<VideoFrameRate>,
    v: VideoStreamInfo,
    a: Option<VideoStreamInfo>,
) -> Result<(Seq<Seq<char>>, Seq<Seq<char>>), Seq<char>> {
    match fr {
        None => Ok((Seq::empty(), Seq::empty())),
        Some(f) => match spec_source_timing_unavailable_reason(v, a) {
            Some(r) => Err(r),
            None => match f {
                VideoFrameRate::Preserve => Ok(
                    (
                        seq!["-fps_mode:v"@, "passthrough"@, "-enc_time_base:v"@, "demux"@],
                        Seq::empty(),
                    ),
                ),
                VideoFrameRate::Constant { numerator, denominator } => Ok(
                    (
                        seq!["-fps_mode:v"@, "passthrough"@, "-enc_time_base:v"@, "filter"@],
                        seq![
                            "fps=fps="@ + decimal(numerator as nat) + "/"@ + decimal(
                                denominator as nat,
                            ) + ":round=near"@,
                        ],
                    ),
                ),
            },
        },
    }
}

/// The video part of a plan: codec, encoder, arguments, filters, upright
/// output size and notices.
pub struct VideoStage {
    pub codec: VideoCodec,
    pub encoder: Option<Seq<char>>,
    pub args: Seq<Seq<char>>,
    pub filters: Seq<Seq<char>>,
    pub width: u32,
    pub height: u32,
    pub notices: Seq<Seq<char>>,
}

/// The notice attached to a stream copy.
pub open spec fn copy_notice() -> Seq<char> {
    "Video streams are copied without encoding. Container metadata and dynamic HDR side data are not guaranteed to be preserved."@
}

/// The video stage of a plan.
pub open spec fn spec_video_stage(
    opts: VideoConvertOptions,
    cap: Option<ResolutionCap>,
    v: VideoStreamInfo,
    a: Option<VideoStreamInfo>,
    w: u32,
    h: u32,
    enc: Seq<Seq<char>>,
) -> Result<VideoStage, Seq<char>> {
    match opts {
        VideoConvertOptions::Copy => {
            let name = opt_string(v.codec_name);
            if name == Some("h264"@) || name == Some("hevc"@) {
                Ok(
                    VideoStage {
                        codec: if name == Some("h264"@) { VideoCodec::H264 } else { VideoCodec::Hevc },
                        encoder: None,
                        args: seq!["-c:v"@, "copy"@],
                        filters: Seq::empty(),
                        width: w,
                        height: h,
                        notices: seq![copy_notice()],
                    },
                )
            } else {
                Err("Copy streams currently requires H.264 or HEVC video"@)
            }
        },
        VideoConvertOptions::Encode { codec, rate_control, speed, processor, resize, frame_rate } => {
            match spec_encode_source(v, w, h) {
                Err(m) => Err(m),
                Ok(notices) => {
                    let name = spec_encoder_name(codec);
                    if !enc.contains(name) {
                        Err(
                            "Required software encoder "@ + name
                                + " is unavailable; bundled encoder discovery may have failed"@,
                        )
                    } else {
                        let args = seq![
                            "-c:v"@,
                            name,
                            "-preset"@,
                            spec_speed_name(speed),
                            "-pix_fmt"@,
                            "yuv420p"@,
                        ] + spec_rate_args(rate_control);
                        match spec_geometry(resize, cap, w, h) {
                            Err(m) => Err(m),
                            Ok((gf, nw, nh)) => match spec_frame_rate_stage(frame_rate, v, a) {
                                Err(m) => Err(m),
                                Ok((fa, ff)) => Ok(
                                    VideoStage {
                                        codec,
                                        encoder: Some(name),
                                        args: args + fa,
                                        filters: gf + ff,
                                        width: nw,
                                        height: nh,
                                        notices,
                                    },
                                ),
                            },
                        }
                    }
                },
            }
        },
    }
}

/// Output geometry and its filters.
fn geometry(resize: Option<VideoResize>, cap: Option<ResolutionCap>, w: u32, h: u32) -> (r: Result<
    (Vec<String>, u32, u32),
    GoopError,
>)
    requires
        w > 0,
        h > 0,
    ensures
        match spec_geometry(resize, cap, w, h) {
            Ok((f, nw, nh)) => (r matches Ok((v, x, y)) && views(v@) == f && x == nw && y == nh),
            Err(m) => (r matches Err(e) && is_invalid_with(e, m)),
        },
{
    let mut filters: Vec<String> = Vec::new();
    match resize {
        Some(VideoResize::Original) => {
            assert(views(filters@) =~= Seq::<Seq<char>>::empty());
            Ok((filters, w, h))
        },
        Some(VideoResize::FitWithin { width: bw, height: bh }) => {
            let (nw, nh) = fit_within(w, h, bw, bh)?;
            let mut f = with_decimal("scale=", nw as u64);
            push_str(&mut f, ":");
            let d = decimal_string(nh as u64);
            push_str(&mut f, d.as_str());
            push_owned(&mut filters, f);
            push_arg(&mut filters, "setsar=1");
            assert(views(filters@) =~= seq![
                "scale="@ + decimal(nw as nat) + ":"@ + decimal(nh as nat),
                "setsar=1"@,
            ]);
            Ok((filters, nw, nh))
        },
        None => {
            let c: u32 = match cap {
                Some(ResolutionCap::R1080p) => 1920,
                Some(ResolutionCap::R720p) => 1280,
                Some(ResolutionCap::R480p) => 854,
                _ => {
                    assert(views(filters@) =~= Seq::<Seq<char>>::empty());
                    return Ok((filters, w, h));
                },
            };
            let out_w = if w <= c {
                w
            } else {
                c
            };
            assert((h as u64) * (out_w as u64) <= u32::MAX * u32::MAX) by (nonlinear_arith)
                requires h <= u32::MAX, out_w <= u32::MAX;
            let num: u64 = (h as u64) * (out_w as u64) + (w as u64);
            let q: u64 = num / (2 * (w as u64));
            assert(q <= h) by (nonlinear_arith)
                requires
                    q as int == (num as int) / (2 * (w as int)),
                    num as int == (h as int) * (out_w as int) + (w as int),
                    out_w <= w,
                    w > 0,
                    h > 0,
            ;
            let out_h: u64 = q * 2;
            if out_h == 0 || out_h > h as u64 {
                return Err(
                    invalid("Resolution cap cannot produce valid video geometry without enlargement"),
                );
            }
            let mut f = with_decimal("scale='trunc(min(", c as u64);
            push_str(&mut f, ",iw)/2)*2':-2");
            push_owned(&mut filters, f);
            push_arg(&mut filters, "setsar=1");
            assert(views(filters@) =~= seq![
                "scale='trunc(min("@ + decimal(c as nat) + ",iw)/2)*2':-2"@,
                "setsar=1"@,
            ]);
            Ok((filters, out_w, out_h as u32))
        },
    }
}

/// Frame-rate arguments and filters.
fn frame_rate_stage(
    fr: Option<VideoFrameRate>,
    video: &VideoStreamInfo,
    audio: Option<&VideoStreamInfo>,
) -> (r: Result<(Vec<String>, Vec<String>), GoopError>)
    ensures
        match spec_frame_rate_stage(
            fr,
            *video,
            match audio {
                Some(x) => Some(*x),
                None => None,
            },
        ) {
            Ok((a, f)) => (r matches Ok((x, y)) && views(x@) == a && views(y@) == f),
            Err(m) => (r matches Err(e) && is_invalid_with(e, m)),
        },
{
    let mut args: Vec<String> = Vec::new();
    let mut filters: Vec<String> = Vec::new();
    let f = match fr {
        None => {
            assert(views(args@) =~= Seq::<Seq<char>>::empty());
            assert(views(filters@) =~= Seq::<Seq<char>>::empty());
            return Ok((args, filters));
        },
        Some(f) => f,
    };
    if let Some(reason) = source_timing_unavailable_reason(video, audio) {
        return Err(invalid_owned(reason));
    }
    push_arg(&mut args, "-fps_mode:v");
    push_arg(&mut args, "passthrough");
    push_arg(&mut args, "-enc_time_base:v");
    match f {
        VideoFrameRate::Preserve => {
            push_arg(&mut args, "demux");
            assert(views(args@) =~= seq!["-fps_mode:v"@, "passthrough"@, "-enc_time_base:v"@, "demux"@]);
            assert(views(filters@) =~= Seq::<Seq<char>>::empty());
        },
        VideoFrameRate::Constant { numerator, denominator } => {
            push_arg(&mut args, "filter");
            let mut s = with_decimal("fps=fps=", numerator as u64);
            push_str(&mut s, "/");
            let d = decimal_string(denominator as u64);
            push_str(&mut s, d.as_str());
            push_str(&mut s, ":round=near");
            push_owned(&mut filters, s);
            assert(views(args@) =~= seq!["-fps_mode:v"@, "passthrough"@, "-enc_time_base:v"@, "filter"@]);
            assert(views(filters@) =~= seq![
                "fps=fps="@ + decimal(numerator as nat) + "/"@ + decimal(denominator as nat)
                    + ":round=near"@,
            ]);
        },
    }
    Ok((args, filters))
}

/// Appends every string of `b` to `a`.
pub fn append_all(a: &mut Vec<String>, b: &Vec<String>)
    ensures
        views(final(a)@) == views(old(a)@) + views(b@),
{
    let ghost start = views(a@);
    let mut i: usize = 0;
    while i < b.len()
        invariant
            i <= b@.len(),
            views(a@) == start + views(b@).take(i as int),
        decreases b@.len() - i,
    {
        let ghost before = a@;
        a.push(b[i].clone());
        proof {
            assert(views(a@) =~= views(before).push(b@[i as int]@));
            assert(views(b@).take(i + 1) =~= views(b@).take(i as int).push(b@[i as int]@));
        }
        i = i + 1;
    }
    assert(views(b@).take(b@.len() as int) =~= views(b@));
}

/// The video stage of a plan, computed.
fn video_stage(
    opts: VideoConvertOptions,
    cap: Option<ResolutionCap>,
    video: &VideoStreamInfo,
    audio: Option<&VideoStreamInfo>,
    w: u32,
    h: u32,
    encoders: &DetectedEncoders,
) -> (r: Result<(VideoCodec, Option<String>, Vec<String>, Vec<String>, u32, u32, Vec<String>), GoopError>)
    requires
        w > 0,
        h > 0,
    ensures
        match spec_video_stage(
            opts,
            cap,
            *video,
            match audio {
                Some(x) => Some(*x),
                None => None,
            },
            w,
            h,
            views(encoders.available@),
        ) {
            Ok(st) => (r matches Ok((c, e, a, f, x, y, n)) && c == st.codec && opt_string(e)
                == st.encoder && views(a@) == st.args && views(f@) == st.filters && x == st.width
                && y == st.height && views(n@) == st.notices),
            Err(m) => (r matches Err(e) && is_invalid_with(e, m)),
        },
{
    match opts {
        VideoConvertOptions::Copy => {
            let codec = if opt_str_is(&video.codec_name, "h264") {
                VideoCodec::H264
            } else if opt_str_is(&video.codec_name, "hevc") {
                VideoCodec::Hevc
            } else {
                return Err(invalid("Copy streams currently requires H.264 or HEVC video"));
            };
            let mut args: Vec<String> = Vec::new();
            push_arg(&mut args, "-c:v");
            push_arg(&mut args, "copy");
            let mut notices: Vec<String> = Vec::new();
            push_arg(
                &mut notices,
                "Video streams are copied without encoding. Container metadata and dynamic HDR side data are not guaranteed to be preserved.",
            );
            let filters: Vec<String> = Vec::new();
            assert(views(args@) =~= seq!["-c:v"@, "copy"@]);
            assert(views(notices@) =~= seq![copy_notice()]);
            assert(views(filters@) =~= Seq::<Seq<char>>::empty());
            Ok((codec, None, args, filters, w, h, notices))
        },
        VideoConvertOptions::Encode { codec, rate_control, speed, processor, resize, frame_rate } => {
            let notices = encode_source(video, w, h)?;
            let name = match codec {
                VideoCodec::H264 => "libx264",
                VideoCodec::Hevc => "libx265",
            };
            if !encoders.is_available(name) {
                let mut m = owned("Required software encoder ");
                push_str(&mut m, name);
                push_str(&mut m, " is unavailable; bundled encoder discovery may have failed");
                return Err(invalid_owned(m));
            }
            let mut args: Vec<String> = Vec::new();
            push_arg(&mut args, "-c:v");
            push_arg(&mut args, name);
            push_arg(&mut args, "-preset");
            push_arg(
                &mut args,
                match speed {
                    VideoSpeed::Fast => "fast",
                    VideoSpeed::Medium => "medium",
                    VideoSpeed::Slow => "slow",
                },
            );
            push_arg(&mut args, "-pix_fmt");
            push_arg(&mut args, "yuv420p");
            match rate_control {
                VideoRateControl::ConstantQuality { crf } => {
                    push_arg(&mut args, "-crf");
                    push_owned(&mut args, decimal_string(crf as u64));
                },
                VideoRateControl::AverageBitrate { kbps } => {
                    push_arg(&mut args, "-b:v");
                    let mut b = decimal_string(kbps as u64);
                    push_str(&mut b, "k");
                    push_owned(&mut args, b);
                },
            }
            assert(views(args@) =~= seq![
                "-c:v"@,
                name@,
                "-preset"@,
                spec_speed_name(speed),
                "-pix_fmt"@,
                "yuv420p"@,
            ] + spec_rate_args(rate_control));
            let (mut filters, nw, nh) = geometry(resize, cap, w, h)?;
            let (fa, ff) = frame_rate_stage(frame_rate, video, audio)?;
            append_all(&mut args, &fa);
            append_all(&mut filters, &ff);
            Ok((codec, Some(owned(name)), args, filters, nw, nh, notices))
        },
    }
}

/// The audio part of a plan: arguments, output codec, whether it is a
/// copy, and the notices it adds.
pub open spec fn spec_audio_stage(
    opts: VideoConvertOptions,
    target: TargetFormat,
    a: Option<VideoStreamInfo>,
    enc: Seq<Seq<char>>,
) -> Result<(Seq<Seq<char>>, Option<Seq<char>>, bool, Seq<Seq<char>>), Seq<char>> {
    match a {
        None => Ok((Seq::empty(), None, false, Seq::empty())),
        Some(x) => {
            let c = opt_string(x.codec_name);
            let cs = match c {
                Some(t) => t,
                None => Seq::empty(),
            };
            if spec_audio_copyable(target, cs) {
                Ok((seq!["-c:a"@, "copy"@], c, true, Seq::empty()))
            } else if opts is Copy {
                Err(
                    "Copy streams cannot copy "@ + (match c {
                        Some(t) => t,
                        None => "unknown"@,
                    }) + " audio into "@ + spec_extension(target)
                        + "; choose Custom encode for AAC audio"@,
                )
            } else if !enc.contains("aac"@) {
                Err("Required audio fallback encoder aac is unavailable"@)
            } else {
                Ok(
                    (
                        seq!["-c:a"@, "aac"@, "-b:a"@, "192k"@],
                        Some("aac"@),
                        false,
                        seq![aac_notice()],
                    ),
                )
            }
        },
    }
}

/// The notice attached when audio is re-encoded.
pub open spec fn aac_notice() -> Seq<char> {
    "Incompatible audio is encoded as AAC at 192 kbps independently of video settings."@
}

/// The audio part of a plan, computed.
fn audio_stage(
    opts: VideoConvertOptions,
    target: TargetFormat,
    audio: Option<&VideoStreamInfo>,
    encoders: &DetectedEncoders,
) -> (r: Result<(Vec<String>, Option<String>, bool, Vec<String>), GoopError>)
    ensures
        match spec_audio_stage(
            opts,
            target,
            match audio {
                Some(x) => Some(*x),
                None => None,
            },
            views(encoders.available@),
        ) {
            Ok((a, c, k, n)) => (r matches Ok((x, y, z, w)) && views(x@) == a && opt_string(y) == c
                && z == k && views(w@) == n),
            Err(m) => (r matches Err(e) && is_invalid_with(e, m)),
        },
{
    let mut args: Vec<String> = Vec::new();
    let mut notices: Vec<String> = Vec::new();
    let x = match audio {
        None => {
            assert(views(args@) =~= Seq::<Seq<char>>::empty());
            assert(views(notices@) =~= Seq::<Seq<char>>::empty());
            return Ok((args, None, false, notices));
        },
        Some(x) => x,
    };
    let copyable = match &x.codec_name {
        Some(c) => audio_copyable(target, c.as_str()),
        None => {
            proof {
                reveal_strlit("");
            }
            assert(""@ =~= Seq::<char>::empty());
            audio_copyable(target, "")
        },
    };
    if copyable {
        push_arg(&mut args, "-c:a");
        push_arg(&mut args, "copy");
        assert(views(args@) =~= seq!["-c:a"@, "copy"@]);
        assert(views(notices@) =~= Seq::<Seq<char>>::empty());
        let kept: Option<String> = match &x.codec_name {
            Some(c) => Some(c.clone()),
            None => None,
        };
        return Ok((args, kept, true, notices));
    }
    if let VideoConvertOptions::Copy = opts {
        let mut m = owned("Copy streams cannot copy ");
        match &x.codec_name {
            Some(c) => push_str(&mut m, c.as_str()),
            None => push_str(&mut m, "unknown"),
        }
        push_str(&mut m, " audio into ");
        push_str(&mut m, target.extension_str());
        push_str(&mut m, "; choose Custom encode for AAC audio");
        return Err(invalid_owned(m));
    }
    if !encoders.is_available("aac") {
        return Err(invalid("Required audio fallback encoder aac is unavailable"));
    }
    push_arg(&mut args, "-c:a");
    push_arg(&mut args, "aac");
    push_arg(&mut args, "-b:a");
    push_arg(&mut args, "192k");
    push_arg(
        &mut notices,
        "Incompatible audio is encoded as AAC at 192 kbps independently of video settings.",
    );
    assert(views(args@) =~= seq!["-c:a"@, "aac"@, "-b:a"@, "192k"@]);
    assert(views(notices@) =~= seq![aac_notice()]);
    Ok((args, Some(owned("aac")), false, notices))
}


// ---------------------------------------------------------------------------
// The resolver
// ---------------------------------------------------------------------------

/// The fields of a conversion request that explicit video settings read.
#[derive(Debug, Clone, Copy, PartialEq, Eq, Structural)]
pub struct VideoConvertRequest {
    pub target: TargetFormat,
    pub resolution_cap: Option<ResolutionCap>,
    pub video_options: Option<VideoConvertOptions>,
}

/// A resolved plan as values: the ffmpeg plan and the stream outcomes.
pub struct ResolvedVideoView {
    pub args: Seq<Seq<char>>,
    pub filters: Seq<Seq<char>>,
    pub reencoded: bool,
    pub ext: Seq<char>,
    pub requested: VideoConvertOptions,
    pub encoder: Option<Seq<char>>,
    pub video_codec: VideoCodec,
    pub video_stream_index: u32,
    pub audio_stream_index: Option<u32>,
    pub audio_codec: Option<Seq<char>>,
    pub audio_copied: bool,
    pub width: u32,
    pub height: u32,
    pub requested_resize: Option<VideoResize>,
    pub requested_frame_rate: Option<VideoFrameRate>,
    pub source_average_frame_rate: Option<VideoRationalFact>,
    pub source_base_frame_rate: Option<VideoRationalFact>,
    pub source_time_base: Option<VideoRationalFact>,
    pub resolved_constant_frame_rate: Option<VideoRationalFact>,
    pub notices: Seq<Seq<char>>,
}

impl View for ResolvedVideoPlan {
    type V = ResolvedVideoView;

    open spec fn view(&self) -> ResolvedVideoView {
        ResolvedVideoView {
            args: views(self.plan.args@),
            filters: views(self.plan.video_filters@),
            reencoded: self.plan.reencoded,
            ext: self.plan.ext@,
            requested: self.summary.requested,
            encoder: opt_string(self.summary.encoder),
            video_codec: self.summary.video_codec,
            video_stream_index: self.summary.video_stream_index,
            audio_stream_index: self.summary.audio_stream_index,
            audio_codec: opt_string(self.summary.audio_codec),
            audio_copied: self.summary.audio_copied,
            width: self.summary.width,
            height: self.summary.height,
            requested_resize: self.summary.requested_resize,
            requested_frame_rate: self.summary.requested_frame_rate,
            source_average_frame_rate: self.summary.source_average_frame_rate,
            source_base_frame_rate: self.summary.source_base_frame_rate,
            source_time_base: self.summary.source_time_base,
            resolved_constant_frame_rate: self.summary.resolved_constant_frame_rate,
            notices: views(self.summary.notices@),
        }
    }
}

/// The resize an explicit request asked for.
pub open spec fn requested_resize_of(opts: VideoConvertOptions) -> Option<VideoResize> {
    match opts {
        VideoConvertOptions::Encode { resize, .. } => resize,
        VideoConvertOptions::Copy => None,
    }
}

/// The frame rate an explicit request asked for.
pub open spec fn requested_frame_rate_of(opts: VideoConvertOptions) -> Option<VideoFrameRate> {
    match opts {
        VideoConvertOptions::Encode { frame_rate, .. } => frame_rate,
        VideoConvertOptions::Copy => None,
    }
}

/// The exact output rate of a constant frame-rate request.
pub open spec fn constant_rate_of(opts: VideoConvertOptions) -> Option<VideoRationalFact> {
    match opts {
        VideoConvertOptions::Encode {
            frame_rate: Some(VideoFrameRate::Constant { numerator, denominator }),
            ..
        } => Some(VideoRationalFact::Exact { numerator, denominator }),
        _ => None,
    }
}

/// The `-map` arguments selecting the video and the optional audio stream.
pub open spec fn spec_map_args(v: VideoStreamInfo, a: Option<VideoStreamInfo>) -> Seq<Seq<char>> {
    seq!["-map"@, "0:"@ + decimal(v.index as nat)] + match a {
        Some(x) => seq!["-map"@, "0:"@ + decimal(x.index as nat)],
        None => Seq::empty(),
    }
}

/// The `hvc1` tag that MP4 and MOV need for HEVC video.
pub open spec fn spec_hvc1_tag(codec: VideoCodec, target: TargetFormat) -> Seq<Seq<char>> {
    if codec == VideoCodec::Hevc && (target == TargetFormat::Mp4 || target == TargetFormat::Mov) {
        seq!["-tag:v"@, "hvc1"@]
    } else {
        Seq::empty()
    }
}

/// The stream at an optional position.
pub open spec fn stream_at(s: Seq<VideoStreamInfo>, k: Option<int>) -> Option<VideoStreamInfo> {
    match k {
        Some(i) => Some(s[i]),
        None => None,
    }
}

/// The plan that explicit video settings resolve to, or the reason the
/// request is refused. With `aux`, auxiliary audio and subtitle streams are
/// left to a separate stream policy.
pub open spec fn spec_resolve(
    req: VideoConvertRequest,
    probe: ProbeResult,
    enc: Seq<Seq<char>>,
    aux: bool,
) -> Result<ResolvedVideoView, Seq<char>> {
    match req.video_options {
        None => Err("Explicit video settings are required"@),
        Some(opts) => match spec_streams_for_mode(probe, aux) {
            Err(m) => Err(m),
            Ok((vi, ai)) => {
                let streams = probe.video_details->0.streams@;
                let v = streams[vi];
                let a = stream_at(streams, ai);
                match spec_dimensions(probe, v.rotation_degrees) {
                    Err(m) => Err(m),
                    Ok((w, h)) => if probe.duration_ms == 0 || probe.file_size == 0 {
                        Err("Video requires a usable duration and nonempty source data"@)
                    } else {
                        match spec_video_stage(opts, req.resolution_cap, v, a, w, h, enc) {
                            Err(m) => Err(m),
                            Ok(st) => match spec_audio_stage(opts, req.target, a, enc) {
                                Err(m) => Err(m),
                                Ok((aa, ac, copied, an)) => Ok(
                                    ResolvedVideoView {
                                        args: spec_map_args(v, a) + st.args + spec_hvc1_tag(
                                            st.codec,
                                            req.target,
                                        ) + aa,
                                        filters: st.filters,
                                        reencoded: st.encoder is Some,
                                        ext: spec_extension(req.target),
                                        requested: opts,
                                        encoder: st.encoder,
                                        video_codec: st.codec,
                                        video_stream_index: v.index,
                                        audio_stream_index: match a {
                                            Some(x) => Some(x.index),
                                            None => None,
                                        },
                                        audio_codec: ac,
                                        audio_copied: copied,
                                        width: st.width,
                                        height: st.height,
                                        requested_resize: requested_resize_of(opts),
                                        requested_frame_rate: requested_frame_rate_of(opts),
                                        source_average_frame_rate: v.average_frame_rate,
                                        source_base_frame_rate: v.base_frame_rate,
                                        source_time_base: v.time_base,
                                        resolved_constant_frame_rate: constant_rate_of(opts),
                                        notices: st.notices + an,
                                    },
                                ),
                            },
                        }
                    },
                }
            },
        },
    }
}

/// An average bitrate reaches ffmpeg in kilobits per second: whenever
/// explicit settings that encode at `kbps` resolve to a plan, the plan's
/// arguments hold `-b:v` followed at once by the decimal of `kbps` with the
/// suffix `k`.
pub proof fn lemma_average_bitrate_in_kilobits(
    req: VideoConvertRequest,
    probe: ProbeResult,
    enc: Seq<Seq<char>>,
    aux: bool,
    kbps: u32,
)
    requires
        req.video_options matches Some(VideoConvertOptions::Encode { rate_control, .. })
            && rate_control == (VideoRateControl::AverageBitrate { kbps }),
        spec_resolve(req, probe, enc, aux) is Ok,
    ensures
        exists|i: int|
            0 <= i && i + 1 < spec_resolve(req, probe, enc, aux)->Ok_0.args.len()
                && #[trigger] spec_resolve(req, probe, enc, aux)->Ok_0.args[i] == "-b:v"@
                && spec_resolve(req, probe, enc, aux)->Ok_0.args[i + 1] == decimal(kbps as nat)
                + "k"@,
{
    lemma_video_settings_reach_ffmpeg(req, probe, enc, aux);
    let args = spec_resolve(req, probe, enc, aux)->Ok_0.args;
    let i = choose|i: int| video_settings_at(args, i, req.video_options->Some_0);
    assert(args[i + 6] == "-b:v"@);
}

/// Whether `args` hold, from position `i`, what ffmpeg reads for the video
/// settings `opts`: `-c:v copy` for a stream copy; for an encode, the codec
/// library (`libx264` for H.264, `libx265` for HEVC), the preset named after
/// the speed, the `yuv420p` pixel format, and the rate control (`-crf` with
/// the quality, or `-b:v` with the bitrate in kilobits per second).
pub open spec fn video_settings_at(args: Seq<Seq<char>>, i: int, opts: VideoConvertOptions) -> bool {
    match opts {
        VideoConvertOptions::Copy => {
            &&& 0 <= i && i + 2 <= args.len()
            &&& args[i] == "-c:v"@
            &&& args[i + 1] == "copy"@
        },
        VideoConvertOptions::Encode { codec, rate_control, speed, .. } => {
            &&& 0 <= i && i + 8 <= args.len()
            &&& args[i] == "-c:v"@
            &&& args[i + 1] == match codec {
                VideoCodec::H264 => "libx264"@,
                VideoCodec::Hevc => "libx265"@,
            }
            &&& args[i + 2] == "-preset"@
            &&& args[i + 3] == match speed {
                VideoSpeed::Fast => "fast"@,
                VideoSpeed::Medium => "medium"@,
                VideoSpeed::Slow => "slow"@,
            }
            &&& args[i + 4] == "-pix_fmt"@
            &&& args[i + 5] == "yuv420p"@
            &&& match rate_control {
                VideoRateControl::ConstantQuality { crf } => args[i + 6] == "-crf"@ && args[i
                    + 7] == decimal(crf as nat),
                VideoRateControl::AverageBitrate { kbps } => args[i + 6] == "-b:v"@ && args[i
                    + 7] == decimal(kbps as nat) + "k"@,
            }
        },
    }
}

/// Every plan that explicit video settings resolve to passes those settings
/// on to ffmpeg: its arguments hold them in order (see
/// `video_settings_at`), the plan re-encodes exactly when the settings ask
/// for an encode, an encode reports the requested codec and its encoder
/// library while a copy reports no encoder, and HEVC video written to MP4 or
/// MOV carries the `hvc1` tag.
pub proof fn lemma_video_settings_reach_ffmpeg(
    req: VideoConvertRequest,
    probe: ProbeResult,
    enc: Seq<Seq<char>>,
    aux: bool,
)
    requires
        spec_resolve(req, probe, enc, aux) is Ok,
    ensures
        exists|i: int|
            video_settings_at(
                spec_resolve(req, probe, enc, aux)->Ok_0.args,
                i,
                req.video_options->Some_0,
            ),
        spec_resolve(req, probe, enc, aux)->Ok_0.reencoded <==> req.video_options->Some_0 is Encode,
        req.video_options->Some_0 matches VideoConvertOptions::Encode { codec, .. } ==> {
            &&& spec_resolve(req, probe, enc, aux)->Ok_0.video_codec == codec
            &&& spec_resolve(req, probe, enc, aux)->Ok_0.encoder == Some(
                match codec {
                    VideoCodec::H264 => "libx264"@,
                    VideoCodec::Hevc => "libx265"@,
                },
            )
        },
        req.video_options->Some_0 is Copy ==> spec_resolve(req, probe, enc, aux)->Ok_0.encoder
            is None,
        (spec_resolve(req, probe, enc, aux)->Ok_0.video_codec == VideoCodec::Hevc && (req.target
            == TargetFormat::Mp4 || req.target == TargetFormat::Mov)) ==> exists|j: int|
            0 <= j && j + 1 < spec_resolve(req, probe, enc, aux)->Ok_0.args.len()
                && #[trigger] spec_resolve(req, probe, enc, aux)->Ok_0.args[j] == "-tag:v"@
                && spec_resolve(req, probe, enc, aux)->Ok_0.args[j + 1] == "hvc1"@,
{
    let opts = req.video_options->Some_0;
    let (vi, ai) = spec_streams_for_mode(probe, aux)->Ok_0;
    let streams = probe.video_details->0.streams@;
    let v = streams[vi];
    let a = stream_at(streams, ai);
    let (w, h) = spec_dimensions(probe, v.rotation_degrees)->Ok_0;
    let st = spec_video_stage(opts, req.resolution_cap, v, a, w, h, enc)->Ok_0;
    let aa = spec_audio_stage(opts, req.target, a, enc)->Ok_0.0;
    let p = spec_resolve(req, probe, enc, aux)->Ok_0;
    let m = spec_map_args(v, a);
    let tag = spec_hvc1_tag(st.codec, req.target);
    assert(p.args == m + st.args + tag + aa);
    let i: int = m.len() as int;
    match opts {
        VideoConvertOptions::Copy => {
            assert(video_settings_at(p.args, i, opts));
        },
        VideoConvertOptions::Encode { codec, rate_control, speed, frame_rate, .. } => {
            let fa = spec_frame_rate_stage(frame_rate, v, a)->Ok_0.0;
            let head = seq![
                "-c:v"@,
                spec_encoder_name(codec),
                "-preset"@,
                spec_speed_name(speed),
                "-pix_fmt"@,
                "yuv420p"@,
            ];
            assert(st.args == head + spec_rate_args(rate_control) + fa);
            assert(video_settings_at(p.args, i, opts));
        },
    }
    if st.codec == VideoCodec::Hevc && (req.target == TargetFormat::Mp4 || req.target
        == TargetFormat::Mov) {
        let j: int = m.len() as int + st.args.len() as int;
        assert(p.args[j] == "-tag:v"@);
        assert(p.args[j + 1] == "hvc1"@);
    }
}

/// Whether `args` hold, from position `i`, the timing arguments of a frame
/// rate request: none without one; for `Preserve`, pass-through frames on
/// the demuxer's time base; for a constant rate, pass-through frames on the
/// filter's time base.
pub open spec fn frame_rate_settings_at(
    args: Seq<Seq<char>>,
    i: int,
    fr: Option<VideoFrameRate>,
) -> bool {
    match fr {
        None => true,
        Some(f) => {
            &&& 0 <= i && i + 4 <= args.len()
            &&& args[i] == "-fps_mode:v"@
            &&& args[i + 1] == "passthrough"@
            &&& args[i + 2] == "-enc_time_base:v"@
            &&& args[i + 3] == match f {
                VideoFrameRate::Preserve => "demux"@,
                VideoFrameRate::Constant { .. } => "filter"@,
            }
        },
    }
}

/// An encode's timing and scaling reach ffmpeg: right after the rate
/// control come the frame-rate arguments (see `frame_rate_settings_at`); a
/// constant frame rate ends the filters with `fps=fps=<n>/<d>:round=near`; a
/// fit-within resize opens them with `scale=<width>:<height>` at the plan's
/// output size and `setsar=1`; without a resize, a 1080p, 720p or 480p cap
/// opens them with an even-height scale to at most 1920, 1280 or 854 pixels
/// wide and `setsar=1`. A stream copy has no filters.
pub proof fn lemma_timing_and_scaling_reach_ffmpeg(
    req: VideoConvertRequest,
    probe: ProbeResult,
    enc: Seq<Seq<char>>,
    aux: bool,
)
    requires
        spec_resolve(req, probe, enc, aux) is Ok,
    ensures
        ({
            let p = spec_resolve(req, probe, enc, aux)->Ok_0;
            let opts = req.video_options->Some_0;
            &&& opts is Copy ==> p.filters.len() == 0
            &&& opts matches VideoConvertOptions::Encode { frame_rate, resize, .. } ==> {
                &&& exists|i: int|
                    video_settings_at(p.args, i, opts) && frame_rate_settings_at(
                        p.args,
                        i + 8,
                        frame_rate,
                    )
                &&& frame_rate matches Some(VideoFrameRate::Constant { numerator, denominator })
                    ==> p.filters.len() > 0 && p.filters.last() == "fps=fps="@ + decimal(
                    numerator as nat,
                ) + "/"@ + decimal(denominator as nat) + ":round=near"@
                &&& (resize matches Some(VideoResize::FitWithin { .. })) ==> p.filters.len() >= 2
                    && p.filters[0] == "scale="@ + decimal(p.width as nat) + ":"@ + decimal(
                    p.height as nat,
                ) && p.filters[1] == "setsar=1"@
                &&& (resize is None && (req.resolution_cap == Some(ResolutionCap::R1080p)
                    || req.resolution_cap == Some(ResolutionCap::R720p) || req.resolution_cap
                    == Some(ResolutionCap::R480p))) ==> p.filters.len() >= 2 && p.filters[0]
                    == "scale='trunc(min("@ + decimal(
                    if req.resolution_cap == Some(ResolutionCap::R1080p) {
                        1920nat
                    } else if req.resolution_cap == Some(ResolutionCap::R720p) {
                        1280nat
                    } else {
                        854nat
                    },
                ) + ",iw)/2)*2':-2"@ && p.filters[1] == "setsar=1"@
            }
        }),
{
    let opts = req.video_options->Some_0;
    let (vi, ai) = spec_streams_for_mode(probe, aux)->Ok_0;
    let streams = probe.video_details->0.streams@;
    let v = streams[vi];
    let a = stream_at(streams, ai);
    let (w, h) = spec_dimensions(probe, v.rotation_degrees)->Ok_0;
    let st = spec_video_stage(opts, req.resolution_cap, v, a, w, h, enc)->Ok_0;
    let aa = spec_audio_stage(opts, req.target, a, enc)->Ok_0.0;
    let p = spec_resolve(req, probe, enc, aux)->Ok_0;
    let m = spec_map_args(v, a);
    let tag = spec_hvc1_tag(st.codec, req.target);
    assert(p.args == m + st.args + tag + aa);
    let i: int = m.len() as int;
    match opts {
        VideoConvertOptions::Copy => {},
        VideoConvertOptions::Encode { codec, rate_control, speed, frame_rate, resize, .. } => {
            let (fa, ff) = spec_frame_rate_stage(frame_rate, v, a)->Ok_0;
            let (gf, nw, nh) = spec_geometry(resize, req.resolution_cap, w, h)->Ok_0;
            let head = seq![
                "-c:v"@,
                spec_encoder_name(codec),
                "-preset"@,
                spec_speed_name(speed),
                "-pix_fmt"@,
                "yuv420p"@,
            ];
            assert(st.args == head + spec_rate_args(rate_control) + fa);
            assert(st.filters == gf + ff);
            assert(video_settings_at(p.args, i, opts));
            assert(frame_rate_settings_at(p.args, i + 8, frame_rate));
        },
    }
}

/// Every resolved plan maps the chosen streams and ends with its audio
/// handling: the arguments open with `-map 0:<video index>` and, when an
/// audio stream is kept, `-map 0:<audio index>`; a copied audio stream ends
/// them with `-c:a copy`; any other kept audio stream is re-encoded, ending
/// them with `-c:a aac -b:a 192k` and reporting AAC as the audio codec.
pub proof fn lemma_streams_mapped_and_audio_handled(
    req: VideoConvertRequest,
    probe: ProbeResult,
    enc: Seq<Seq<char>>,
    aux: bool,
)
    requires
        spec_resolve(req, probe, enc, aux) is Ok,
    ensures
        ({
            let p = spec_resolve(req, probe, enc, aux)->Ok_0;
            let n = p.args.len();
            &&& n >= 2
            &&& p.args[0] == "-map"@
            &&& p.args[1] == "0:"@ + decimal(p.video_stream_index as nat)
            &&& p.audio_stream_index matches Some(ai) ==> n >= 4 && p.args[2] == "-map"@
                && p.args[3] == "0:"@ + decimal(ai as nat)
            &&& p.audio_copied ==> p.audio_stream_index is Some && n >= 2 && p.args[n - 2]
                == "-c:a"@ && p.args[n - 1] == "copy"@
            &&& (p.audio_stream_index is Some && !p.audio_copied) ==> n >= 4 && p.args[n - 4]
                == "-c:a"@ && p.args[n - 3] == "aac"@ && p.args[n - 2] == "-b:a"@ && p.args[n
                - 1] == "192k"@ && p.audio_codec == Some("aac"@)
        }),
{
    let opts = req.video_options->Some_0;
    let (vi, ai) = spec_streams_for_mode(probe, aux)->Ok_0;
    let streams = probe.video_details->0.streams@;
    let v = streams[vi];
    let a = stream_at(streams, ai);
    let (w, h) = spec_dimensions(probe, v.rotation_degrees)->Ok_0;
    let st = spec_video_stage(opts, req.resolution_cap, v, a, w, h, enc)->Ok_0;
    let aa = spec_audio_stage(opts, req.target, a, enc)->Ok_0.0;
    let p = spec_resolve(req, probe, enc, aux)->Ok_0;
    let m = spec_map_args(v, a);
    let rest = st.args + spec_hvc1_tag(st.codec, req.target);
    assert(p.args == m + rest + aa);
    assert(p.args == m + (rest + aa));
    assert(p.args == (m + rest) + aa);
}

/// Validates complete fresh source facts and the stream inventory, and
/// resolves explicit video settings to a plan.
pub fn resolve(req: &VideoConvertRequest, probe: &ProbeResult, encoders: &DetectedEncoders) -> (r:
    Result<ResolvedVideoPlan, GoopError>)
    ensures
        match spec_resolve(*req, *probe, views(encoders.available@), false) {
            Ok(v) => (r matches Ok(p) && p@ == v),
            Err(m) => (r matches Err(e) && is_invalid_with(e, m)),
        },
{
    resolve_inner(req, probe, encoders, false)
}

/// Resolves the primary video stream only; a multi-stream resolver owns
/// every auxiliary audio and subtitle stream.
pub fn resolve_without_auxiliary(
    req: &VideoConvertRequest,
    probe: &ProbeResult,
    encoders: &DetectedEncoders,
) -> (r: Result<ResolvedVideoPlan, GoopError>)
    ensures
        match spec_resolve(*req, *probe, views(encoders.available@), true) {
            Ok(v) => (r matches Ok(p) && p@ == v),
            Err(m) => (r matches Err(e) && is_invalid_with(e, m)),
        },
{
    resolve_inner(req, probe, encoders, true)
}

/// The resolver behind both entry points.
#[verifier::rlimit(50)]
pub fn resolve_inner(
    req: &VideoConvertRequest,
    probe: &ProbeResult,
    encoders: &DetectedEncoders,
    allow_auxiliary_streams: bool,
) -> (r: Result<ResolvedVideoPlan, GoopError>)
    ensures
        match spec_resolve(*req, *probe, views(encoders.available@), allow_auxiliary_streams) {
            Ok(v) => (r matches Ok(p) && p@ == v),
            Err(m) => (r matches Err(e) && is_invalid_with(e, m)),
        },
{
    let opts = match req.video_options {
        Some(o) => o,
        None => return Err(invalid("Explicit video settings are required")),
    };
    let (vi, ai) = match streams_for_mode(probe, allow_auxiliary_streams) {
        Ok(p) => p,
        Err(e) => return Err(e),
    };
    let streams = match &probe.video_details {
        Some(d) => &d.streams,
        None => {
            assert(false);
            return Err(invalid("Explicit video settings require a video source"));
        },
    };
    proof {
        lemma_pick_fold_bounds(streams@, allow_auxiliary_streams);
    }
    let video = &streams[vi];
    let audio: Option<&VideoStreamInfo> = match ai {
        Some(k) => Some(&streams[k]),
        None => None,
    };
    let ghost ga: Option<VideoStreamInfo> = stream_at(streams@, opt_pos(ai));
    assert(match audio {
        Some(x) => ga == Some(*x),
        None => ga is None,
    });
    let (w, h) = match dimensions(probe, video) {
        Ok(d) => d,
        Err(e) => return Err(e),
    };
    if probe.duration_ms == 0 || probe.file_size == 0 {
        return Err(invalid("Video requires a usable duration and nonempty source data"));
    }
    let (codec, encoder, vargs, filters, width, height, mut notices) = match video_stage(
        opts,
        req.resolution_cap,
        video,
        audio,
        w,
        h,
        encoders,
    ) {
        Ok(t) => t,
        Err(e) => return Err(e),
    };
    let mut args: Vec<String> = Vec::new();
    push_arg(&mut args, "-map");
    push_owned(&mut args, with_decimal("0:", video.index as u64));
    match audio {
        Some(a) => {
            push_arg(&mut args, "-map");
            push_owned(&mut args, with_decimal("0:", a.index as u64));
        },
        None => {},
    }
    assert(views(args@) =~= spec_map_args(*video, ga));
    append_all(&mut args, &vargs);
    if codec == VideoCodec::Hevc && (req.target == TargetFormat::Mp4 || req.target
        == TargetFormat::Mov) {
        push_arg(&mut args, "-tag:v");
        push_arg(&mut args, "hvc1");
    }
    assert(views(args@) =~= spec_map_args(*video, ga) + views(vargs@) + spec_hvc1_tag(
        codec,
        req.target,
    ));
    let (aargs, audio_codec, copied, anotices) = match audio_stage(
        opts,
        req.target,
        audio,
        encoders,
    ) {
        Ok(t) => t,
        Err(e) => return Err(e),
    };
    append_all(&mut args, &aargs);
    append_all(&mut notices, &anotices);
    let reencoded = encoder.is_some();
    let resolved_constant_frame_rate = match opts {
        VideoConvertOptions::Encode {
            frame_rate: Some(VideoFrameRate::Constant { numerator, denominator }),
            ..
        } => Some(VideoRationalFact::Exact { numerator, denominator }),
        _ => None,
    };
    let requested_resize = match opts {
        VideoConvertOptions::Encode { resize, .. } => resize,
        VideoConvertOptions::Copy => None,
    };
    let requested_frame_rate = match opts {
        VideoConvertOptions::Encode { frame_rate, .. } => frame_rate,
        VideoConvertOptions::Copy => None,
    };
    Ok(
        ResolvedVideoPlan {
            plan: Plan {
                args,
                video_filters: filters,
                reencoded,
                ext: req.target.extension(),
            },
            summary: VideoExecutionSummary {
                requested: opts,
                encoder,
                video_codec: codec,
                video_stream_index: video.index,
                audio_stream_index: match audio {
                    Some(a) => Some(a.index),
                    None => None,
                },
                audio_codec,
                audio_copied: copied,
                width,
                height,
                requested_resize,
                requested_frame_rate,
                source_average_frame_rate: video.average_frame_rate,
                source_base_frame_rate: video.base_frame_rate,
                source_time_base: video.time_base,
                resolved_constant_frame_rate,
                notices,
            },
        },
    )
}


// ---------------------------------------------------------------------------
// Output verification
// ---------------------------------------------------------------------------

/// An optional stream reference as an optional stream.
pub open spec fn opt_ref(o: Option<&VideoStreamInfo>) -> Option<VideoStreamInfo> {
    match o {
        Some(x) => Some(*x),
        None => None,
    }
}

/// The video stream and optional audio stream explicit video settings
/// operate on, or why the probe is refused.
pub open spec fn spec_chosen(probe: ProbeResult, aux: bool) -> Result<
    (VideoStreamInfo, Option<VideoStreamInfo>),
    Seq<char>,
> {
    match spec_streams_for_mode(probe, aux) {
        Err(m) => Err(m),
        Ok((vi, ai)) => Ok(
            (
                probe.video_details->0.streams@[vi],
                stream_at(probe.video_details->0.streams@, ai),
            ),
        ),
    }
}

/// The video stream and the optional audio stream that explicit video
/// settings operate on.
pub fn chosen_streams(probe: &ProbeResult, allow_auxiliary_streams: bool) -> (r: Result<
    (&VideoStreamInfo, Option<&VideoStreamInfo>),
    GoopError,
>)
    ensures
        match spec_chosen(*probe, allow_auxiliary_streams) {
            Ok((v, a)) => (r matches Ok((x, y)) && *x == v && opt_ref(y) == a),
            Err(m) => (r matches Err(e) && is_invalid_with(e, m)),
        },
{
    let (vi, ai) = match streams_for_mode(probe, allow_auxiliary_streams) {
        Ok(p) => p,
        Err(e) => return Err(e),
    };
    let list = match &probe.video_details {
        Some(d) => &d.streams,
        None => {
            assert(false);
            return Err(invalid("Explicit video settings require a video source"));
        },
    };
    proof {
        lemma_pick_fold_bounds(list@, allow_auxiliary_streams);
    }
    let audio = match ai {
        Some(k) => Some(&list[k]),
        None => None,
    };
    Ok((&list[vi], audio))
}

/// The one video stream and the optional audio stream of a probe.
pub fn streams(probe: &ProbeResult) -> (r: Result<(&VideoStreamInfo, Option<&VideoStreamInfo>), GoopError>)
    ensures
        match spec_chosen(*probe, false) {
            Ok((v, a)) => (r matches Ok((x, y)) && *x == v && opt_ref(y) == a),
            Err(m) => (r matches Err(e) && is_invalid_with(e, m)),
        },
{
    chosen_streams(probe, false)
}

/// Whether two optional strings hold the same text.
pub fn opt_strings_equal(a: &Option<String>, b: &Option<String>) -> (r: bool)
    ensures
        r == (opt_string(*a) == opt_string(*b)),
{
    match (a, b) {
        (Some(x), Some(y)) => str_eq(x.as_str(), y.as_str()),
        (None, None) => true,
        _ => false,
    }
}

/// The codec name ffprobe reports for a video codec.
pub open spec fn spec_codec_name(c: VideoCodec) -> Seq<char> {
    match c {
        VideoCodec::H264 => "h264"@,
        VideoCodec::Hevc => "hevc"@,
    }
}

/// The display rotation of a stream in degrees, zero when absent.
pub open spec fn rotation_of(v: VideoStreamInfo) -> int {
    match v.rotation_degrees {
        Some(d) => d as int,
        None => 0,
    }
}

/// Whether a staged output matches the plan it was produced from.
pub open spec fn spec_validate_output(e: VideoExecutionSummary, actual: ProbeResult) -> Result<
    (),
    Seq<char>,
> {
    match spec_chosen(actual, false) {
        Err(m) => Err(m),
        Ok((v, a)) => {
            let ac = match a {
                Some(x) => opt_string(x.codec_name),
                None => None,
            };
            if opt_string(v.codec_name) != Some(spec_codec_name(e.video_codec)) || ac != opt_string(
                e.audio_codec,
            ) {
                Err(
                    "Completed video/audio codecs or stream counts do not match the requested output"@,
                )
            } else {
                match spec_dimensions(actual, v.rotation_degrees) {
                    Err(m) => Err(m),
                    Ok(d) => if d != (e.width, e.height) {
                        Err("Completed video geometry does not match the requested output"@)
                    } else if e.requested is Encode && rotation_of(v) % 360 != 0 {
                        Err("Encoded video retained unexpected display rotation"@)
                    } else {
                        match (if e.requested is Encode {
                            spec_encode_source(v, e.width, e.height)
                        } else {
                            Ok(Seq::empty())
                        }) {
                            Err(m) => Err(m),
                            Ok(_) => if e.requested_frame_rate is Some
                                && spec_timing_unavailable_reason(v) is Some {
                                Err(
                                    "Completed video frame rate or time base is missing or malformed"@,
                                )
                            } else if e.requested_frame_rate is Some
                                && e.resolved_constant_frame_rate is Some && v.average_frame_rate
                                != e.resolved_constant_frame_rate {
                                Err("Completed video frame rate does not match the requested output"@)
                            } else if actual.duration_ms == 0 || actual.file_size == 0 {
                                Err("Completed video has no usable duration or media data"@)
                            } else {
                                Ok(())
                            },
                        }
                    },
                }
            }
        },
    }
}

/// Verifies staged output before publication; rate and speed are proven by
/// the plan.
pub fn validate_output(expected: &VideoExecutionSummary, actual: &ProbeResult) -> (r: Result<
    (),
    GoopError,
>)
    ensures
        match spec_validate_output(*expected, *actual) {
            Ok(_) => r is Ok,
            Err(m) => (r matches Err(e) && is_invalid_with(e, m)),
        },
{
    let (video, audio) = match streams(actual) {
        Ok(p) => p,
        Err(e) => return Err(e),
    };
    let codec = match expected.video_codec {
        VideoCodec::H264 => "h264",
        VideoCodec::Hevc => "hevc",
    };
    let audio_codec_matches = match audio {
        Some(a) => opt_strings_equal(&a.codec_name, &expected.audio_codec),
        None => expected.audio_codec.is_none(),
    };
    if !opt_str_is(&video.codec_name, codec) || !audio_codec_matches {
        return Err(
            invalid(
                "Completed video/audio codecs or stream counts do not match the requested output",
            ),
        );
    }
    let (w, h) = match dimensions(actual, video) {
        Ok(d) => d,
        Err(e) => return Err(e),
    };
    if w != expected.width || h != expected.height {
        return Err(invalid("Completed video geometry does not match the requested output"));
    }
    if let VideoConvertOptions::Encode { .. } = expected.requested {
        let rotation = match video.rotation_degrees {
            Some(d) => d,
            None => 0,
        };
        if rem_euclid(rotation, 360) != 0 {
            return Err(invalid("Encoded video retained unexpected display rotation"));
        }
        match encode_source(video, expected.width, expected.height) {
            Ok(_) => {},
            Err(e) => return Err(e),
        }
    }
    if expected.requested_frame_rate.is_some() {
        if timing_unavailable_reason(video).is_some() {
            return Err(invalid("Completed video frame rate or time base is missing or malformed"));
        }
        if let Some(expected_rate) = expected.resolved_constant_frame_rate {
            if video.average_frame_rate != Some(expected_rate) {
                return Err(invalid("Completed video frame rate does not match the requested output"));
            }
        }
    }
    if actual.duration_ms == 0 || actual.file_size == 0 {
        return Err(invalid("Completed video has no usable duration or media data"));
    }
    Ok(())
}


/// Whether dividing by a frame rate is defined: an exact rate has a
/// nonzero numerator.
pub open spec fn frame_rate_divisible(f: Option<VideoRationalFact>) -> bool {
    f matches Some(VideoRationalFact::Exact { numerator, .. }) ==> numerator > 0
}

/// Whether dividing by a time base is defined: an exact time base has a
/// nonzero denominator.
pub open spec fn time_base_divisible(f: Option<VideoRationalFact>) -> bool {
    f matches Some(VideoRationalFact::Exact { denominator, .. }) ==> denominator > 0
}

/// Whether the timing tolerance of a completed video can be computed once
/// the checks before it pass: the frame rate it uses (the resolved
/// constant rate, else the video's own) divides, and so does its time
/// base when that frame rate is exact.
pub open spec fn output_timing_divisible(
    expected: VideoExecutionSummary,
    source: ProbeResult,
    actual: ProbeResult,
) -> bool {
    (expected.requested_frame_rate is Some && spec_validate_output(expected, actual) is Ok
        && spec_chosen(source, false) is Ok && spec_chosen(actual, false) is Ok) ==> {
        let v = spec_chosen(actual, false)->Ok_0.0;
        let fr = match expected.resolved_constant_frame_rate {
            Some(x) => Some(x),
            None => v.average_frame_rate,
        };
        frame_rate_divisible(fr) && (fr matches Some(VideoRationalFact::Exact { .. })
            ==> time_base_divisible(v.time_base))
    }
}

/// The numerator and denominator of an exact fact.
pub fn exact_rational(fact: &VideoRationalFact) -> (r: Option<(u64, u64)>)
    ensures
        r == match *fact {
            VideoRationalFact::Exact { numerator, denominator } => Some(
                (numerator as u64, denominator as u64),
            ),
            VideoRationalFact::Malformed => None,
        },
{
    match fact {
        VideoRationalFact::Exact { numerator, denominator } => Some(
            (*numerator as u64, *denominator as u64),
        ),
        VideoRationalFact::Malformed => None,
    }
}

/// `a / b` rounded up.
pub open spec fn div_ceil(a: int, b: int) -> int {
    (a + b - 1) / b
}

/// One frame interval in whole milliseconds, rounded up.
pub open spec fn spec_frame_rate_interval_ms(f: VideoRationalFact) -> Option<int> {
    match f {
        VideoRationalFact::Exact { numerator, denominator } => Some(
            div_ceil(1000 * denominator, numerator as int),
        ),
        VideoRationalFact::Malformed => None,
    }
}

/// One time-base tick in whole milliseconds, rounded up.
pub open spec fn spec_time_base_interval_ms(f: VideoRationalFact) -> Option<int> {
    match f {
        VideoRationalFact::Exact { numerator, denominator } => Some(
            div_ceil(1000 * numerator, denominator as int),
        ),
        VideoRationalFact::Malformed => None,
    }
}

/// One frame interval in whole milliseconds, rounded up.
pub fn frame_rate_interval_ms(fact: &VideoRationalFact) -> (r: Option<u64>)
    requires
        frame_rate_divisible(Some(*fact)),
    ensures
        opt_u64(r) == spec_frame_rate_interval_ms(*fact),
        r matches Some(x) ==> x <= 1000 * 0xffff_ffffu64,
{
    let (n, d) = match exact_rational(fact) {
        Some(p) => p,
        None => return None,
    };
    let x: u64 = 1000 * d;
    proof {
        assert((x + n - 1) / (n as int) <= x) by (nonlinear_arith)
            requires n >= 1, x >= 0;
    }
    Some((x + n - 1) / n)
}

/// One time-base tick in whole milliseconds, rounded up.
pub fn time_base_interval_ms(fact: &VideoRationalFact) -> (r: Option<u64>)
    requires
        time_base_divisible(Some(*fact)),
    ensures
        opt_u64(r) == spec_time_base_interval_ms(*fact),
        r matches Some(x) ==> x <= 1000 * 0xffff_ffffu64,
{
    let (n, d) = match exact_rational(fact) {
        Some(p) => p,
        None => return None,
    };
    let x: u64 = 1000 * n;
    proof {
        assert((x + d - 1) / (d as int) <= x) by (nonlinear_arith)
            requires d >= 1, x >= 0;
    }
    Some((x + d - 1) / d)
}

/// An optional `u64` as an optional integer.
pub open spec fn opt_u64(o: Option<u64>) -> Option<int> {
    match o {
        Some(x) => Some(x as int),
        None => None,
    }
}

/// The distance between two integers.
pub open spec fn abs_diff(a: int, b: int) -> int {
    if a >= b {
        a - b
    } else {
        b - a
    }
}

/// A timing refusal naming the tolerance it exceeded.
pub open spec fn tolerance_message(what: Seq<char>, tol: int) -> Seq<char> {
    what + " differs from the source by more than the "@ + decimal(tol as nat)
        + " ms timing tolerance"@
}

/// Audio start offsets and endpoints, relative to video, agree within `tol`.
pub open spec fn spec_audio_timing(
    sv: VideoStreamInfo,
    sa: VideoStreamInfo,
    v: VideoStreamInfo,
    a: VideoStreamInfo,
    tol: int,
) -> Result<(), Seq<char>> {
    match (sv.start_time_ms, sa.start_time_ms, v.start_time_ms, a.start_time_ms) {
        (None, _, _, _) => Err("Source video start time is unavailable"@),
        (Some(_), None, _, _) => Err("Source audio start time is unavailable"@),
        (Some(_), Some(_), None, _) => Err("Completed video start time is unavailable"@),
        (Some(_), Some(_), Some(_), None) => Err("Completed audio start time is unavailable"@),
        (Some(svs), Some(sas), Some(avs), Some(aas)) => {
            let so = sas - svs;
            let ao = aas - avs;
            if abs_diff(so, ao) > tol {
                Err(tolerance_message("Completed audio offset"@, tol))
            } else {
                match (sa.duration_ms, a.duration_ms) {
                    (None, _) => Err("Source audio endpoint is unavailable"@),
                    (Some(_), None) => Err("Completed audio endpoint is unavailable"@),
                    (Some(sad), Some(aad)) => if abs_diff(so + sad, ao + aad) > tol {
                        Err(tolerance_message("Completed audio endpoint"@, tol))
                    } else {
                        Ok(())
                    },
                }
            }
        },
    }
}

/// The bounded per-stream timing checks against the fresh source probe.
pub open spec fn spec_timing_against_source(
    e: VideoExecutionSummary,
    source: ProbeResult,
    actual: ProbeResult,
) -> Result<(), Seq<char>> {
    match spec_chosen(source, false) {
        Err(m) => Err(m),
        Ok((sv, sa)) => match spec_chosen(actual, false) {
            Err(m) => Err(m),
            Ok((v, a)) => {
                let rate = match e.resolved_constant_frame_rate {
                    Some(x) => Some(x),
                    None => v.average_frame_rate,
                };
                let ft = match rate {
                    Some(f) => spec_frame_rate_interval_ms(f),
                    None => None,
                };
                let tt = match v.time_base {
                    Some(t) => spec_time_base_interval_ms(t),
                    None => None,
                };
                match (ft, tt) {
                    (None, _) => Err(
                        "Completed video frame rate cannot provide a bounded duration tolerance"@,
                    ),
                    (Some(_), None) => Err(
                        "Completed video time base cannot provide a bounded duration tolerance"@,
                    ),
                    (Some(f), Some(t)) => {
                        let tol = f + t;
                        let svd = match sv.duration_ms {
                            Some(d) => Some(d),
                            None => if source.duration_ms > 0 {
                                Some(source.duration_ms)
                            } else {
                                None
                            },
                        };
                        if abs_diff(source.duration_ms as int, actual.duration_ms as int) > tol {
                            Err(tolerance_message("Completed video duration"@, tol))
                        } else {
                            match (svd, v.duration_ms) {
                                (None, _) => Err("Source video endpoint is unavailable"@),
                                (Some(_), None) => Err("Completed video endpoint is unavailable"@),
                                (Some(x), Some(y)) => if abs_diff(x as int, y as int) > tol {
                                    Err(tolerance_message("Completed video endpoint"@, tol))
                                } else {
                                    match (sa, a) {
                                        (Some(x), Some(y)) => spec_audio_timing(sv, x, v, y, tol),
                                        _ => Ok(()),
                                    }
                                },
                            }
                        }
                    },
                }
            },
        },
    }
}

/// Output verification with bounded per-stream timing checks when a
/// frame rate was requested.
pub open spec fn spec_validate_output_against_source(
    e: VideoExecutionSummary,
    source: ProbeResult,
    actual: ProbeResult,
) -> Result<(), Seq<char>> {
    match spec_validate_output(e, actual) {
        Err(m) => Err(m),
        Ok(_) => if e.requested_frame_rate is None {
            Ok(())
        } else {
            spec_timing_against_source(e, source, actual)
        },
    }
}

/// `|a - b|` for two `u64`.
fn abs_diff_u64(a: u64, b: u64) -> (r: u64)
    ensures
        r == abs_diff(a as int, b as int),
{
    if a >= b {
        a - b
    } else {
        b - a
    }
}

/// `|a - b|` for two offsets well inside `i128`.
fn abs_diff_i128(a: i128, b: i128) -> (r: i128)
    requires
        -0x1_0000_0000_0000_0000_0000 < a < 0x1_0000_0000_0000_0000_0000,
        -0x1_0000_0000_0000_0000_0000 < b < 0x1_0000_0000_0000_0000_0000,
    ensures
        r == abs_diff(a as int, b as int),
{
    if a >= b {
        a - b
    } else {
        b - a
    }
}

/// A timing refusal naming the tolerance.
fn tolerance_error(what: &str, tol: u64) -> (e: GoopError)
    ensures
        is_invalid_with(e, tolerance_message(what@, tol as int)),
{
    let mut m = owned(what);
    push_str(&mut m, " differs from the source by more than the ");
    let d = decimal_string(tol);
    push_str(&mut m, d.as_str());
    push_str(&mut m, " ms timing tolerance");
    invalid_owned(m)
}

/// Audio offset and endpoint checks.
fn audio_timing(
    sv: &VideoStreamInfo,
    sa: &VideoStreamInfo,
    v: &VideoStreamInfo,
    a: &VideoStreamInfo,
    tol: u64,
) -> (r: Result<(), GoopError>)
    ensures
        match spec_audio_timing(*sv, *sa, *v, *a, tol as int) {
            Ok(_) => r is Ok,
            Err(m) => (r matches Err(e) && is_invalid_with(e, m)),
        },
{
    let svs = match sv.start_time_ms {
        Some(x) => x,
        None => return Err(invalid("Source video start time is unavailable")),
    };
    let sas = match sa.start_time_ms {
        Some(x) => x,
        None => return Err(invalid("Source audio start time is unavailable")),
    };
    let avs = match v.start_time_ms {
        Some(x) => x,
        None => return Err(invalid("Completed video start time is unavailable")),
    };
    let aas = match a.start_time_ms {
        Some(x) => x,
        None => return Err(invalid("Completed audio start time is unavailable")),
    };
    let so: i128 = sas as i128 - svs as i128;
    let ao: i128 = aas as i128 - avs as i128;
    if abs_diff_i128(so, ao) > tol as i128 {
        return Err(tolerance_error("Completed audio offset", tol));
    }
    let sad = match sa.duration_ms {
        Some(x) => x,
        None => return Err(invalid("Source audio endpoint is unavailable")),
    };
    let aad = match a.duration_ms {
        Some(x) => x,
        None => return Err(invalid("Completed audio endpoint is unavailable")),
    };
    let se: i128 = so + sad as i128;
    let ae: i128 = ao + aad as i128;
    if abs_diff_i128(se, ae) > tol as i128 {
        return Err(tolerance_error("Completed audio endpoint", tol));
    }
    Ok(())
}

/// Adds bounded per-stream timing checks, against the fresh source probe,
/// to the output verification.
pub fn validate_output_against_source(
    expected: &VideoExecutionSummary,
    source: &ProbeResult,
    actual: &ProbeResult,
) -> (r: Result<(), GoopError>)
    requires
        output_timing_divisible(*expected, *source, *actual),
    ensures
        match spec_validate_output_against_source(*expected, *source, *actual) {
            Ok(_) => r is Ok,
            Err(m) => (r matches Err(e) && is_invalid_with(e, m)),
        },
{
    match validate_output(expected, actual) {
        Ok(_) => {},
        Err(e) => return Err(e),
    }
    if expected.requested_frame_rate.is_none() {
        return Ok(());
    }
    let (source_video, source_audio) = match streams(source) {
        Ok(p) => p,
        Err(e) => return Err(e),
    };
    let (video, audio) = match streams(actual) {
        Ok(p) => p,
        Err(e) => return Err(e),
    };
    let rate = match expected.resolved_constant_frame_rate {
        Some(x) => Some(x),
        None => video.average_frame_rate,
    };
    let frame_tolerance = match rate {
        Some(f) => frame_rate_interval_ms(&f),
        None => None,
    };
    let frame_tolerance = match frame_tolerance {
        Some(t) => t,
        None => return Err(
            invalid("Completed video frame rate cannot provide a bounded duration tolerance"),
        ),
    };
    let time_base_tolerance = match video.time_base {
        Some(t) => time_base_interval_ms(&t),
        None => None,
    };
    let time_base_tolerance = match time_base_tolerance {
        Some(t) => t,
        None => return Err(
            invalid("Completed video time base cannot provide a bounded duration tolerance"),
        ),
    };
    let tolerance = frame_tolerance + time_base_tolerance;
    if abs_diff_u64(source.duration_ms, actual.duration_ms) > tolerance {
        return Err(tolerance_error("Completed video duration", tolerance));
    }
    let source_video_duration = match source_video.duration_ms {
        Some(d) => d,
        None => if source.duration_ms > 0 {
            source.duration_ms
        } else {
            return Err(invalid("Source video endpoint is unavailable"));
        },
    };
    let actual_video_duration = match video.duration_ms {
        Some(d) => d,
        None => return Err(invalid("Completed video endpoint is unavailable")),
    };
    if abs_diff_u64(source_video_duration, actual_video_duration) > tolerance {
        return Err(tolerance_error("Completed video endpoint", tolerance));
    }
    match (source_audio, audio) {
        (Some(sa), Some(a)) => audio_timing(source_video, sa, video, a, tolerance),
        _ => Ok(()),
    }
}


/// Whether a stream copy kept the coded geometry and the stream display
/// facts, including non-square pixels.
pub open spec fn spec_validate_copy_facts(source: ProbeResult, actual: ProbeResult) -> Result<
    (),
    Seq<char>,
> {
    match spec_chosen(source, false) {
        Err(m) => Err(m),
        Ok((before, _)) => match spec_chosen(actual, false) {
            Err(m) => Err(m),
            Ok((after, _)) => if source.width != actual.width || source.height != actual.height
                || rotation_of(before) % 360 != rotation_of(after) % 360 || opt_string(
                before.pixel_format,
            ) != opt_string(after.pixel_format) || opt_string(before.sample_aspect_ratio)
                != opt_string(after.sample_aspect_ratio) {
                Err("Copied video changed its coded geometry, pixel format or display metadata"@)
            } else {
                Ok(())
            },
        },
    }
}

/// Checks that a stream copy kept the coded geometry and display facts.
pub fn validate_copy_facts(source: &ProbeResult, actual: &ProbeResult) -> (r: Result<(), GoopError>)
    ensures
        match spec_validate_copy_facts(*source, *actual) {
            Ok(_) => r is Ok,
            Err(m) => (r matches Err(e) && is_invalid_with(e, m)),
        },
{
    let (before, _) = match streams(source) {
        Ok(p) => p,
        Err(e) => return Err(e),
    };
    let (after, _) = match streams(actual) {
        Ok(p) => p,
        Err(e) => return Err(e),
    };
    let rb = rem_euclid(
        match before.rotation_degrees {
            Some(d) => d,
            None => 0,
        },
        360,
    );
    let ra = rem_euclid(
        match after.rotation_degrees {
            Some(d) => d,
            None => 0,
        },
        360,
    );
    if source.width != actual.width || source.height != actual.height || rb != ra
        || !opt_strings_equal(&before.pixel_format, &after.pixel_format) || !opt_strings_equal(
        &before.sample_aspect_ratio,
        &after.sample_aspect_ratio,
    ) {
        return Err(
            invalid("Copied video changed its coded geometry, pixel format or display metadata"),
        );
    }
    Ok(())
}

// ---------------------------------------------------------------------------
// Capabilities
// ---------------------------------------------------------------------------

/// Why explicit video previews are not offered.
pub const PREVIEW_REASON: &'static str =
    "Explicit video previews are not available yet. Use Automatic for a viewing sample.";

/// Whether a mode is available and, if not, why.
#[derive(Debug, Clone, PartialEq, Eq)]
pub struct VideoModeAvailability {
    pub available: bool,
    pub reason: Option<String>,
}

/// One codec a custom encode can use.
#[derive(Debug, Clone, PartialEq, Eq)]
pub struct VideoCodecCapability {
    pub codec: VideoCodec,
    pub encoder: String,
    pub available: bool,
    pub reason: Option<String>,
    pub recommended_crf: u32,
}

/// A constant output frame rate offered to the user.
#[derive(Debug, Clone, PartialEq, Eq)]
pub struct VideoFrameRateChoice {
    pub frame_rate: VideoFrameRate,
    pub label: String,
}

/// What resizing offers.
#[derive(Debug, Clone, PartialEq, Eq)]
pub struct VideoResizeCapabilities {
    pub available: bool,
    pub reason: Option<String>,
    pub min_dimension: u32,
    pub max_dimension: u32,
    pub no_enlargement: bool,
    pub default: VideoResize,
}

/// What frame-rate control offers, with the source timing facts.
#[derive(Debug, Clone, PartialEq, Eq)]
pub struct VideoFrameRateCapabilities {
    pub available: bool,
    pub reason: Option<String>,
    pub default: Option<VideoFrameRate>,
    pub constant_choices: Vec<VideoFrameRateChoice>,
    pub average_frame_rate: Option<VideoRationalFact>,
    pub base_frame_rate: Option<VideoRationalFact>,
    pub time_base: Option<VideoRationalFact>,
}

/// The explicit video settings a source admits.
#[derive(Debug, Clone, PartialEq, Eq)]
pub struct VideoSettingsCapabilities {
    pub copy: VideoModeAvailability,
    pub encode: VideoModeAvailability,
    pub codecs: Vec<VideoCodecCapability>,
    pub crf_min: u32,
    pub crf_max: u32,
    pub default_crf: u32,
    pub bitrate_min_kbps: u32,
    pub bitrate_max_kbps: u32,
    pub default_bitrate_kbps: u32,
    pub speeds: Vec<VideoSpeed>,
    pub default_speed: VideoSpeed,
    pub processor: VideoProcessor,
    pub resize: Option<VideoResizeCapabilities>,
    pub frame_rate: Option<VideoFrameRateCapabilities>,
    pub preview_available: bool,
    pub preview_unavailable_reason: Option<String>,
}

/// The constant frame rates offered, as numerator, denominator and label.
pub open spec fn spec_constant_frame_rates() -> Seq<(u32, u32, Seq<char>)> {
    seq![
        (24000u32, 1001u32, "23.976 fps"@),
        (24u32, 1u32, "24 fps"@),
        (25u32, 1u32, "25 fps"@),
        (30000u32, 1001u32, "29.97 fps"@),
        (30u32, 1u32, "30 fps"@),
        (50u32, 1u32, "50 fps"@),
        (60000u32, 1001u32, "59.94 fps"@),
        (60u32, 1u32, "60 fps"@),
    ]
}

/// Whether a choice offers the constant rate `t`.
pub open spec fn choice_matches(c: VideoFrameRateChoice, t: (u32, u32, Seq<char>)) -> bool {
    c.frame_rate == (VideoFrameRate::Constant { numerator: t.0, denominator: t.1 }) && c.label@
        == t.2
}

/// Whether `v` lists exactly the constant frame rates offered.
pub open spec fn choices_match(v: Seq<VideoFrameRateChoice>) -> bool {
    v.len() == spec_constant_frame_rates().len() && forall|i: int|
        0 <= i < v.len() ==> choice_matches(#[trigger] v[i], spec_constant_frame_rates()[i])
}

fn push_choice(v: &mut Vec<VideoFrameRateChoice>, numerator: u32, denominator: u32, label: &str)
    ensures
        final(v)@ == old(v)@.push(final(v)@.last()),
        choice_matches(final(v)@.last(), (numerator, denominator, label@)),
{
    v.push(
        VideoFrameRateChoice {
            frame_rate: VideoFrameRate::Constant { numerator, denominator },
            label: owned(label),
        },
    );
}

/// The constant output frame rates offered to the user.
pub fn constant_frame_rates() -> (r: Vec<VideoFrameRateChoice>)
    ensures
        choices_match(r@),
{
    let mut v: Vec<VideoFrameRateChoice> = Vec::new();
    push_choice(&mut v, 24000, 1001, "23.976 fps");
    push_choice(&mut v, 24, 1, "24 fps");
    push_choice(&mut v, 25, 1, "25 fps");
    push_choice(&mut v, 30000, 1001, "29.97 fps");
    push_choice(&mut v, 30, 1, "30 fps");
    push_choice(&mut v, 50, 1, "50 fps");
    push_choice(&mut v, 60000, 1001, "59.94 fps");
    push_choice(&mut v, 60, 1, "60 fps");
    assert(choice_matches(v@[0], spec_constant_frame_rates()[0]));
    assert(choice_matches(v@[1], spec_constant_frame_rates()[1]));
    assert(choice_matches(v@[2], spec_constant_frame_rates()[2]));
    assert(choice_matches(v@[3], spec_constant_frame_rates()[3]));
    assert(choice_matches(v@[4], spec_constant_frame_rates()[4]));
    assert(choice_matches(v@[5], spec_constant_frame_rates()[5]));
    assert(choice_matches(v@[6], spec_constant_frame_rates()[6]));
    assert(choice_matches(v@[7], spec_constant_frame_rates()[7]));
    v
}

/// The request a capability probe resolves for one mode.
pub open spec fn probe_request(target: TargetFormat, opts: VideoConvertOptions) -> VideoConvertRequest {
    VideoConvertRequest { target, resolution_cap: None, video_options: Some(opts) }
}

/// The default custom encode of a codec: constant quality 23, medium speed,
/// original size and frame rate.
pub open spec fn default_encode(codec: VideoCodec) -> VideoConvertOptions {
    VideoConvertOptions::Encode {
        codec,
        rate_control: VideoRateControl::ConstantQuality { crf: 23 },
        speed: VideoSpeed::Medium,
        processor: VideoProcessor::Software,
        resize: None,
        frame_rate: None,
    }
}

/// Why the resolver refuses a mode for this source, if it does.
pub open spec fn spec_mode_reason(
    probe: ProbeResult,
    target: TargetFormat,
    enc: Seq<Seq<char>>,
    aux: bool,
    opts: VideoConvertOptions,
) -> Option<Seq<char>> {
    match spec_resolve(probe_request(target, opts), probe, enc, aux) {
        Ok(_) => None,
        Err(m) => Some(m),
    }
}

/// Whether an availability record says `reason` (available when none).
pub open spec fn mode_matches(m: VideoModeAvailability, reason: Option<Seq<char>>) -> bool {
    m.available == (reason is None) && opt_string(m.reason) == reason
}

/// Whether a codec record describes `codec` with `encoder`, `crf` and `reason`.
pub open spec fn codec_matches(
    c: VideoCodecCapability,
    codec: VideoCodec,
    encoder: Seq<char>,
    crf: u32,
    reason: Option<Seq<char>>,
) -> bool {
    &&& c.codec == codec
    &&& c.encoder@ == encoder
    &&& c.recommended_crf == crf
    &&& c.available == (reason is None)
    &&& opt_string(c.reason) == reason
}

/// Why frame-rate control is unavailable from the source streams alone.
pub open spec fn spec_capability_timing_reason(probe: ProbeResult, aux: bool) -> Option<Seq<char>> {
    match spec_chosen(probe, aux) {
        Ok((v, a)) => spec_source_timing_unavailable_reason(v, a),
        Err(_) => None,
    }
}

/// The video stream's facts, when the source admits explicit settings.
pub open spec fn spec_capability_video(probe: ProbeResult, aux: bool) -> Option<VideoStreamInfo> {
    match spec_chosen(probe, aux) {
        Ok((v, _)) => Some(v),
        Err(_) => None,
    }
}

/// A rational fact of the chosen video stream.
pub open spec fn video_fact(v: Option<VideoStreamInfo>, which: int) -> Option<VideoRationalFact> {
    match v {
        Some(x) => if which == 0 {
            x.average_frame_rate
        } else if which == 1 {
            x.base_frame_rate
        } else {
            x.time_base
        },
        None => None,
    }
}

/// The capabilities a probe admits: every mode is resolved with the same
/// resolver as execution, and refused modes carry the resolver's reason.
pub open spec fn capabilities_match(
    r: VideoSettingsCapabilities,
    probe: ProbeResult,
    target: TargetFormat,
    enc: Seq<Seq<char>>,
    aux: bool,
) -> bool {
    let h = spec_mode_reason(probe, target, enc, aux, default_encode(VideoCodec::H264));
    let x = spec_mode_reason(probe, target, enc, aux, default_encode(VideoCodec::Hevc));
    let available = h is None || x is None;
    let refused = if available {
        None
    } else {
        h
    };
    let fr = if !available {
        h
    } else {
        spec_capability_timing_reason(probe, aux)
    };
    let v = spec_capability_video(probe, aux);
    &&& mode_matches(r.copy, spec_mode_reason(probe, target, enc, aux, VideoConvertOptions::Copy))
    &&& r.codecs@.len() == 2
    &&& codec_matches(r.codecs@[0], VideoCodec::H264, "libx264"@, 23, h)
    &&& codec_matches(r.codecs@[1], VideoCodec::Hevc, "libx265"@, 28, x)
    &&& r.encode.available == available
    &&& opt_string(r.encode.reason) == refused
    &&& r.crf_min == 1 && r.crf_max == 51 && r.default_crf == 23
    &&& r.bitrate_min_kbps == 100 && r.bitrate_max_kbps == 200000 && r.default_bitrate_kbps
        == 5000
    &&& r.speeds@ == seq![VideoSpeed::Fast, VideoSpeed::Medium, VideoSpeed::Slow]
    &&& r.default_speed == VideoSpeed::Medium
    &&& r.processor == VideoProcessor::Software
    &&& r.resize matches Some(z) && z.available == available && opt_string(z.reason) == refused
        && z.min_dimension == 2 && z.max_dimension == 32768 && z.no_enlargement && z.default
        == VideoResize::Original
    &&& r.frame_rate matches Some(f) && f.available == (fr is None) && opt_string(f.reason) == fr
        && f.default == (if fr is None {
        Some(VideoFrameRate::Preserve)
    } else {
        None
    }) && choices_match(f.constant_choices@) && f.average_frame_rate == video_fact(v, 0)
        && f.base_frame_rate == video_fact(v, 1) && f.time_base == video_fact(v, 2)
    &&& !r.preview_available
    &&& opt_string(r.preview_unavailable_reason) == Some(PREVIEW_REASON@)
}

/// A copy of an optional string.
pub fn clone_opt_string(o: &Option<String>) -> (r: Option<String>)
    ensures
        opt_string(r) == opt_string(*o),
{
    match o {
        Some(s) => Some(s.clone()),
        None => None,
    }
}

/// The availability of a resolved mode.
fn mode(result: Result<ResolvedVideoPlan, GoopError>) -> (m: VideoModeAvailability)
    requires
        result matches Err(e) ==> e is InvalidRequest,
    ensures
        m.available == (result is Ok),
        result matches Err(e) ==> (e matches GoopError::InvalidRequest(x) && m.reason matches Some(
            y,
        ) && y@ == x@),
        result is Ok ==> m.reason is None,
{
    match result {
        Ok(_) => VideoModeAvailability { available: true, reason: None },
        Err(e) => VideoModeAvailability { available: false, reason: Some(e.user_message()) },
    }
}

/// Resolves one mode for a capability probe.
fn resolve_mode(
    probe: &ProbeResult,
    target: TargetFormat,
    encoders: &DetectedEncoders,
    aux: bool,
    opts: VideoConvertOptions,
) -> (m: VideoModeAvailability)
    ensures
        mode_matches(m, spec_mode_reason(*probe, target, views(encoders.available@), aux, opts)),
{
    let req = VideoConvertRequest { target, resolution_cap: None, video_options: Some(opts) };
    let r = resolve_inner(&req, probe, encoders, aux);
    mode(r)
}

/// Advertises source-specific modes using the same resolver as execution.
pub fn capabilities(probe: &ProbeResult, target: TargetFormat, encoders: &DetectedEncoders) -> (r:
    VideoSettingsCapabilities)
    ensures
        capabilities_match(r, *probe, target, views(encoders.available@), false),
{
    capabilities_inner(probe, target, encoders, false)
}

/// Advertises primary-video modes when a source-bound stream policy will
/// own every auxiliary audio and subtitle stream.
pub fn capabilities_with_auxiliary(
    probe: &ProbeResult,
    target: TargetFormat,
    encoders: &DetectedEncoders,
) -> (r: VideoSettingsCapabilities)
    ensures
        capabilities_match(r, *probe, target, views(encoders.available@), true),
{
    capabilities_inner(probe, target, encoders, true)
}

/// The capabilities behind both entry points.
pub fn capabilities_inner(
    probe: &ProbeResult,
    target: TargetFormat,
    encoders: &DetectedEncoders,
    allow_auxiliary_streams: bool,
) -> (r: VideoSettingsCapabilities)
    ensures
        capabilities_match(r, *probe, target, views(encoders.available@), allow_auxiliary_streams),
{
    let aux = allow_auxiliary_streams;
    let copy = resolve_mode(probe, target, encoders, aux, VideoConvertOptions::Copy);
    let h = resolve_mode(
        probe,
        target,
        encoders,
        aux,
        VideoConvertOptions::Encode {
            codec: VideoCodec::H264,
            rate_control: VideoRateControl::ConstantQuality { crf: 23 },
            speed: VideoSpeed::Medium,
            processor: VideoProcessor::Software,
            resize: None,
            frame_rate: None,
        },
    );
    let x = resolve_mode(
        probe,
        target,
        encoders,
        aux,
        VideoConvertOptions::Encode {
            codec: VideoCodec::Hevc,
            rate_control: VideoRateControl::ConstantQuality { crf: 23 },
            speed: VideoSpeed::Medium,
            processor: VideoProcessor::Software,
            resize: None,
            frame_rate: None,
        },
    );
    let available = h.available || x.available;
    let first_reason = clone_opt_string(&h.reason);
    let refused: Option<String> = if available {
        None
    } else {
        clone_opt_string(&h.reason)
    };
    let mut codecs: Vec<VideoCodecCapability> = Vec::new();
    codecs.push(
        VideoCodecCapability {
            codec: VideoCodec::H264,
            encoder: owned("libx264"),
            available: h.available,
            reason: h.reason,
            recommended_crf: 23,
        },
    );
    codecs.push(
        VideoCodecCapability {
            codec: VideoCodec::Hevc,
            encoder: owned("libx265"),
            available: x.available,
            reason: x.reason,
            recommended_crf: 28,
        },
    );
    let facts = chosen_streams(probe, aux);
    let (timing_reason, average, base, time_base) = match facts {
        Ok((v, a)) => (
            source_timing_unavailable_reason(v, a),
            v.average_frame_rate,
            v.base_frame_rate,
            v.time_base,
        ),
        Err(_) => (None, None, None, None),
    };
    let frame_rate_reason = if !available {
        first_reason
    } else {
        timing_reason
    };
    let frame_rate_available = frame_rate_reason.is_none();
    let resize_reason = clone_opt_string(&refused);
    let mut speeds: Vec<VideoSpeed> = Vec::new();
    speeds.push(VideoSpeed::Fast);
    speeds.push(VideoSpeed::Medium);
    speeds.push(VideoSpeed::Slow);
    assert(speeds@ =~= seq![VideoSpeed::Fast, VideoSpeed::Medium, VideoSpeed::Slow]);
    proof {
        reveal_strlit(
            "Explicit video previews are not available yet. Use Automatic for a viewing sample.",
        );
    }
    VideoSettingsCapabilities {
        copy,
        encode: VideoModeAvailability { available, reason: refused },
        codecs,
        crf_min: 1,
        crf_max: 51,
        default_crf: 23,
        bitrate_min_kbps: 100,
        bitrate_max_kbps: 200000,
        default_bitrate_kbps: 5000,
        speeds,
        default_speed: VideoSpeed::Medium,
        processor: VideoProcessor::Software,
        resize: Some(
            VideoResizeCapabilities {
                available,
                reason: resize_reason,
                min_dimension: 2,
                max_dimension: 32768,
                no_enlargement: true,
                default: VideoResize::Original,
            },
        ),
        frame_rate: Some(
            VideoFrameRateCapabilities {
                available: frame_rate_available,
                reason: frame_rate_reason,
                default: if frame_rate_available {
                    Some(VideoFrameRate::Preserve)
                } else {
                    None
                },
                constant_choices: constant_frame_rates(),
                average_frame_rate: average,
                base_frame_rate: base,
                time_base,
            },
        ),
        preview_available: false,
        preview_unavailable_reason: Some(owned(PREVIEW_REASON)),
    }
}


// ---------------------------------------------------------------------------
// Laws
// ---------------------------------------------------------------------------

/// `(x / 2) * 2` is even and at most `x`.
proof fn lemma_even_part(x: int)
    requires
        x >= 0,
    ensures
        (x / 2) * 2 <= x,
        ((x / 2) * 2) % 2 == 0,
{
}

/// Fit-within never enlarges and always fits: a resolved size has even
/// axes of at least 2 pixels, each no larger than the source axis and no
/// larger than the box axis.
pub proof fn lemma_fit_within_fits(sw: u32, sh: u32, bw: u32, bh: u32)
    requires
        fit_scale(sw as int, sh as int, bw as int, bh as int).1 > 0,
    ensures
        spec_fit_within(sw, sh, bw, bh) matches Ok((w, h)) ==> {
            &&& 2 <= w <= sw && 2 <= h <= sh
            &&& w <= bw && h <= bh
            &&& w % 2 == 0 && h % 2 == 0
        },
{
    if sw == 0 || sh == 0 {
        let (n, d) = fit_scale(sw as int, sh as int, bw as int, bh as int);
        lemma_fit_scale_bounds(sw as int, sh as int, bw as int, bh as int);
        lemma_even_floor_bounds(sw as int, n, d);
        lemma_even_floor_bounds(sh as int, n, d);
    } else {
        let (n, d) = fit_scale(sw as int, sh as int, bw as int, bh as int);
        lemma_fit_scale_bounds(sw as int, sh as int, bw as int, bh as int);
        lemma_even_floor_bounds(sw as int, n, d);
        lemma_even_floor_bounds(sh as int, n, d);
        let xw = (sw as int) * n / d;
        let xh = (sh as int) * n / d;
        assert(xw >= 0 && xh >= 0) by (nonlinear_arith)
            requires
                sw > 0,
                sh > 0,
                n >= 0,
                d > 0,
                xw == (sw as int) * n / d,
                xh == (sh as int) * n / d,
        ;
        lemma_even_part(xw);
        lemma_even_part(xh);
        if sw <= bw && sh <= bh {
            assert(n == 1 && d == 1);
            assert(xw == sw as int) by (nonlinear_arith)
                requires
                    xw == (sw as int) * n / d,
                    n == 1,
                    d == 1,
            ;
            assert(xh == sh as int) by (nonlinear_arith)
                requires
                    xh == (sh as int) * n / d,
                    n == 1,
                    d == 1,
            ;
        } else if (bw as int) * (sh as int) <= (bh as int) * (sw as int) {
            assert(xw == bw as int) by (nonlinear_arith)
                requires
                    xw == (sw as int) * (bw as int) / (sw as int),
                    sw > 0,
            ;
            assert(xh <= bh as int) by (nonlinear_arith)
                requires
                    xh == (sh as int) * (bw as int) / (sw as int),
                    (bw as int) * (sh as int) <= (bh as int) * (sw as int),
                    sw > 0,
                    bh >= 0,
            ;
        } else {
            assert(xh == bh as int) by (nonlinear_arith)
                requires
                    xh == (sh as int) * (bh as int) / (sh as int),
                    sh > 0,
            ;
            assert(xw <= bw as int) by (nonlinear_arith)
                requires
                    xw == (sw as int) * (bh as int) / (sh as int),
                    (bw as int) * (sh as int) > (bh as int) * (sw as int),
                    sh > 0,
                    bw >= 0,
            ;
        }
    }
}

/// A stream copy never re-encodes: whenever Copy streams resolves, the plan
/// names no encoder, is not marked as re-encoding and carries no filters.
pub proof fn lemma_copy_never_reencodes(
    req: VideoConvertRequest,
    probe: ProbeResult,
    enc: Seq<Seq<char>>,
    aux: bool,
)
    requires
        req.video_options == Some(VideoConvertOptions::Copy),
    ensures
        spec_resolve(req, probe, enc, aux) matches Ok(v) ==> !v.reencoded && v.encoder is None
            && v.filters.len() == 0,
{
}

} // verus!
