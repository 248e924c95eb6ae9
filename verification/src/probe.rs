//! What a media probe establishes, from the facts ffprobe reports: exact
//! rational rates, display rotation, the kind of source and its stream
//! lists.
use vstd::prelude::*;
use crate::media::{opt_string, ProbeResult, SourceKind, VideoProbeDetails, VideoRationalFact};
use crate::text::{find_char, first_index_of, lemma_first_index_of, parse_u64, spec_parse_u64, str_eq, views};

verus! {

broadcast use vstd::string::group_string_axioms;

// ---------------------------------------------------------------------------
// Rational facts
// ---------------------------------------------------------------------------

/// Euclid's greatest common divisor.
pub open spec fn spec_gcd(a: nat, b: nat) -> nat
    decreases b,
{
    if b == 0 {
        a
    } else {
        spec_gcd(b, a % b)
    }
}

/// The greatest common divisor of two `u32`, by Euclid's algorithm.
pub fn gcd(left: u32, right: u32) -> (r: u32)
    ensures
        r == spec_gcd(left as nat, right as nat),
{
    let mut a = left;
    let mut b = right;
    while b != 0
        invariant
            spec_gcd(a as nat, b as nat) == spec_gcd(left as nat, right as nat),
        decreases b,
    {
        let t = a % b;
        a = b;
        b = t;
    }
    a
}

/// The greatest common divisor divides both arguments, and is positive
/// unless both are zero.
pub proof fn lemma_gcd_divides(a: nat, b: nat)
    ensures
        (a > 0 || b > 0) ==> spec_gcd(a, b) > 0,
        spec_gcd(a, b) > 0 ==> a % spec_gcd(a, b) == 0 && b % spec_gcd(a, b) == 0,
    decreases b,
{
    if b > 0 {
        let r = a % b;
        lemma_gcd_divides(b, r);
        let g = spec_gcd(b, r);
        assert(g == spec_gcd(a, b));
        vstd::arithmetic::div_mod::lemma_fundamental_div_mod(a as int, b as int);
        vstd::arithmetic::div_mod::lemma_fundamental_div_mod(b as int, g as int);
        vstd::arithmetic::div_mod::lemma_fundamental_div_mod(r as int, g as int);
        let qb = b / g;
        let qr = r / g;
        let q = a / b;
        assert(a == g * (q * qb + qr)) by (nonlinear_arith)
            requires
                a == b * q + r,
                b == g * qb,
                r == g * qr,
        ;
        vstd::arithmetic::div_mod::lemma_mod_multiples_basic((q * qb + qr) as int, g as int);
        assert((g * (q * qb + qr)) == (q * qb + qr) * g) by (nonlinear_arith);
    }
}

/// The numerator and denominator of `n/d` text: digits (with an optional
/// `+`) on both sides of the first `/`, each fitting in `u32`.
pub open spec fn spec_rational_parts(t: Seq<char>) -> Option<(u32, u32)> {
    let k = first_index_of(t, '/');
    if k < 0 {
        None
    } else {
        match (spec_parse_u64(t.subrange(0, k)), spec_parse_u64(t.subrange(k + 1, t.len() as int))) {
            (Some(n), Some(d)) => if n <= u32::MAX && d <= u32::MAX {
                Some((n as u32, d as u32))
            } else {
                None
            },
            _ => None,
        }
    }
}

/// The fact a probe value gives: absent (`None`), a value that is not text
/// (`Some(None)`), or text (`Some(Some(t))`). Text `n/d` with nonzero parts
/// is the reduced fraction; anything else present is malformed.
pub open spec fn spec_rational_fact(value: Option<Option<Seq<char>>>) -> Option<VideoRationalFact> {
    match value {
        None => None,
        Some(None) => Some(VideoRationalFact::Malformed),
        Some(Some(t)) => match spec_rational_parts(t) {
            Some((n, d)) => if n == 0 || d == 0 {
                Some(VideoRationalFact::Malformed)
            } else {
                let g = spec_gcd(n as nat, d as nat);
                Some(
                    VideoRationalFact::Exact {
                        numerator: (n as nat / g) as u32,
                        denominator: (d as nat / g) as u32,
                    },
                )
            },
            None => Some(VideoRationalFact::Malformed),
        },
    }
}

/// An optional optional string slice as values.
pub open spec fn opt_text(v: Option<Option<&str>>) -> Option<Option<Seq<char>>> {
    match v {
        None => None,
        Some(None) => Some(None),
        Some(Some(t)) => Some(Some(t@)),
    }
}

/// Parses `n/d` into its two parts.
fn rational_parts(t: &str) -> (r: Option<(u32, u32)>)
    ensures
        r == spec_rational_parts(t@),
{
    let k = match find_char(t, '/') {
        Some(k) => k,
        None => {
            proof {
                lemma_first_index_of(t@, '/');
            }
            return None;
        },
    };
    proof {
        lemma_first_index_of(t@, '/');
    }
    let n = t.unicode_len();
    let left = t.substring_char(0, k);
    let right = t.substring_char(k + 1, n);
    match (parse_u64(left), parse_u64(right)) {
        (Some(a), Some(b)) => if a <= 0xffff_ffffu64 && b <= 0xffff_ffffu64 {
            Some((a as u32, b as u32))
        } else {
            None
        },
        _ => None,
    }
}

/// The rational fact a probe value gives (see `spec_rational_fact`).
pub fn rational_fact(value: Option<Option<&str>>) -> (r: Option<VideoRationalFact>)
    ensures
        r == spec_rational_fact(opt_text(value)),
        r matches Some(VideoRationalFact::Exact { numerator, denominator }) ==> numerator > 0
            && denominator > 0,
{
    let text = match value {
        None => return None,
        Some(None) => return Some(VideoRationalFact::Malformed),
        Some(Some(t)) => t,
    };
    match rational_parts(text) {
        Some((n, d)) => {
            if n == 0 || d == 0 {
                return Some(VideoRationalFact::Malformed);
            }
            let g = gcd(n, d);
            proof {
                lemma_gcd_divides(n as nat, d as nat);
                vstd::arithmetic::div_mod::lemma_div_is_ordered_by_denominator(n as int, 1, g as int);
                vstd::arithmetic::div_mod::lemma_div_is_ordered_by_denominator(d as int, 1, g as int);
                vstd::arithmetic::div_mod::lemma_fundamental_div_mod(n as int, g as int);
                vstd::arithmetic::div_mod::lemma_fundamental_div_mod(d as int, g as int);
                assert(n as int / g as int > 0) by (nonlinear_arith)
                    requires
                        n as int == g as int * (n as int / g as int) + 0,
                        n > 0,
                        g > 0,
                ;
                assert(d as int / g as int > 0) by (nonlinear_arith)
                    requires
                        d as int == g as int * (d as int / g as int) + 0,
                        d > 0,
                        g > 0,
                ;
            }
            Some(VideoRationalFact::Exact { numerator: n / g, denominator: d / g })
        },
        None => Some(VideoRationalFact::Malformed),
    }
}

/// The largest millisecond count a JavaScript client represents exactly.
pub const MAX_SAFE_INTEGER_MS: u64 = 9_007_199_254_740_991;

/// A stream duration from its tick count and time base: `ticks × num ×
/// 1000 / den` whole milliseconds, when that is positive and at most
/// `MAX_SAFE_INTEGER_MS`.
pub open spec fn spec_ticks_duration_ms(ticks: i64, time_base: Option<VideoRationalFact>) -> Option<
    u64,
> {
    match time_base {
        Some(VideoRationalFact::Exact { numerator, denominator }) => {
            let p = ticks * numerator * 1000;
            if denominator == 0 || p <= 0 {
                None
            } else {
                let q = p / (denominator as int);
                if 0 < q <= MAX_SAFE_INTEGER_MS {
                    Some(q as u64)
                } else {
                    None
                }
            }
        },
        _ => None,
    }
}

/// A stream duration from its tick count and time base.
pub fn ticks_duration_ms(ticks: i64, time_base: Option<VideoRationalFact>) -> (r: Option<u64>)
    ensures
        r == spec_ticks_duration_ms(ticks, time_base),
{
    let (n, d) = match time_base {
        Some(VideoRationalFact::Exact { numerator, denominator }) => (numerator, denominator),
        _ => return None,
    };
    if d == 0 || ticks <= 0 || n == 0 {
        proof {
            if ticks <= 0 {
                assert(ticks * n * 1000 <= 0) by (nonlinear_arith)
                    requires
                        ticks <= 0,
                        n >= 0,
                ;
            }
            if n == 0 {
                assert(ticks * n * 1000 == 0) by (nonlinear_arith)
                    requires
                        n == 0,
                ;
            }
        }
        return None;
    }
    let t = ticks as u128;
    assert(t * (n as u128) * 1000 <= 0x8000_0000_0000_0000u128 * 0x1_0000_0000u128 * 1000)
        by (nonlinear_arith)
        requires
            t <= 0x8000_0000_0000_0000u128,
            n <= 0xffff_ffffu32,
    ;
    let p: u128 = t * (n as u128) * 1000;
    assert(p as int == ticks * n * 1000);
    let q: u128 = p / (d as u128);
    if q == 0 || q > 9_007_199_254_740_991u128 {
        return None;
    }
    Some(q as u64)
}

// ---------------------------------------------------------------------------
// Display rotation
// ---------------------------------------------------------------------------

/// The rotation a rotation value records, normalised into `0..360`, when it
/// is an `i32` multiple of 90 degrees.
pub open spec fn spec_recorded_rotation(angle: Option<i64>) -> Option<i32> {
    match angle {
        Some(n) => if i32::MIN <= n <= i32::MAX && (n as int) % 90 == 0 {
            Some(((n as int) % 360) as i32)
        } else {
            None
        },
        None => None,
    }
}

/// Normalises one rotation value, or `None` when it is not an `i32`
/// multiple of 90 degrees (which makes the stream's rotation ambiguous).
pub fn recorded_rotation(angle: Option<i64>) -> (r: Option<i32>)
    ensures
        r == spec_recorded_rotation(angle),
{
    match angle {
        Some(n) => {
            if n < -2147483648i64 || n > 2147483647i64 {
                return None;
            }
            let m = n as i32;
            if crate::video_options::rem_euclid(m, 90) != 0 {
                return None;
            }
            Some(crate::video_options::rem_euclid(m, 360))
        },
        None => None,
    }
}

/// Whether two neighbouring recorded rotations differ.
pub open spec fn rotations_disagree(r: Seq<i32>) -> bool {
    exists|i: int| 0 <= i < r.len() - 1 && r[i] != #[trigger] r[i + 1]
}

/// A stream's display rotation and whether it is ambiguous, from the
/// rotations recorded in order and whether any value was unusable: the
/// first rotation, ambiguous when a value was unusable or two neighbours
/// disagree.
pub fn rotation_summary(rotations: &Vec<i32>, unusable: bool) -> (r: (Option<i32>, bool))
    ensures
        r.0 == (if rotations@.len() > 0 {
            Some(rotations@[0])
        } else {
            None
        }),
        r.1 == (unusable || rotations_disagree(rotations@)),
{
    if rotations.len() == 0 {
        return (None, unusable);
    }
    let mut disagree = false;
    let mut i: usize = 1;
    while i < rotations.len()
        invariant
            1 <= i <= rotations@.len(),
            disagree == exists|j: int| 0 <= j < i - 1 && rotations@[j] != #[trigger] rotations@[j + 1],
        decreases rotations@.len() - i,
    {
        if rotations[i - 1] != rotations[i] {
            disagree = true;
        }
        proof {
            if !disagree {
                assert forall|j: int| 0 <= j < i implies !(rotations@[j] != #[trigger] rotations@[j
                    + 1]) by {
                    if j == i - 1 {
                    } else {
                        assert(!(rotations@[j] != rotations@[j + 1]));
                    }
                }
            } else {
                if rotations@[i - 1] != rotations@[i as int] {
                    assert(rotations@[(i - 1) as int] != rotations@[(i - 1) + 1]);
                }
            }
        }
        i = i + 1;
    }
    proof {
        assert(i == rotations@.len());
        assert(disagree == rotations_disagree(rotations@));
    }
    let first = if rotations.len() > 0 {
        Some(rotations[0])
    } else {
        None
    };
    (first, unusable || disagree)
}

// ---------------------------------------------------------------------------
// Streams and source kind
// ---------------------------------------------------------------------------

/// One stream as ffprobe lists it.
#[derive(Debug, Clone, PartialEq, Eq)]
pub struct ProbedStream {
    pub codec_type: Option<String>,
    pub codec_name: Option<String>,
    pub width: Option<u32>,
    pub height: Option<u32>,
}

/// The format-level facts and the streams of one probe. The duration is
/// already in whole milliseconds and the size is the text ffprobe gave.
#[derive(Debug, Clone, PartialEq, Eq)]
pub struct ProbeFacts {
    pub duration_ms: u64,
    pub size: Option<String>,
    pub format_name: Option<String>,
    pub streams: Vec<ProbedStream>,
}

/// Whether a stream has the codec type `t`.
pub open spec fn has_type(s: ProbedStream, t: Seq<char>) -> bool {
    opt_string(s.codec_type) == Some(t)
}

/// The position of the first stream of type `t`.
pub open spec fn first_of_type(s: Seq<ProbedStream>, t: Seq<char>) -> Option<int>
    decreases s.len(),
{
    if s.len() == 0 {
        None
    } else {
        match first_of_type(s.drop_last(), t) {
            Some(i) => Some(i),
            None => if has_type(s.last(), t) {
                Some(s.len() - 1)
            } else {
                None
            },
        }
    }
}

/// The first stream of a type lies within the list.
pub proof fn lemma_first_of_type_bounds(s: Seq<ProbedStream>, t: Seq<char>)
    ensures
        first_of_type(s, t) matches Some(i) ==> 0 <= i < s.len() && has_type(s[i], t),
    decreases s.len(),
{
    if s.len() > 0 {
        lemma_first_of_type_bounds(s.drop_last(), t);
    }
}

/// The codec names of the streams of type `t`, in order, empty for a
/// missing name.
pub open spec fn codecs_of_type(s: Seq<ProbedStream>, t: Seq<char>) -> Seq<Seq<char>>
    decreases s.len(),
{
    if s.len() == 0 {
        Seq::empty()
    } else {
        let rest = codecs_of_type(s.drop_last(), t);
        if has_type(s.last(), t) {
            rest.push(
                match opt_string(s.last().codec_name) {
                    Some(c) => c,
                    None => Seq::empty(),
                },
            )
        } else {
            rest
        }
    }
}

/// A source's kind is decided by its richest stream: video, then audio,
/// then a bare subtitle; a probe with none of them is treated as video.
pub open spec fn spec_source_kind(s: Seq<ProbedStream>) -> SourceKind {
    if first_of_type(s, "video"@) is Some {
        SourceKind::Video
    } else if first_of_type(s, "audio"@) is Some {
        SourceKind::Audio
    } else if codecs_of_type(s, "subtitle"@).len() > 0 {
        SourceKind::Subtitle
    } else {
        SourceKind::Video
    }
}

/// A field of the stream at an optional position.
pub open spec fn stream_field(s: Seq<ProbedStream>, k: Option<int>, which: int) -> Option<u32> {
    match k {
        Some(i) => if which == 0 {
            s[i].width
        } else {
            s[i].height
        },
        None => None,
    }
}

/// The codec name of the stream at an optional position.
pub open spec fn stream_codec(s: Seq<ProbedStream>, k: Option<int>) -> Option<Seq<char>> {
    match k {
        Some(i) => opt_string(s[i].codec_name),
        None => None,
    }
}

/// Whether `r` is the probe result of `f`, given the stream inventory
/// `details` that was established for a video source.
pub open spec fn is_probe_result_of(
    r: ProbeResult,
    f: ProbeFacts,
    details: Option<VideoProbeDetails>,
) -> bool {
    let s = f.streams@;
    let v = first_of_type(s, "video"@);
    let a = first_of_type(s, "audio"@);
    &&& r.video_details == (if v is Some {
        details
    } else {
        None
    })
    &&& r.duration_ms == f.duration_ms
    &&& r.width == stream_field(s, v, 0)
    &&& r.height == stream_field(s, v, 1)
    &&& opt_string(r.video_codec) == stream_codec(s, v)
    &&& opt_string(r.audio_codec) == stream_codec(s, a)
    &&& r.file_size == (match f.size {
        Some(t) => match spec_parse_u64(t@) {
            Some(n) => n,
            None => 0,
        },
        None => 0,
    })
    &&& opt_string(r.container) == opt_string(f.format_name)
    &&& r.has_video == v is Some
    &&& r.has_audio == a is Some
    &&& r.source_kind == spec_source_kind(s)
    &&& r.color_space is None
    &&& r.image_format is None
    &&& r.has_subtitles == (codecs_of_type(s, "subtitle"@).len() > 0)
    &&& views(r.subtitle_codecs@) == codecs_of_type(s, "subtitle"@)
    &&& views(r.audio_codecs@) == codecs_of_type(s, "audio"@)
    &&& r.image_has_alpha is None
    &&& r.audio_details is None
    &&& r.track_inventory is None
}

/// Whether a stream's codec type is `t`.
fn stream_has_type(s: &ProbedStream, t: &str) -> (r: bool)
    ensures
        r == has_type(*s, t@),
{
    match &s.codec_type {
        Some(c) => str_eq(c.as_str(), t),
        None => false,
    }
}

/// The first stream of type `t` and the codec names of all of them.
fn scan_type(s: &Vec<ProbedStream>, t: &str) -> (r: (Option<usize>, Vec<String>))
    ensures
        match r.0 {
            Some(i) => first_of_type(s@, t@) == Some(i as int),
            None => first_of_type(s@, t@) is None,
        },
        views(r.1@) == codecs_of_type(s@, t@),
{
    let mut first: Option<usize> = None;
    let mut codecs: Vec<String> = Vec::new();
    let mut i: usize = 0;
    while i < s.len()
        invariant
            i <= s@.len(),
            match first {
                Some(k) => first_of_type(s@.take(i as int), t@) == Some(k as int),
                None => first_of_type(s@.take(i as int), t@) is None,
            },
            views(codecs@) == codecs_of_type(s@.take(i as int), t@),
        decreases s@.len() - i,
    {
        proof {
            assert(s@.take(i + 1).drop_last() =~= s@.take(i as int));
            assert(s@.take(i + 1).last() == s@[i as int]);
        }
        if stream_has_type(&s[i], t) {
            if first.is_none() {
                first = Some(i);
            }
            let name = match &s[i].codec_name {
                Some(c) => c.clone(),
                None => crate::text::owned(""),
            };
            proof {
                reveal_strlit("");
                assert(""@ =~= Seq::<char>::empty());
            }
            let ghost before = codecs@;
            codecs.push(name);
            proof {
                assert(views(codecs@) =~= views(before).push(name@));
            }
        }
        i = i + 1;
    }
    assert(s@.take(s@.len() as int) =~= s@);
    (first, codecs)
}

/// Builds the probe result of a source from ffprobe's facts; `details` is
/// the complete stream inventory, kept only for a source with video.
pub fn probe_result(facts: &ProbeFacts, details: Option<VideoProbeDetails>) -> (r: ProbeResult)
    ensures
        is_probe_result_of(r, *facts, details),
{
    let (video, _) = scan_type(&facts.streams, "video");
    let (audio, audio_codecs) = scan_type(&facts.streams, "audio");
    proof {
        lemma_first_of_type_bounds(facts.streams@, "video"@);
        lemma_first_of_type_bounds(facts.streams@, "audio"@);
    }
    let (_, subtitle_codecs) = scan_type(&facts.streams, "subtitle");
    let has_video = video.is_some();
    let has_audio = audio.is_some();
    let has_subtitles = subtitle_codecs.len() > 0;
    let source_kind = if has_video {
        SourceKind::Video
    } else if has_audio {
        SourceKind::Audio
    } else if has_subtitles {
        SourceKind::Subtitle
    } else {
        SourceKind::Video
    };
    let (width, height, video_codec) = match video {
        Some(i) => (
            facts.streams[i].width,
            facts.streams[i].height,
            crate::video_options::clone_opt_string(&facts.streams[i].codec_name),
        ),
        None => (None, None, None),
    };
    let audio_codec = match audio {
        Some(i) => crate::video_options::clone_opt_string(&facts.streams[i].codec_name),
        None => None,
    };
    let file_size = match &facts.size {
        Some(t) => match parse_u64(t.as_str()) {
            Some(n) => n,
            None => 0,
        },
        None => 0,
    };
    ProbeResult {
        video_details: if has_video {
            details
        } else {
            None
        },
        duration_ms: facts.duration_ms,
        width,
        height,
        video_codec,
        audio_codec,
        file_size,
        container: crate::video_options::clone_opt_string(&facts.format_name),
        has_video,
        has_audio,
        source_kind,
        color_space: None,
        image_format: None,
        has_subtitles,
        subtitle_codecs,
        audio_codecs,
        image_has_alpha: None,
        audio_details: None,
        track_inventory: None,
    }
}

/// Whether `r` is the probe result of a still image of `width`×`height`
/// in an sRGB working space.
pub open spec fn is_image_probe_result(
    r: ProbeResult,
    width: u32,
    height: u32,
    image_format: Option<String>,
    image_has_alpha: Option<bool>,
    file_size: u64,
) -> bool {
    &&& r.video_details is None
    &&& r.duration_ms == 0
    &&& r.width == Some(width)
    &&& r.height == Some(height)
    &&& r.video_codec is None
    &&& r.audio_codec is None
    &&& r.file_size == file_size
    &&& r.container is None
    &&& !r.has_video
    &&& !r.has_audio
    &&& r.source_kind == SourceKind::Image
    &&& opt_string(r.color_space) == Some("sRGB"@)
    &&& r.image_format == image_format
    &&& !r.has_subtitles
    &&& r.subtitle_codecs@.len() == 0
    &&& r.audio_codecs@.len() == 0
    &&& r.image_has_alpha == image_has_alpha
    &&& r.audio_details is None
    &&& r.track_inventory is None
}

/// The probe result of a still image.
pub fn image_probe_result(
    dimensions: (u32, u32),
    image_format: Option<String>,
    image_has_alpha: Option<bool>,
    file_size: u64,
) -> (r: ProbeResult)
    ensures
        is_image_probe_result(r, dimensions.0, dimensions.1, image_format, image_has_alpha, file_size),
{
    ProbeResult {
        video_details: None,
        duration_ms: 0,
        width: Some(dimensions.0),
        height: Some(dimensions.1),
        video_codec: None,
        audio_codec: None,
        file_size,
        container: None,
        has_video: false,
        has_audio: false,
        source_kind: SourceKind::Image,
        color_space: Some(crate::text::owned("sRGB")),
        image_format,
        has_subtitles: false,
        subtitle_codecs: Vec::new(),
        audio_codecs: Vec::new(),
        image_has_alpha,
        audio_details: None,
        track_inventory: None,
    }
}

// ---------------------------------------------------------------------------
// Display rotation of one stream
// ---------------------------------------------------------------------------

/// A stream's `tags` as far as rotation goes: absent, not an object, or an
/// object with a `rotate` tag (absent, or present with its angle if it
/// reads as an integer).
#[derive(Debug, Clone, PartialEq, Eq)]
pub enum RotationTags {
    Absent,
    NotObject,
    Object { rotate: Option<Option<i64>> },
}

/// One entry of a stream's side data: whether it is a display matrix, its
/// `rotation` (absent, or present with its angle if it reads as an
/// integer) and its `displaymatrix` text (absent, or present and text or
/// not).
#[derive(Debug, Clone, PartialEq, Eq)]
pub struct SideDataItem {
    pub is_display_matrix: bool,
    pub rotation: Option<Option<i64>>,
    pub display_matrix: Option<Option<String>>,
}

/// A stream's `side_data_list`: absent, not an array, or its entries.
#[derive(Debug, Clone, PartialEq, Eq)]
pub enum SideDataFacts {
    Absent,
    NotArray,
    Items(Vec<SideDataItem>),
}

/// The angles the side-data entries record, in order.
pub open spec fn item_angles(items: Seq<SideDataItem>) -> Seq<Option<i64>>
    decreases items.len(),
{
    if items.len() == 0 {
        Seq::empty()
    } else {
        item_angles(items.drop_last()) + match items.last().rotation {
            Some(a) => seq![a],
            None => Seq::empty(),
        }
    }
}

/// Whether a side-data entry contradicts its own rotation: a display
/// matrix without a rotation or without matrix text, or matrix text that
/// is not the rotation's matrix.
pub open spec fn item_mismatch(it: SideDataItem) -> bool {
    match it.rotation {
        Some(a) => match it.display_matrix {
            Some(m) => !crate::display_matrix::spec_valid_display_matrix(opt_string(m), a),
            None => it.is_display_matrix,
        },
        None => it.is_display_matrix,
    }
}

/// Every angle a stream records: its `rotate` tag, then each side-data
/// rotation.
pub open spec fn all_angles(t: RotationTags, s: SideDataFacts) -> Seq<Option<i64>> {
    (match t {
        RotationTags::Object { rotate: Some(a) } => seq![a],
        _ => Seq::empty(),
    }) + match s {
        SideDataFacts::Items(v) => item_angles(v@),
        _ => Seq::empty(),
    }
}

/// Whether the side data is unusable or contradicts itself.
pub open spec fn side_mismatch(s: SideDataFacts) -> bool {
    match s {
        SideDataFacts::Absent => false,
        SideDataFacts::NotArray => true,
        SideDataFacts::Items(v) => exists|i: int| 0 <= i < v@.len() && item_mismatch(#[trigger] v@[i]),
    }
}

/// The rotations the recorded angles give, in order, skipping those that
/// give none.
pub open spec fn recorded_rotations(a: Seq<Option<i64>>) -> Seq<i32>
    decreases a.len(),
{
    if a.len() == 0 {
        Seq::empty()
    } else {
        recorded_rotations(a.drop_last()) + match spec_recorded_rotation(a.last()) {
            Some(r) => seq![r],
            None => Seq::empty(),
        }
    }
}

/// Whether some recorded angle gives no rotation.
pub open spec fn angles_unusable(a: Seq<Option<i64>>) -> bool {
    exists|i: int| 0 <= i < a.len() && spec_recorded_rotation(#[trigger] a[i]) is None
}

/// A stream's display rotation and whether it is ambiguous: the first
/// recorded rotation; ambiguous when the tags are not an object, an angle
/// gives no rotation, the side data contradicts itself, or two recorded
/// rotations differ.
pub open spec fn spec_stream_rotation(t: RotationTags, s: SideDataFacts) -> (Option<i32>, bool) {
    let a = all_angles(t, s);
    let r = recorded_rotations(a);
    (
        if r.len() > 0 {
            Some(r[0])
        } else {
            None
        },
        t is NotObject || angles_unusable(a) || side_mismatch(s) || rotations_disagree(r),
    )
}

fn side_angles_and_mismatch(items: &Vec<SideDataItem>, angles: &mut Vec<Option<i64>>) -> (r: bool)
    ensures
        final(angles)@ == old(angles)@ + item_angles(items@),
        r == (exists|i: int| 0 <= i < items@.len() && item_mismatch(#[trigger] items@[i])),
{
    let ghost start = angles@;
    let mut mismatch = false;
    let mut i: usize = 0;
    while i < items.len()
        invariant
            i <= items@.len(),
            angles@ == start + item_angles(items@.take(i as int)),
            mismatch == (exists|j: int| 0 <= j < i && item_mismatch(#[trigger] items@[j])),
        decreases items@.len() - i,
    {
        proof {
            assert(items@.take(i + 1).drop_last() =~= items@.take(i as int));
        }
        let it = &items[i];
        let m = match it.rotation {
            Some(a) => {
                angles.push(a);
                match &it.display_matrix {
                    Some(text) => {
                        let t: Option<&str> = match text {
                            Some(x) => Some(x.as_str()),
                            None => None,
                        };
                        !crate::display_matrix::valid_display_matrix(t, a)
                    },
                    None => it.is_display_matrix,
                }
            },
            None => it.is_display_matrix,
        };
        proof {
            assert(angles@ =~= start + item_angles(items@.take(i + 1)));
            if m {
                assert(item_mismatch(items@[i as int]));
            }
        }
        mismatch = mismatch || m;
        i = i + 1;
    }
    assert(items@.take(items@.len() as int) =~= items@);
    mismatch
}

/// A stream's display rotation and whether it is ambiguous.
pub fn stream_rotation(tags: &RotationTags, side_data: &SideDataFacts) -> (r: (Option<i32>, bool))
    ensures
        r == spec_stream_rotation(*tags, *side_data),
{
    let mut angles: Vec<Option<i64>> = Vec::new();
    match tags {
        RotationTags::Object { rotate: Some(a) } => angles.push(*a),
        _ => {},
    }
    let ghost tag_part = angles@;
    let mismatch = match side_data {
        SideDataFacts::Absent => false,
        SideDataFacts::NotArray => true,
        SideDataFacts::Items(v) => side_angles_and_mismatch(v, &mut angles),
    };
    assert(angles@ =~= all_angles(*tags, *side_data));
    let mut rotations: Vec<i32> = Vec::new();
    let mut unusable = false;
    let mut i: usize = 0;
    while i < angles.len()
        invariant
            i <= angles@.len(),
            rotations@ == recorded_rotations(angles@.take(i as int)),
            unusable == (exists|j: int|
                0 <= j < i && spec_recorded_rotation(#[trigger] angles@[j]) is None),
        decreases angles@.len() - i,
    {
        proof {
            assert(angles@.take(i + 1).drop_last() =~= angles@.take(i as int));
        }
        match recorded_rotation(angles[i]) {
            Some(r) => {
                rotations.push(r);
            },
            None => {
                unusable = true;
            },
        }
        proof {
            assert(rotations@ =~= recorded_rotations(angles@.take(i + 1)));
        }
        i = i + 1;
    }
    assert(angles@.take(angles@.len() as int) =~= angles@);
    let not_object = match tags {
        RotationTags::NotObject => true,
        _ => false,
    };
    rotation_summary(&rotations, not_object || unusable || mismatch)
}

/// A stream's index and attached-picture flag: refused (`None`) when the
/// index is missing or beyond 32 bits, or the flag is missing or not 0 or 1.
pub open spec fn spec_stream_identity(index: Option<u64>, attached_pic: Option<u64>) -> Option<(u32, bool)> {
    match (index, attached_pic) {
        (Some(i), Some(a)) => if i <= u32::MAX && a <= 1 {
            Some((i as u32, a == 1))
        } else {
            None
        },
        _ => None,
    }
}

/// A stream's index and whether it is an attached picture.
pub fn stream_identity(index: Option<u64>, attached_pic: Option<u64>) -> (r: Option<(u32, bool)>)
    ensures
        r == spec_stream_identity(index, attached_pic),
{
    match (index, attached_pic) {
        (Some(i), Some(a)) => if i <= 0xffff_ffffu64 && a <= 1 {
            Some((i as u32, a == 1))
        } else {
            None
        },
        _ => None,
    }
}

} // verus!
