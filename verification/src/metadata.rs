//! JPEG and PNG metadata: the container a path names, a bounded structural
//! pre-scan of JPEG segments, strict EXIF / ICC extraction from parsed
//! segments, ICC header validation, and the per-policy metadata plan.
use vstd::prelude::*;
use crate::error::GoopError;
use crate::paths::{path_extension, spec_path_extension};
use crate::text::{ascii_lower_seq, decimal, decimal_string, owned, push_str, str_eq, to_ascii_lowercase};

verus! {

broadcast use vstd::string::group_string_axioms;

// ---------------------------------------------------------------------------
// Containers
// ---------------------------------------------------------------------------

/// The container family of an image path, by extension.
#[derive(Debug, Clone, Copy, PartialEq, Eq, Structural)]
pub enum Container {
    Jpeg,
    Png,
    Other,
}

/// The container a lower-cased extension names.
pub open spec fn spec_container_of_ext(ext: Seq<char>) -> Container {
    if ext == "jpg"@ || ext == "jpeg"@ {
        Container::Jpeg
    } else if ext == "png"@ {
        Container::Png
    } else {
        Container::Other
    }
}

/// The container of a path: JPEG for `.jpg`/`.jpeg`, PNG for `.png` (in any
/// ASCII case), otherwise Other.
pub open spec fn spec_container_of(path: Seq<char>) -> Container {
    match spec_path_extension(path) {
        Some(ext) => spec_container_of_ext(ascii_lower_seq(ext)),
        None => Container::Other,
    }
}

/// The container of a path ignores the ASCII case of its extension: two paths
/// whose extensions agree once lower-cased have the same container, an
/// extension that lower-cases to `jpg` or `jpeg` names JPEG, one that
/// lower-cases to `png` names PNG, and a path without an extension names
/// neither.
pub proof fn lemma_container_ignores_extension_case(p: Seq<char>, q: Seq<char>)
    ensures
        (spec_path_extension(p) matches Some(e) && spec_path_extension(q) matches Some(f)
            && ascii_lower_seq(e) == ascii_lower_seq(f)) ==> spec_container_of(p)
            == spec_container_of(q),
        (spec_path_extension(p) matches Some(e) && (ascii_lower_seq(e) == "jpg"@
            || ascii_lower_seq(e) == "jpeg"@)) ==> spec_container_of(p) == Container::Jpeg,
        (spec_path_extension(p) matches Some(e) && ascii_lower_seq(e) == "png"@)
            ==> spec_container_of(p) == Container::Png,
        spec_path_extension(p) is None ==> spec_container_of(p) == Container::Other,
{
    reveal_strlit("png");
    reveal_strlit("jpg");
    reveal_strlit("jpeg");
    assert("png"@[0] != "jpg"@[0]);
    assert("png"@.len() != "jpeg"@.len());
}

/// Categorizes a file path by container format.
pub fn container_of(path: &str) -> (c: Container)
    ensures
        c == spec_container_of(path@),
{
    let ext = match path_extension(path) {
        Some(e) => to_ascii_lowercase(e.as_str()),
        None => return Container::Other,
    };
    let e = ext.as_str();
    if str_eq(e, "jpg") || str_eq(e, "jpeg") {
        Container::Jpeg
    } else if str_eq(e, "png") {
        Container::Png
    } else {
        Container::Other
    }
}

/// What metadata a conversion keeps.
#[derive(Debug, Clone, Copy, PartialEq, Eq, Hash, Structural)]
pub enum MetadataPolicy {
    /// Copy EXIF and ICC data from the source.
    Preserve,
    /// Drop EXIF; keep colour only where it is verified safe.
    RemovePersonal,
    /// Drop all metadata.
    StripAll,
}

/// What `apply` does before touching any file.
#[derive(Debug, Clone, PartialEq, Eq)]
pub enum ApplyDecision {
    /// Nothing to do: the result is `Ok(true)`.
    Done,
    /// The container pair is unsupported: the result is `Ok(false)`.
    Unsupported,
    /// Copy the source's metadata into the output of this container.
    Copy(Container),
    /// Refuse with this error.
    Refuse(GoopError),
}

/// The decision `apply` takes from the policy and the two containers.
pub open spec fn spec_apply_decision(
    policy: MetadataPolicy,
    input: Container,
    output: Container,
) -> ApplyDecision {
    match policy {
        MetadataPolicy::StripAll => ApplyDecision::Done,
        MetadataPolicy::RemovePersonal => ApplyDecision::Refuse(
            GoopError::InvalidRequest(arbitrary()),
        ),
        MetadataPolicy::Preserve => if input != output || input is Other {
            ApplyDecision::Unsupported
        } else {
            ApplyDecision::Copy(output)
        },
    }
}

/// Whether a path's extension, lower-cased, is `jpg` or `jpeg`.
pub open spec fn has_jpeg_extension(p: Seq<char>) -> bool {
    spec_path_extension(p) matches Some(e) && (ascii_lower_seq(e) == "jpg"@ || ascii_lower_seq(e)
        == "jpeg"@)
}

/// Whether a path's extension, lower-cased, is `png`.
pub open spec fn has_png_extension(p: Seq<char>) -> bool {
    spec_path_extension(p) matches Some(e) && ascii_lower_seq(e) == "png"@
}

/// Preserving metadata copies it between two JPEG files or two PNG files,
/// whatever the case of their extensions, and between no other pair:
/// JPEG to PNG, PNG to JPEG, or anything involving another container is
/// unsupported. Stripping needs no work, and removing personal data is
/// refused here.
pub proof fn lemma_preserve_copies_between_like_images(input: Seq<char>, output: Seq<char>)
    ensures
        (has_jpeg_extension(input) && has_jpeg_extension(output)) ==> spec_apply_decision(
            MetadataPolicy::Preserve,
            spec_container_of(input),
            spec_container_of(output),
        ) == ApplyDecision::Copy(Container::Jpeg),
        (has_png_extension(input) && has_png_extension(output)) ==> spec_apply_decision(
            MetadataPolicy::Preserve,
            spec_container_of(input),
            spec_container_of(output),
        ) == ApplyDecision::Copy(Container::Png),
        (has_jpeg_extension(input) && has_png_extension(output)) || (has_png_extension(input)
            && has_jpeg_extension(output)) || (!has_jpeg_extension(input) && !has_png_extension(
            input,
        )) ==> spec_apply_decision(
            MetadataPolicy::Preserve,
            spec_container_of(input),
            spec_container_of(output),
        ) == ApplyDecision::Unsupported,
        spec_apply_decision(MetadataPolicy::StripAll, spec_container_of(input), spec_container_of(output))
            == ApplyDecision::Done,
        spec_apply_decision(
            MetadataPolicy::RemovePersonal,
            spec_container_of(input),
            spec_container_of(output),
        ) is Refuse,
{
    lemma_container_ignores_extension_case(input, output);
    lemma_container_ignores_extension_case(output, input);
}

/// Decides how metadata is applied for `policy` from `input_path` to
/// `output_path`: StripAll needs nothing (the encoders already strip),
/// RemovePersonal is refused (it needs the verified JPEG path), and Preserve
/// copies only between two JPEGs or two PNGs.
pub fn apply_decision(policy: MetadataPolicy, input_path: &str, output_path: &str) -> (d:
    ApplyDecision)
    ensures
        match (d, spec_apply_decision(
            policy,
            spec_container_of(input_path@),
            spec_container_of(output_path@),
        )) {
            (ApplyDecision::Refuse(e), ApplyDecision::Refuse(_)) => e matches GoopError::InvalidRequest(
                m,
            ) && m@ == "Remove personal data requires the verified JPEG rendering path"@,
            (x, y) => x == y,
        },
{
    match policy {
        MetadataPolicy::StripAll => ApplyDecision::Done,
        MetadataPolicy::RemovePersonal => ApplyDecision::Refuse(
            GoopError::InvalidRequest(
                owned("Remove personal data requires the verified JPEG rendering path"),
            ),
        ),
        MetadataPolicy::Preserve => {
            let input = container_of(input_path);
            let output = container_of(output_path);
            if input != output || input == Container::Other {
                ApplyDecision::Unsupported
            } else {
                ApplyDecision::Copy(output)
            }
        },
    }
}

// ---------------------------------------------------------------------------
// Errors
// ---------------------------------------------------------------------------

/// The prefix of every metadata refusal.
pub open spec fn metadata_prefix() -> Seq<char> {
    "Cannot safely process JPEG metadata: "@
}

/// Whether `e` is the metadata refusal carrying `detail`.
pub open spec fn is_metadata_error(e: GoopError, detail: Seq<char>) -> bool {
    e matches GoopError::InvalidRequest(m) && m@ == metadata_prefix() + detail
}

/// A metadata refusal carrying `detail`.
pub fn metadata_invalid(detail: &str) -> (e: GoopError)
    ensures
        is_metadata_error(e, detail@),
{
    let mut m = owned("Cannot safely process JPEG metadata: ");
    push_str(&mut m, detail);
    GoopError::InvalidRequest(m)
}

// ---------------------------------------------------------------------------
// Segment pre-scan
// ---------------------------------------------------------------------------

/// The number of segments the pre-scan admits.
pub const MAX_JPEG_SEGMENTS: u64 = 16_384;

/// Markers followed by a two-byte big-endian length.
pub open spec fn spec_has_length(marker: u8) -> bool {
    (0xc0 <= marker <= 0xcf) || (0xd0 <= marker <= 0xd7) || marker == 0xda || marker == 0xdb
        || marker == 0xdd || (0xe0 <= marker <= 0xef) || marker == 0xfe
}

/// How a pre-scan ends.
#[derive(Debug, Clone, Copy, PartialEq, Eq, Structural)]
pub enum PreflightOutcome {
    /// The structure is sound up to the end-of-image or start-of-scan marker.
    Sound,
    /// The data ends inside a marker or segment.
    Truncated,
    /// More than `MAX_JPEG_SEGMENTS` segments precede the scan.
    TooManySegments,
    /// A segment declares a length below two.
    InvalidLength,
}

/// Scanning for the next marker prefix from `cursor`.
pub open spec fn scan_prefix(b: Seq<u8>, cursor: int, segments: int) -> PreflightOutcome
    decreases b.len() - cursor, 0int,
{
    if cursor < 0 || cursor >= b.len() {
        PreflightOutcome::Truncated
    } else if b[cursor] != 0xff {
        scan_prefix(b, cursor + 1, segments)
    } else {
        scan_marker(b, cursor + 1, segments)
    }
}

/// Reading a marker byte (skipping fill bytes) at `cursor`.
pub open spec fn scan_marker(b: Seq<u8>, cursor: int, segments: int) -> PreflightOutcome
    decreases b.len() - cursor, 1int,
{
    if cursor < 0 || cursor >= b.len() {
        PreflightOutcome::Truncated
    } else if b[cursor] == 0xff {
        scan_marker(b, cursor + 1, segments)
    } else {
        let marker = b[cursor];
        let c = cursor + 1;
        if marker == 0xd9 {
            PreflightOutcome::Sound
        } else if segments + 1 > MAX_JPEG_SEGMENTS {
            PreflightOutcome::TooManySegments
        } else if !spec_has_length(marker) {
            scan_prefix(b, c, segments + 1)
        } else if c + 2 > b.len() {
            PreflightOutcome::Truncated
        } else {
            let length = (b[c] as int) * 256 + (b[c + 1] as int);
            if length < 2 {
                PreflightOutcome::InvalidLength
            } else if c + length > b.len() {
                PreflightOutcome::Truncated
            } else if marker == 0xda {
                PreflightOutcome::Sound
            } else {
                scan_prefix(b, c + length, segments + 1)
            }
        }
    }
}

/// The pre-scan of a byte string: only data starting with a JPEG
/// start-of-image marker is scanned.
pub open spec fn spec_preflight(b: Seq<u8>) -> PreflightOutcome {
    if b.len() >= 2 && b[0] == 0xff && b[1] == 0xd8 {
        scan_prefix(b, 2, 0)
    } else {
        PreflightOutcome::Sound
    }
}

/// The message detail for a pre-scan failure.
pub open spec fn spec_preflight_detail(label: Seq<char>, o: PreflightOutcome) -> Seq<char> {
    match o {
        PreflightOutcome::Sound => Seq::empty(),
        PreflightOutcome::Truncated => label + " is truncated"@,
        PreflightOutcome::TooManySegments => label + " exceeds the "@ + decimal(
            MAX_JPEG_SEGMENTS as nat,
        ) + " segment safety limit"@,
        PreflightOutcome::InvalidLength => label + " has an invalid segment length"@,
    }
}

/// Classifies the structure of `bytes` without parsing segment contents.
pub fn preflight_outcome(bytes: &[u8]) -> (o: PreflightOutcome)
    ensures
        o == spec_preflight(bytes@),
{
    let n = bytes.len();
    if !(n >= 2 && bytes[0] == 0xff && bytes[1] == 0xd8) {
        return PreflightOutcome::Sound;
    }
    let mut cursor: usize = 2;
    let mut segments: u64 = 0;
    let mut in_marker = false;
    loop
        invariant
            n == bytes@.len(),
            n >= 2 && bytes@[0] == 0xff && bytes@[1] == 0xd8,
            cursor <= n,
            segments <= MAX_JPEG_SEGMENTS,
            spec_preflight(bytes@) == (if in_marker {
                scan_marker(bytes@, cursor as int, segments as int)
            } else {
                scan_prefix(bytes@, cursor as int, segments as int)
            }),
        decreases n - cursor,
    {
        if cursor >= n {
            return PreflightOutcome::Truncated;
        }
        let b = bytes[cursor];
        cursor = cursor + 1;
        if !in_marker {
            if b == 0xff {
                in_marker = true;
            }
        } else if b != 0xff {
            let marker = b;
            if marker == 0xd9 {
                return PreflightOutcome::Sound;
            }
            if segments + 1 > MAX_JPEG_SEGMENTS {
                return PreflightOutcome::TooManySegments;
            }
            segments = segments + 1;
            let has_length = (0xc0 <= marker && marker <= 0xcf) || (0xd0 <= marker && marker
                <= 0xd7) || marker == 0xda || marker == 0xdb || marker == 0xdd || (0xe0 <= marker
                && marker <= 0xef) || marker == 0xfe;
            in_marker = false;
            if has_length {
                if cursor > n - 2 {
                    return PreflightOutcome::Truncated;
                }
                let length: usize = (bytes[cursor] as usize) * 256 + (bytes[cursor + 1] as usize);
                if length < 2 {
                    return PreflightOutcome::InvalidLength;
                }
                if length > n - cursor {
                    return PreflightOutcome::Truncated;
                }
                if marker == 0xda {
                    return PreflightOutcome::Sound;
                }
                cursor = cursor + length;
            }
        }
    }
}

/// The pre-scan as a refusal: malformed JPEG structure is refused before
/// any segment parser sees it.
pub fn preflight_jpeg_segments(bytes: &[u8], label: &str) -> (r: Result<(), GoopError>)
    ensures
        r is Ok == (spec_preflight(bytes@) == PreflightOutcome::Sound),
        r matches Err(e) ==> is_metadata_error(e, spec_preflight_detail(label@, spec_preflight(bytes@))),
{
    let o = preflight_outcome(bytes);
    let mut detail = owned(label);
    match o {
        PreflightOutcome::Sound => return Ok(()),
        PreflightOutcome::Truncated => push_str(&mut detail, " is truncated"),
        PreflightOutcome::TooManySegments => {
            push_str(&mut detail, " exceeds the ");
            let limit = decimal_string(MAX_JPEG_SEGMENTS);
            push_str(&mut detail, limit.as_str());
            push_str(&mut detail, " segment safety limit");
        },
        PreflightOutcome::InvalidLength => push_str(&mut detail, " has an invalid segment length"),
    }
    Err(metadata_invalid(detail.as_str()))
}

// ---------------------------------------------------------------------------
// Parsed segments
// ---------------------------------------------------------------------------

/// One JPEG segment: its marker byte and its contents (without the length
/// field and without entropy-coded data).
#[derive(Debug, Clone, PartialEq, Eq)]
pub struct JpegSegment {
    pub marker: u8,
    pub contents: Vec<u8>,
}

/// The plain view of a segment.
pub open spec fn seg_view(s: JpegSegment) -> (u8, Seq<u8>) {
    (s.marker, s.contents@)
}

/// The plain views of a segment list.
pub open spec fn segs_view(v: Seq<JpegSegment>) -> Seq<(u8, Seq<u8>)> {
    v.map_values(|s: JpegSegment| seg_view(s))
}

/// What `img_parts::jpeg::Jpeg::from_bytes` makes of a byte string: its
/// segments, or the text of its error.
pub uninterp spec fn spec_img_parts_jpeg(bytes: Seq<u8>) -> Result<Seq<(u8, Seq<u8>)>, Seq<char>>;

/// `img_parts::jpeg::Jpeg::from_bytes`, with the segments it parsed handed
/// out as plain values.
#[verifier::external_body]
fn img_parts_segments(bytes: &[u8]) -> (r: Result<Vec<JpegSegment>, String>)
    ensures
        match r {
            Ok(v) => spec_img_parts_jpeg(bytes@) == Ok::<Seq<(u8, Seq<u8>)>, Seq<char>>(segs_view(v@)),
            Err(e) => spec_img_parts_jpeg(bytes@) == Err::<Seq<(u8, Seq<u8>)>, Seq<char>>(e@),
        },
{
    match img_parts::jpeg::Jpeg::from_bytes(img_parts::Bytes::copy_from_slice(bytes)) {
        Ok(jpeg) => Ok(
            jpeg.segments().iter().map(
                |s| JpegSegment { marker: s.marker(), contents: s.contents().to_vec() },
            ).collect(),
        ),
        Err(e) => Err(e.to_string()),
    }
}

/// Pre-scans `bytes` and then parses its segments.
pub fn parse_jpeg(bytes: &[u8], label: &str) -> (r: Result<Vec<JpegSegment>, GoopError>)
    ensures
        spec_preflight(bytes@) != PreflightOutcome::Sound ==> (r matches Err(e) && is_metadata_error(
            e,
            spec_preflight_detail(label@, spec_preflight(bytes@)),
        )),
        spec_preflight(bytes@) == PreflightOutcome::Sound ==> match spec_img_parts_jpeg(bytes@) {
            Ok(segs) => (r matches Ok(v) && segs_view(v@) == segs),
            Err(m) => (r matches Err(e) && is_metadata_error(e, label@ + " is malformed: "@ + m)),
        },
{
    preflight_jpeg_segments(bytes, label)?;
    match img_parts_segments(bytes) {
        Ok(v) => Ok(v),
        Err(m) => {
            let mut detail = owned(label);
            push_str(&mut detail, " is malformed: ");
            push_str(&mut detail, m.as_str());
            Err(metadata_invalid(detail.as_str()))
        },
    }
}

/// Start-of-frame markers (excluding DHT, JPG and DAC).
pub open spec fn spec_is_sof(marker: u8) -> bool {
    0xc0 <= marker <= 0xcf && marker != 0xc4 && marker != 0xc8 && marker != 0xcc
}

/// Whether `marker` starts a frame.
pub fn is_sof(marker: u8) -> (r: bool)
    ensures
        r == spec_is_sof(marker),
{
    0xc0 <= marker && marker <= 0xcf && !(marker == 0xc4 || marker == 0xc8 || marker == 0xcc)
}

/// `Exif\0\0`.
pub open spec fn exif_prefix() -> Seq<u8> {
    seq![0x45u8, 0x78u8, 0x69u8, 0x66u8, 0x00u8, 0x00u8]
}

/// `ICC_PROFILE\0`.
pub open spec fn icc_prefix() -> Seq<u8> {
    seq![0x49u8, 0x43u8, 0x43u8, 0x5Fu8, 0x50u8, 0x52u8, 0x4Fu8, 0x46u8, 0x49u8, 0x4Cu8, 0x45u8, 0x00u8]
}

/// Whether `s` starts with `p`.
pub open spec fn starts_with(s: Seq<u8>, p: Seq<u8>) -> bool {
    s.len() >= p.len() && s.take(p.len() as int) == p
}

/// An APP1 segment carrying EXIF data.
pub open spec fn is_exif_segment(s: (u8, Seq<u8>)) -> bool {
    s.0 == 0xe1 && starts_with(s.1, exif_prefix())
}

/// An APP2 segment carrying part of an ICC profile.
pub open spec fn is_icc_segment(s: (u8, Seq<u8>)) -> bool {
    s.0 == 0xe2 && starts_with(s.1, icc_prefix())
}

pub(crate) fn has_exif_prefix(c: &Vec<u8>) -> (r: bool)
    ensures
        r == starts_with(c@, exif_prefix()),
{
    let r = c.len() >= 6 && c[0] == 0x45 && c[1] == 0x78 && c[2] == 0x69 && c[3] == 0x66 && c[4]
        == 0x00 && c[5] == 0x00;
    proof {
        if c@.len() >= 6 {
            if r {
                assert(c@.take(6) =~= exif_prefix());
            } else {
                assert(c@.take(6) != exif_prefix()) by {
                    let t = c@.take(6);
                    assert(exif_prefix()[0] == 0x45u8);
                    if t == exif_prefix() {
                        assert(t[0] == c@[0] && t[1] == c@[1] && t[2] == c@[2] && t[3] == c@[3]
                            && t[4] == c@[4] && t[5] == c@[5]);
                    }
                }
            }
        }
    }
    r
}

pub(crate) fn has_icc_prefix(c: &Vec<u8>) -> (r: bool)
    ensures
        r == starts_with(c@, icc_prefix()),
{
    let r = c.len() >= 12 && c[0] == 0x49 && c[1] == 0x43 && c[2] == 0x43 && c[3] == 0x5F && c[4]
        == 0x50 && c[5] == 0x52 && c[6] == 0x4F && c[7] == 0x46 && c[8] == 0x49 && c[9] == 0x4C
        && c[10] == 0x45 && c[11] == 0x00;
    proof {
        if c@.len() >= 12 {
            if r {
                assert(c@.take(12) =~= icc_prefix());
            } else {
                let t = c@.take(12);
                if t == icc_prefix() {
                    assert(t[0] == c@[0] && t[1] == c@[1] && t[2] == c@[2] && t[3] == c@[3] && t[4]
                        == c@[4] && t[5] == c@[5] && t[6] == c@[6] && t[7] == c@[7] && t[8]
                        == c@[8] && t[9] == c@[9] && t[10] == c@[10] && t[11] == c@[11]);
                }
            }
        }
    }
    r
}

/// The bytes of `c` from `from` on.
fn tail_bytes(c: &Vec<u8>, from: usize) -> (r: Vec<u8>)
    requires
        from <= c@.len(),
    ensures
        r@ == c@.skip(from as int),
{
    let mut out: Vec<u8> = Vec::new();
    let mut i = from;
    while i < c.len()
        invariant
            from <= i <= c@.len(),
            out@ == c@.subrange(from as int, i as int),
        decreases c@.len() - i,
    {
        out.push(c[i]);
        assert(c@.subrange(from as int, i + 1) =~= c@.subrange(from as int, i as int).push(c@[i as int]));
        i = i + 1;
    }
    assert(c@.subrange(from as int, c@.len() as int) =~= c@.skip(from as int));
    out
}

/// Whether any segment is an ICC APP2 segment.
pub open spec fn spec_has_icc_segments(segs: Seq<(u8, Seq<u8>)>) -> bool {
    exists|i: int| 0 <= i < segs.len() && is_icc_segment(#[trigger] segs[i])
}

/// Whether the JPEG carries any ICC APP2 segment.
pub fn has_icc_segments(segs: &Vec<JpegSegment>) -> (r: bool)
    ensures
        r == spec_has_icc_segments(segs_view(segs@)),
{
    let mut i: usize = 0;
    while i < segs.len()
        invariant
            i <= segs@.len(),
            forall|j: int| 0 <= j < i ==> !is_icc_segment(#[trigger] segs_view(segs@)[j]),
        decreases segs@.len() - i,
    {
        if segs[i].marker == 0xe2 && has_icc_prefix(&segs[i].contents) {
            assert(is_icc_segment(segs_view(segs@)[i as int]));
            return true;
        }
        i = i + 1;
    }
    false
}

/// The EXIF payload of the first EXIF segment (`img_parts`' `exif()`).
pub open spec fn spec_first_exif(segs: Seq<(u8, Seq<u8>)>) -> Option<Seq<u8>>
    decreases segs.len(),
{
    if segs.len() == 0 {
        None
    } else if is_exif_segment(segs[0]) {
        Some(segs[0].1.skip(6))
    } else {
        spec_first_exif(segs.drop_first())
    }
}

/// The number of EXIF segments.
pub open spec fn spec_exif_count(segs: Seq<(u8, Seq<u8>)>) -> nat
    decreases segs.len(),
{
    if segs.len() == 0 {
        0
    } else {
        spec_exif_count(segs.drop_last()) + (if is_exif_segment(segs.last()) { 1nat } else { 0nat })
    }
}

proof fn lemma_first_exif_push(segs: Seq<(u8, Seq<u8>)>, s: (u8, Seq<u8>))
    ensures
        spec_first_exif(segs.push(s)) == (if spec_first_exif(segs) is Some {
            spec_first_exif(segs)
        } else if is_exif_segment(s) {
            Some(s.1.skip(6))
        } else {
            None::<Seq<u8>>
        }),
    decreases segs.len(),
{
    if segs.len() == 0 {
        assert(segs.push(s)[0] == s);
        assert(segs.push(s).drop_first() =~= Seq::<(u8, Seq<u8>)>::empty());
        assert(spec_first_exif(Seq::<(u8, Seq<u8>)>::empty()) is None);
        assert(spec_first_exif(segs) is None);
    } else {
        assert(segs.push(s)[0] == segs[0]);
        assert(segs.push(s).drop_first() =~= segs.drop_first().push(s));
        lemma_first_exif_push(segs.drop_first(), s);
    }
}

/// The first EXIF payload and the number of EXIF segments.
pub fn exif_summary(segs: &Vec<JpegSegment>) -> (r: (Option<Vec<u8>>, usize))
    ensures
        match r.0 {
            Some(x) => spec_first_exif(segs_view(segs@)) == Some(x@),
            None => spec_first_exif(segs_view(segs@)) is None,
        },
        r.1 == spec_exif_count(segs_view(segs@)),
{
    let mut first: Option<Vec<u8>> = None;
    let mut count: usize = 0;
    let mut i: usize = 0;
    while i < segs.len()
        invariant
            i <= segs@.len(),
            count <= i,
            count == spec_exif_count(segs_view(segs@).take(i as int)),
            match first {
                Some(x) => spec_first_exif(segs_view(segs@).take(i as int)) == Some(x@),
                None => spec_first_exif(segs_view(segs@).take(i as int)) is None,
            },
        decreases segs@.len() - i,
    {
        let ghost v = segs_view(segs@);
        proof {
            assert(v.take(i + 1) =~= v.take(i as int).push(v[i as int]));
            assert(v.take(i + 1).drop_last() =~= v.take(i as int));
            lemma_first_exif_push(v.take(i as int), v[i as int]);
        }
        if segs[i].marker == 0xe1 && has_exif_prefix(&segs[i].contents) {
            if first.is_none() {
                first = Some(tail_bytes(&segs[i].contents, 6));
            }
            count = count + 1;
        }
        i = i + 1;
    }
    proof {
        assert(segs_view(segs@).take(segs@.len() as int) =~= segs_view(segs@));
    }
    (first, count)
}

// ---------------------------------------------------------------------------
// ICC profiles
// ---------------------------------------------------------------------------

/// The largest ICC profile the privacy paths accept.
pub const MAX_JPEG_ICC_BYTES: u64 = 15 * 1024 * 1024;

/// The four-byte ICC data colour-space signatures accepted.
pub open spec fn spec_valid_icc_space(d: Seq<u8>) -> bool {
    let named = d == "XYZ "@.map_values(|c: char| c as u8) || d == "Lab "@.map_values(
        |c: char| c as u8,
    ) || d == "Luv "@.map_values(|c: char| c as u8) || d == "YCbr"@.map_values(|c: char| c as u8)
        || d == "Yxy "@.map_values(|c: char| c as u8) || d == "RGB "@.map_values(|c: char| c as u8)
        || d == "GRAY"@.map_values(|c: char| c as u8) || d == "HSV "@.map_values(|c: char| c as u8)
        || d == "HLS "@.map_values(|c: char| c as u8) || d == "CMYK"@.map_values(|c: char| c as u8)
        || d == "CMY "@.map_values(|c: char| c as u8);
    let n_colour = d.len() == 4 && ((0x32 <= d[0] <= 0x39) || (0x41 <= d[0] <= 0x46)) && d[1] == 0x43
        && d[2] == 0x4C && d[3] == 0x52;
    named || n_colour
}

/// Why an ICC profile is refused, if it is.
pub open spec fn spec_icc_problem(p: Seq<u8>) -> Option<Seq<char>> {
    if p.len() < 128 {
        Some("ICC profile is shorter than its 128-byte header"@)
    } else if p.len() > MAX_JPEG_ICC_BYTES {
        Some("ICC profile exceeds the "@ + decimal(MAX_JPEG_ICC_BYTES as nat) + " byte safety limit"@)
    } else if (p[0] as int) * 0x1000000 + (p[1] as int) * 0x10000 + (p[2] as int) * 0x100 + (p[3] as int)
        != p.len() {
        Some("ICC profile declared length does not match its payload"@)
    } else if p.subrange(36, 40) != seq![0x61u8, 0x63u8, 0x73u8, 0x70u8] {
        Some("ICC profile signature is invalid"@)
    } else if !spec_valid_icc_space(p.subrange(16, 20)) {
        Some("ICC profile data color space is invalid"@)
    } else {
        None
    }
}

/// Whether the four bytes at `at` spell `a b c d`.
fn bytes4_eq(p: &Vec<u8>, at: usize, a: u8, b: u8, c: u8, d: u8) -> (r: bool)
    requires
        at + 4 <= p@.len(),
    ensures
        r == (p@.subrange(at as int, at + 4) == seq![a, b, c, d]),
{
    let _n = p.len();
    let r = p[at] == a && p[at + 1] == b && p[at + 2] == c && p[at + 3] == d;
    proof {
        let s = p@.subrange(at as int, at + 4);
        if r {
            assert(s =~= seq![a, b, c, d]);
        } else if s == seq![a, b, c, d] {
            assert(s[0] == p@[at as int] && s[1] == p@[at + 1] && s[2] == p@[at + 2] && s[3]
                == p@[at + 3]);
        }
    }
    r
}

/// The byte values of an ASCII literal.
pub open spec fn ascii_bytes(s: Seq<char>) -> Seq<u8> {
    s.map_values(|c: char| c as u8)
}

fn space_is(p: &Vec<u8>, lit: &str, a: u8, b: u8, c: u8, d: u8) -> (r: bool)
    requires
        p@.len() >= 20,
        ascii_bytes(lit@) == seq![a, b, c, d],
    ensures
        r == (p@.subrange(16, 20) == ascii_bytes(lit@)),
{
    bytes4_eq(p, 16, a, b, c, d)
}

/// Validates an ICC profile's header: its size bounds, its declared length,
/// its `acsp` signature and its data colour space.
pub fn validate_icc_profile(profile: &Vec<u8>) -> (r: Result<(), GoopError>)
    ensures
        r is Ok == spec_icc_problem(profile@) is None,
        r matches Err(e) ==> is_metadata_error(e, spec_icc_problem(profile@)->0),
{
    let n = profile.len();
    if n < 128 {
        return Err(metadata_invalid("ICC profile is shorter than its 128-byte header"));
    }
    if n as u64 > MAX_JPEG_ICC_BYTES {
        let mut detail = owned("ICC profile exceeds the ");
        let limit = decimal_string(MAX_JPEG_ICC_BYTES);
        push_str(&mut detail, limit.as_str());
        push_str(&mut detail, " byte safety limit");
        return Err(metadata_invalid(detail.as_str()));
    }
    let declared: u64 = (profile[0] as u64) * 0x1000000 + (profile[1] as u64) * 0x10000
        + (profile[2] as u64) * 0x100 + (profile[3] as u64);
    if declared != n as u64 {
        return Err(metadata_invalid("ICC profile declared length does not match its payload"));
    }
    if !bytes4_eq(profile, 36, 0x61, 0x63, 0x73, 0x70) {
        return Err(metadata_invalid("ICC profile signature is invalid"));
    }
    proof {
        reveal_strlit("XYZ ");
        reveal_strlit("Lab ");
        reveal_strlit("Luv ");
        reveal_strlit("YCbr");
        reveal_strlit("Yxy ");
        reveal_strlit("RGB ");
        reveal_strlit("GRAY");
        reveal_strlit("HSV ");
        reveal_strlit("HLS ");
        reveal_strlit("CMYK");
        reveal_strlit("CMY ");
        assert(ascii_bytes("XYZ "@) =~= seq![0x58u8, 0x59u8, 0x5Au8, 0x20u8]);
        assert(ascii_bytes("Lab "@) =~= seq![0x4Cu8, 0x61u8, 0x62u8, 0x20u8]);
        assert(ascii_bytes("Luv "@) =~= seq![0x4Cu8, 0x75u8, 0x76u8, 0x20u8]);
        assert(ascii_bytes("YCbr"@) =~= seq![0x59u8, 0x43u8, 0x62u8, 0x72u8]);
        assert(ascii_bytes("Yxy "@) =~= seq![0x59u8, 0x78u8, 0x79u8, 0x20u8]);
        assert(ascii_bytes("RGB "@) =~= seq![0x52u8, 0x47u8, 0x42u8, 0x20u8]);
        assert(ascii_bytes("GRAY"@) =~= seq![0x47u8, 0x52u8, 0x41u8, 0x59u8]);
        assert(ascii_bytes("HSV "@) =~= seq![0x48u8, 0x53u8, 0x56u8, 0x20u8]);
        assert(ascii_bytes("HLS "@) =~= seq![0x48u8, 0x4Cu8, 0x53u8, 0x20u8]);
        assert(ascii_bytes("CMYK"@) =~= seq![0x43u8, 0x4Du8, 0x59u8, 0x4Bu8]);
        assert(ascii_bytes("CMY "@) =~= seq![0x43u8, 0x4Du8, 0x59u8, 0x20u8]);
    }
    let named = space_is(profile, "XYZ ", 0x58, 0x59, 0x5A, 0x20) || space_is(
        profile,
        "Lab ",
        0x4C,
        0x61,
        0x62,
        0x20,
    ) || space_is(profile, "Luv ", 0x4C, 0x75, 0x76, 0x20) || space_is(
        profile,
        "YCbr",
        0x59,
        0x43,
        0x62,
        0x72,
    ) || space_is(profile, "Yxy ", 0x59, 0x78, 0x79, 0x20) || space_is(
        profile,
        "RGB ",
        0x52,
        0x47,
        0x42,
        0x20,
    ) || space_is(profile, "GRAY", 0x47, 0x52, 0x41, 0x59) || space_is(
        profile,
        "HSV ",
        0x48,
        0x53,
        0x56,
        0x20,
    ) || space_is(profile, "HLS ", 0x48, 0x4C, 0x53, 0x20) || space_is(
        profile,
        "CMYK",
        0x43,
        0x4D,
        0x59,
        0x4B,
    ) || space_is(profile, "CMY ", 0x43, 0x4D, 0x59, 0x20);
    let d0 = profile[16];
    let n_colour = ((0x32 <= d0 && d0 <= 0x39) || (0x41 <= d0 && d0 <= 0x46)) && profile[17] == 0x43
        && profile[18] == 0x4C && profile[19] == 0x52;
    if !named && !n_colour {
        return Err(metadata_invalid("ICC profile data color space is invalid"));
    }
    Ok(())
}

// ---------------------------------------------------------------------------
// Frame geometry
// ---------------------------------------------------------------------------

/// A big-endian 16-bit value.
pub open spec fn be16(hi: u8, lo: u8) -> u32 {
    ((hi as int) * 256 + (lo as int)) as u32
}

/// The frame dimensions found in the segments so far, or why they are
/// refused: a truncated frame header, a zero axis, or a second frame.
pub open spec fn dims_fold(segs: Seq<(u8, Seq<u8>)>) -> Result<Option<(u32, u32)>, Seq<char>>
    decreases segs.len(),
{
    if segs.len() == 0 {
        Ok(None)
    } else {
        match dims_fold(segs.drop_last()) {
            Err(m) => Err(m),
            Ok(found) => {
                let s = segs.last();
                if !spec_is_sof(s.0) {
                    Ok(found)
                } else if s.1.len() < 5 {
                    Err("JPEG frame header is truncated"@)
                } else {
                    let h = be16(s.1[1], s.1[2]);
                    let w = be16(s.1[3], s.1[4]);
                    if w == 0 || h == 0 || found is Some {
                        Err("JPEG frame geometry is invalid or ambiguous"@)
                    } else {
                        Ok(Some((w, h)))
                    }
                }
            },
        }
    }
}

/// The width and height of the single frame, or the refusal detail.
pub open spec fn spec_jpeg_dimensions(segs: Seq<(u8, Seq<u8>)>) -> Result<(u32, u32), Seq<char>> {
    match dims_fold(segs) {
        Err(m) => Err(m),
        Ok(None) => Err("JPEG frame header is missing"@),
        Ok(Some(d)) => Ok(d),
    }
}

proof fn lemma_dims_fold_error_sticks(v: Seq<(u8, Seq<u8>)>, k: int)
    requires
        0 <= k <= v.len(),
        dims_fold(v.take(k)) is Err,
    ensures
        dims_fold(v) == dims_fold(v.take(k)),
    decreases v.len() - k,
{
    if k < v.len() {
        assert(v.take(k + 1).drop_last() =~= v.take(k));
        lemma_dims_fold_error_sticks(v, k + 1);
    } else {
        assert(v.take(k) =~= v);
    }
}

/// The width and height of the JPEG's single start-of-frame header.
pub fn jpeg_dimensions(segs: &Vec<JpegSegment>) -> (r: Result<(u32, u32), GoopError>)
    ensures
        match spec_jpeg_dimensions(segs_view(segs@)) {
            Ok(d) => r == Ok::<(u32, u32), GoopError>(d),
            Err(m) => r matches Err(e) && is_metadata_error(e, m),
        },
{
    let mut found: Option<(u32, u32)> = None;
    let mut i: usize = 0;
    while i < segs.len()
        invariant
            i <= segs@.len(),
            dims_fold(segs_view(segs@).take(i as int)) == Ok::<Option<(u32, u32)>, Seq<char>>(found),
        decreases segs@.len() - i,
    {
        let ghost v = segs_view(segs@);
        proof {
            assert(v.take(i + 1).drop_last() =~= v.take(i as int));
            assert(v.take(i + 1).last() == v[i as int]);
        }
        let seg = &segs[i];
        if is_sof(seg.marker) {
            let c = &seg.contents;
            if c.len() < 5 {
                proof {
                    lemma_dims_fold_error_sticks(segs_view(segs@), i as int + 1);
                }
                return Err(metadata_invalid("JPEG frame header is truncated"));
            }
            let h: u32 = (c[1] as u32) * 256 + (c[2] as u32);
            let w: u32 = (c[3] as u32) * 256 + (c[4] as u32);
            if w == 0 || h == 0 || found.is_some() {
                proof {
                    lemma_dims_fold_error_sticks(segs_view(segs@), i as int + 1);
                }
                return Err(metadata_invalid("JPEG frame geometry is invalid or ambiguous"));
            }
            found = Some((w, h));
        }
        i = i + 1;
    }
    proof {
        assert(segs_view(segs@).take(segs@.len() as int) =~= segs_view(segs@));
    }
    match found {
        Some(d) => Ok(d),
        None => Err(metadata_invalid("JPEG frame header is missing")),
    }
}

// ---------------------------------------------------------------------------
// Reassembling an ICC profile from APP2 segments
// ---------------------------------------------------------------------------

/// The parts gathered so far: `(sequence number, payload)` pairs in segment
/// order, the declared part count, and the combined payload size.
pub type IccParts = (Seq<(u8, Seq<u8>)>, Option<u8>, nat);

/// Whether some gathered part has sequence number `seq`.
pub open spec fn has_part(parts: Seq<(u8, Seq<u8>)>, seq: u8) -> bool {
    exists|i: int| 0 <= i < parts.len() && (#[trigger] parts[i]).0 == seq
}

/// The message for a profile above the safety limit.
pub open spec fn icc_limit_detail() -> Seq<char> {
    "ICC profile exceeds the "@ + decimal(MAX_JPEG_ICC_BYTES as nat) + " byte safety limit"@
}

/// Gathering one more APP2 ICC segment.
pub open spec fn icc_step(st: IccParts, c: Seq<u8>, validate: bool) -> Result<IccParts, Seq<char>> {
    if c.len() < 14 {
        Err("ICC APP2 sequence header is truncated"@)
    } else {
        let seq = c[12];
        let count = c[13];
        if count == 0 || seq == 0 || seq > count {
            Err("ICC APP2 sequence numbers are invalid"@)
        } else if st.1 is Some && st.1->0 != count {
            Err("ICC APP2 segments disagree on their count"@)
        } else if has_part(st.0, seq) {
            Err("ICC APP2 sequence number is duplicated"@)
        } else {
            let payload = c.skip(14);
            let combined = st.2 + payload.len();
            if combined > usize::MAX {
                Err("ICC profile size overflow"@)
            } else if validate && combined > MAX_JPEG_ICC_BYTES {
                Err(icc_limit_detail())
            } else {
                Ok((st.0.push((seq, payload)), Some(count), combined))
            }
        }
    }
}

/// Gathering every ICC APP2 segment, in order.
pub open spec fn icc_fold(segs: Seq<(u8, Seq<u8>)>, validate: bool) -> Result<IccParts, Seq<char>>
    decreases segs.len(),
{
    if segs.len() == 0 {
        Ok((Seq::empty(), None, 0))
    } else {
        match icc_fold(segs.drop_last(), validate) {
            Err(m) => Err(m),
            Ok(st) => if is_icc_segment(segs.last()) {
                icc_step(st, segs.last().1, validate)
            } else {
                Ok(st)
            },
        }
    }
}

/// The index of the first part with sequence number `seq`, or -1.
pub open spec fn part_index(parts: Seq<(u8, Seq<u8>)>, seq: u8) -> int
    decreases parts.len(),
{
    if parts.len() == 0 {
        -1
    } else {
        let p = part_index(parts.drop_last(), seq);
        if p >= 0 {
            p
        } else if parts.last().0 == seq {
            parts.len() - 1
        } else {
            -1
        }
    }
}

/// The payloads of parts `1..=k`, in sequence order.
pub open spec fn concat_by_seq(parts: Seq<(u8, Seq<u8>)>, k: nat) -> Seq<u8>
    decreases k,
{
    if k == 0 {
        Seq::empty()
    } else {
        concat_by_seq(parts, (k - 1) as nat) + parts[part_index(parts, k as u8)].1
    }
}

/// Whether every sequence number `1..=k` has a part.
pub open spec fn all_parts_present(parts: Seq<(u8, Seq<u8>)>, k: u8) -> bool {
    forall|j: u8| 1 <= j <= k ==> #[trigger] has_part(parts, j)
}

/// The ICC profile reassembled from APP2 segments: absent without ICC
/// segments; refused when the parts are malformed, disagree, repeat, are
/// incomplete or (when `validate`) exceed the limit or fail header
/// validation; otherwise the payloads concatenated in sequence order.
pub open spec fn spec_collect_icc(segs: Seq<(u8, Seq<u8>)>, validate: bool) -> Result<
    Option<Seq<u8>>,
    Seq<char>,
> {
    match icc_fold(segs, validate) {
        Err(m) => Err(m),
        Ok(st) => match st.1 {
            None => Ok(None),
            Some(k) => if st.0.len() != k {
                Err("ICC APP2 sequence is incomplete"@)
            } else if !all_parts_present(st.0, k) {
                Err("ICC APP2 sequence is not contiguous"@)
            } else {
                let p = concat_by_seq(st.0, k as nat);
                if validate && spec_icc_problem(p) is Some {
                    Err(spec_icc_problem(p)->0)
                } else {
                    Ok(Some(p))
                }
            },
        },
    }
}

proof fn lemma_part_index(parts: Seq<(u8, Seq<u8>)>, seq: u8)
    ensures
        -1 <= part_index(parts, seq) < parts.len(),
        part_index(parts, seq) >= 0 ==> parts[part_index(parts, seq)].0 == seq,
        part_index(parts, seq) >= 0 <==> has_part(parts, seq),
    decreases parts.len(),
{
    if parts.len() > 0 {
        lemma_part_index(parts.drop_last(), seq);
        if has_part(parts, seq) {
            let i = choose|i: int| 0 <= i < parts.len() && (#[trigger] parts[i]).0 == seq;
            if i < parts.len() - 1 {
                assert(parts.drop_last()[i] == parts[i]);
            }
        }
        if has_part(parts.drop_last(), seq) {
            let i = choose|i: int| 0 <= i < parts.drop_last().len() && (
            #[trigger] parts.drop_last()[i]).0 == seq;
            assert(parts[i] == parts.drop_last()[i]);
        }
    }
}

/// The index of the first gathered part with sequence number `seq`.
fn find_part(parts: &Vec<(u8, Vec<u8>)>, seq: u8) -> (r: Option<usize>)
    ensures
        match r {
            Some(i) => i == part_index(parts_view(parts@), seq),
            None => part_index(parts_view(parts@), seq) == -1,
        },
{
    let mut i: usize = 0;
    while i < parts.len()
        invariant
            i <= parts@.len(),
            part_index(parts_view(parts@).take(i as int), seq) == -1,
        decreases parts@.len() - i,
    {
        let ghost v = parts_view(parts@);
        proof {
            assert(v.take(i + 1).drop_last() =~= v.take(i as int));
            assert(v.take(i + 1).last() == v[i as int]);
        }
        if parts[i].0 == seq {
            proof {
                lemma_part_index_prefix(v, i as int + 1, seq);
            }
            return Some(i);
        }
        i = i + 1;
    }
    proof {
        assert(parts_view(parts@).take(parts@.len() as int) =~= parts_view(parts@));
    }
    None
}

proof fn lemma_part_index_prefix(v: Seq<(u8, Seq<u8>)>, k: int, seq: u8)
    requires
        0 <= k <= v.len(),
        part_index(v.take(k), seq) >= 0,
    ensures
        part_index(v, seq) == part_index(v.take(k), seq),
    decreases v.len() - k,
{
    if k < v.len() {
        assert(v.take(k + 1).drop_last() =~= v.take(k));
        lemma_part_index_prefix(v, k + 1, seq);
    } else {
        assert(v.take(k) =~= v);
    }
}

/// The plain view of the gathered parts.
pub open spec fn parts_view(parts: Seq<(u8, Vec<u8>)>) -> Seq<(u8, Seq<u8>)> {
    parts.map_values(|p: (u8, Vec<u8>)| (p.0, p.1@))
}

/// Appends all of `src` to `dst`.
fn extend_bytes(dst: &mut Vec<u8>, src: &Vec<u8>)
    ensures
        final(dst)@ == old(dst)@ + src@,
{
    let mut i: usize = 0;
    while i < src.len()
        invariant
            i <= src@.len(),
            dst@ == old(dst)@ + src@.take(i as int),
        decreases src@.len() - i,
    {
        dst.push(src[i]);
        assert(src@.take(i + 1) =~= src@.take(i as int).push(src@[i as int]));
        i = i + 1;
    }
    assert(src@.take(src@.len() as int) =~= src@);
}

proof fn lemma_icc_fold_error_sticks(v: Seq<(u8, Seq<u8>)>, k: int, validate: bool)
    requires
        0 <= k <= v.len(),
        icc_fold(v.take(k), validate) is Err,
    ensures
        icc_fold(v, validate) == icc_fold(v.take(k), validate),
    decreases v.len() - k,
{
    if k < v.len() {
        assert(v.take(k + 1).drop_last() =~= v.take(k));
        lemma_icc_fold_error_sticks(v, k + 1, validate);
    } else {
        assert(v.take(k) =~= v);
    }
}

/// Reassembles the ICC profile split over APP2 segments, refusing
/// malformed, inconsistent, duplicated or incomplete sequences; with
/// `validate`, also refusing oversized profiles and invalid headers.
pub fn collect_icc_profile(segs: &Vec<JpegSegment>, validate: bool) -> (r: Result<
    Option<Vec<u8>>,
    GoopError,
>)
    ensures
        match spec_collect_icc(segs_view(segs@), validate) {
            Ok(None) => r matches Ok(None),
            Ok(Some(p)) => (r matches Ok(Some(q)) && q@ == p),
            Err(m) => (r matches Err(e) && is_metadata_error(e, m)),
        },
{
    let mut parts: Vec<(u8, Vec<u8>)> = Vec::new();
    let mut count: Option<u8> = None;
    let mut combined: usize = 0;
    let mut i: usize = 0;
    proof {
        assert(segs_view(segs@).take(0) =~= Seq::<(u8, Seq<u8>)>::empty());
        assert(parts_view(parts@) =~= Seq::<(u8, Seq<u8>)>::empty());
    }
    while i < segs.len()
        invariant
            i <= segs@.len(),
            icc_fold(segs_view(segs@).take(i as int), validate) == Ok::<IccParts, Seq<char>>(
                (parts_view(parts@), count, combined as nat),
            ),
        decreases segs@.len() - i,
    {
        let ghost v = segs_view(segs@);
        proof {
            assert(v.take(i + 1).drop_last() =~= v.take(i as int));
            assert(v.take(i + 1).last() == v[i as int]);
        }
        let seg = &segs[i];
        if seg.marker == 0xe2 && has_icc_prefix(&seg.contents) {
            let c = &seg.contents;
            if c.len() < 14 {
                {
                proof { lemma_icc_fold_error_sticks(segs_view(segs@), i as int + 1, validate); }
                return Err(metadata_invalid("ICC APP2 sequence header is truncated"));
            }
            }
            let seq = c[12];
            let cnt = c[13];
            if cnt == 0 || seq == 0 || seq > cnt {
                {
                proof { lemma_icc_fold_error_sticks(segs_view(segs@), i as int + 1, validate); }
                return Err(metadata_invalid("ICC APP2 sequence numbers are invalid"));
            }
            }
            if let Some(seen) = count {
                if seen != cnt {
                    {
                proof { lemma_icc_fold_error_sticks(segs_view(segs@), i as int + 1, validate); }
                return Err(metadata_invalid("ICC APP2 segments disagree on their count"));
            }
                }
            }
            proof {
                lemma_part_index(parts_view(parts@), seq);
            }
            if find_part(&parts, seq).is_some() {
                {
                proof { lemma_icc_fold_error_sticks(segs_view(segs@), i as int + 1, validate); }
                return Err(metadata_invalid("ICC APP2 sequence number is duplicated"));
            }
            }
            let payload = tail_bytes(c, 14);
            if payload.len() > usize::MAX - combined {
                {
                proof { lemma_icc_fold_error_sticks(segs_view(segs@), i as int + 1, validate); }
                return Err(metadata_invalid("ICC profile size overflow"));
            }
            }
            combined = combined + payload.len();
            if validate && combined as u64 > MAX_JPEG_ICC_BYTES {
                let mut detail = owned("ICC profile exceeds the ");
                let limit = decimal_string(MAX_JPEG_ICC_BYTES);
                push_str(&mut detail, limit.as_str());
                push_str(&mut detail, " byte safety limit");
                {
                proof { lemma_icc_fold_error_sticks(segs_view(segs@), i as int + 1, validate); }
                return Err(metadata_invalid(detail.as_str()));
            }
            }
            let ghost before = parts@;
            parts.push((seq, payload));
            proof {
                assert(parts_view(parts@) =~= parts_view(before).push((seq, c@.skip(14))));
            }
            count = Some(cnt);
        }
        i = i + 1;
    }
    proof {
        assert(segs_view(segs@).take(segs@.len() as int) =~= segs_view(segs@));
    }
    let k = match count {
        None => return Ok(None),
        Some(k) => k,
    };
    if parts.len() != k as usize {
        return Err(metadata_invalid("ICC APP2 sequence is incomplete"));
    }
    let mut profile: Vec<u8> = Vec::new();
    let mut j: u16 = 1;
    while j <= k as u16
        invariant
            1 <= j,
            j as int <= k as int + 1,
            icc_fold(segs_view(segs@), validate) == Ok::<IccParts, Seq<char>>(
                (parts_view(parts@), Some(k), combined as nat),
            ),
            parts@.len() == k,
            forall|q: u8| 1 <= q < j ==> #[trigger] has_part(parts_view(parts@), q),
            profile@ == concat_by_seq(parts_view(parts@), (j - 1) as nat),
        decreases k as int + 1 - j as int,
    {
        let jb: u8 = j as u8;
        proof {
            lemma_part_index(parts_view(parts@), jb);
        }
        let idx = match find_part(&parts, jb) {
            Some(x) => x,
            None => {
                assert(!has_part(parts_view(parts@), jb));
                return Err(metadata_invalid("ICC APP2 sequence is not contiguous"));
            },
        };
        extend_bytes(&mut profile, &parts[idx].1);
        proof {
            assert(concat_by_seq(parts_view(parts@), j as nat) == concat_by_seq(
                parts_view(parts@),
                (j - 1) as nat,
            ) + parts_view(parts@)[part_index(parts_view(parts@), (j as nat) as u8)].1);
            assert((j as nat) as u8 == jb);
            assert(parts_view(parts@)[idx as int].1 == parts@[idx as int].1@);
        }
        j = j + 1;
    }
    proof {
        assert(all_parts_present(parts_view(parts@), k));
    }
    if validate {
        validate_icc_profile(&profile)?;
    }
    Ok(Some(profile))
}

// ---------------------------------------------------------------------------
// Strict metadata and the per-policy plan
// ---------------------------------------------------------------------------

/// The EXIF payload and frame component count found so far, or why the
/// metadata is refused: a second EXIF segment, a truncated or malformed
/// frame header, or a second frame header.
pub open spec fn strict_fold(segs: Seq<(u8, Seq<u8>)>) -> Result<(Option<Seq<u8>>, Option<u8>), Seq<char>>
    decreases segs.len(),
{
    if segs.len() == 0 {
        Ok((None, None))
    } else {
        match strict_fold(segs.drop_last()) {
            Err(m) => Err(m),
            Ok((ex, comp)) => {
                let s = segs.last();
                if is_exif_segment(s) {
                    if ex is Some {
                        Err("multiple EXIF segments are ambiguous"@)
                    } else {
                        Ok((Some(s.1.skip(6)), comp))
                    }
                } else if spec_is_sof(s.0) {
                    if s.1.len() < 6 {
                        Err("JPEG frame header is truncated"@)
                    } else {
                        let n = s.1[5];
                        if n == 0 || s.1.len() < 6 + 3 * (n as int) {
                            Err("JPEG frame component table is malformed"@)
                        } else if comp is Some {
                            Err("multiple JPEG frame headers are ambiguous"@)
                        } else {
                            Ok((ex, Some(n)))
                        }
                    }
                } else {
                    Ok((ex, comp))
                }
            },
        }
    }
}

/// Strictly parsed metadata: the single EXIF payload (if any), the
/// validated ICC profile (if any) and the frame's component count.
pub open spec fn spec_strict_metadata(segs: Seq<(u8, Seq<u8>)>) -> Result<
    (Option<Seq<u8>>, Option<Seq<u8>>, u8),
    Seq<char>,
> {
    match strict_fold(segs) {
        Err(m) => Err(m),
        Ok((ex, comp)) => match spec_collect_icc(segs, true) {
            Err(m) => Err(m),
            Ok(icc) => match comp {
                None => Err("JPEG frame header is missing"@),
                Some(n) => Ok((ex, icc, n)),
            },
        },
    }
}

/// Strictly parsed JPEG metadata.
#[derive(Debug, Clone, PartialEq, Eq)]
pub struct StrictJpegMetadata {
    pub exif: Option<Vec<u8>>,
    pub icc: Option<Vec<u8>>,
    pub components: u8,
}

/// The plain view of an optional byte vector.
pub open spec fn opt_bytes(o: Option<Vec<u8>>) -> Option<Seq<u8>> {
    match o {
        Some(v) => Some(v@),
        None => None,
    }
}

proof fn lemma_strict_fold_error_sticks(v: Seq<(u8, Seq<u8>)>, k: int)
    requires
        0 <= k <= v.len(),
        strict_fold(v.take(k)) is Err,
    ensures
        strict_fold(v) == strict_fold(v.take(k)),
    decreases v.len() - k,
{
    if k < v.len() {
        assert(v.take(k + 1).drop_last() =~= v.take(k));
        lemma_strict_fold_error_sticks(v, k + 1);
    } else {
        assert(v.take(k) =~= v);
    }
}

/// Parses the metadata strictly: exactly one frame header with a
/// well-formed component table, at most one EXIF segment, and a valid ICC
/// profile if one is present.
pub fn strict_jpeg_metadata(segs: &Vec<JpegSegment>) -> (r: Result<StrictJpegMetadata, GoopError>)
    ensures
        match spec_strict_metadata(segs_view(segs@)) {
            Ok((ex, icc, n)) => (r matches Ok(m) && opt_bytes(m.exif) == ex && opt_bytes(m.icc)
                == icc && m.components == n),
            Err(d) => (r matches Err(e) && is_metadata_error(e, d)),
        },
{
    let mut exif: Option<Vec<u8>> = None;
    let mut components: Option<u8> = None;
    let mut i: usize = 0;
    proof {
        assert(segs_view(segs@).take(0) =~= Seq::<(u8, Seq<u8>)>::empty());
    }
    while i < segs.len()
        invariant
            i <= segs@.len(),
            strict_fold(segs_view(segs@).take(i as int)) == Ok::<
                (Option<Seq<u8>>, Option<u8>),
                Seq<char>,
            >((opt_bytes(exif), components)),
        decreases segs@.len() - i,
    {
        let ghost v = segs_view(segs@);
        proof {
            assert(v.take(i + 1).drop_last() =~= v.take(i as int));
            assert(v.take(i + 1).last() == v[i as int]);
        }
        let seg = &segs[i];
        let c = &seg.contents;
        if seg.marker == 0xe1 && has_exif_prefix(c) {
            if exif.is_some() {
                proof {
                    lemma_strict_fold_error_sticks(v, i as int + 1);
                }
                return Err(metadata_invalid("multiple EXIF segments are ambiguous"));
            }
            exif = Some(tail_bytes(c, 6));
        } else if is_sof(seg.marker) {
            if c.len() < 6 {
                proof {
                    lemma_strict_fold_error_sticks(v, i as int + 1);
                }
                return Err(metadata_invalid("JPEG frame header is truncated"));
            }
            let n = c[5];
            if n == 0 || c.len() < 6 + 3 * (n as usize) {
                proof {
                    lemma_strict_fold_error_sticks(v, i as int + 1);
                }
                return Err(metadata_invalid("JPEG frame component table is malformed"));
            }
            if components.is_some() {
                proof {
                    lemma_strict_fold_error_sticks(v, i as int + 1);
                }
                return Err(metadata_invalid("multiple JPEG frame headers are ambiguous"));
            }
            components = Some(n);
        }
        i = i + 1;
    }
    proof {
        assert(segs_view(segs@).take(segs@.len() as int) =~= segs_view(segs@));
    }
    let icc = collect_icc_profile(segs, true)?;
    match components {
        Some(n) => Ok(StrictJpegMetadata { exif, icc, components: n }),
        None => Err(metadata_invalid("JPEG frame header is missing")),
    }
}

/// The colour model a JPEG is rendered into.
#[derive(Debug, Clone, Copy, PartialEq, Eq, Structural)]
pub enum JpegOutputColor {
    Rgb,
}

/// Metadata decisions derived from one immutable JPEG snapshot: which EXIF
/// and ICC bytes the finished file may carry under `policy`. Its EXIF
/// orientation was judged well formed when the plan was made.
#[derive(Debug, Clone, PartialEq, Eq)]
pub struct JpegMetadataPlan {
    pub policy: MetadataPolicy,
    pub source_exif: Option<Vec<u8>>,
    pub source_icc: Option<Vec<u8>>,
    pub normalize_preserve_exif: bool,
}

/// The plan for `policy`: Preserve keeps the single EXIF payload and the
/// ICC profile as found (reassembled but not validated) and normalizes its
/// orientation; RemovePersonal refuses any ICC profile and any input other
/// than three-component (RGB) JPEGs; both privacy policies parse strictly
/// and keep the EXIF payload only to read its orientation. Whenever the
/// plan reads an EXIF payload, a malformed orientation in it
/// (`orientation_malformed`) refuses the plan: `Err(None)`. Other
/// refusals carry their detail.
pub open spec fn spec_prepare_plan(
    segs: Seq<(u8, Seq<u8>)>,
    policy: MetadataPolicy,
    orientation_malformed: bool,
) -> Result<(Option<Seq<u8>>, Option<Seq<u8>>, bool), Option<Seq<char>>> {
    if policy is Preserve {
        if spec_exif_count(segs) > 1 {
            Err(Some("multiple EXIF segments are ambiguous"@))
        } else if spec_first_exif(segs) is Some && orientation_malformed {
            Err(None)
        } else {
            match spec_collect_icc(segs, false) {
                Err(m) => Err(Some(m)),
                Ok(icc) => Ok((spec_first_exif(segs), icc, true)),
            }
        }
    } else if policy is RemovePersonal && spec_has_icc_segments(segs) {
        Err(Some("Remove personal data is unavailable for JPEGs with an ICC profile"@))
    } else {
        match spec_strict_metadata(segs) {
            Err(m) => Err(Some(m)),
            Ok((ex, _icc, n)) => if ex is Some && orientation_malformed {
                Err(None)
            } else if policy is RemovePersonal && n != 3 {
                Err(Some("Remove personal data currently requires RGB JPEG input and RGB output"@))
            } else {
                Ok((ex, None, false))
            },
        }
    }
}

/// Whether `r` is the plan `plan` of `policy`, or its refusal: a detail,
/// or (`None`) the orientation refusal handed in.
pub open spec fn is_plan_outcome(
    r: Result<JpegMetadataPlan, GoopError>,
    plan: Result<(Option<Seq<u8>>, Option<Seq<u8>>, bool), Option<Seq<char>>>,
    policy: MetadataPolicy,
    orientation_refusal: Option<GoopError>,
) -> bool {
    match plan {
        Ok((ex, icc, norm)) => (r matches Ok(p) && p.policy == policy && opt_bytes(p.source_exif)
            == ex && opt_bytes(p.source_icc) == icc && p.normalize_preserve_exif == norm),
        Err(Some(d)) => (r matches Err(e) && is_metadata_error(e, d)),
        Err(None) => orientation_refusal matches Some(o) && r == Err::<JpegMetadataPlan, GoopError>(o),
    }
}

/// Builds the metadata plan for `policy` from parsed JPEG segments.
/// `orientation_refusal` is the verdict of the EXIF orientation rules on
/// the EXIF payload the plan reads (the first EXIF segment's): the error
/// they give for a malformed orientation, or `None`.
pub fn prepare_jpeg_plan_from_parsed(
    segs: &Vec<JpegSegment>,
    policy: MetadataPolicy,
    output_color: JpegOutputColor,
    orientation_refusal: &Option<GoopError>,
) -> (r: Result<JpegMetadataPlan, GoopError>)
    ensures
        is_plan_outcome(
            r,
            spec_prepare_plan(segs_view(segs@), policy, orientation_refusal is Some),
            policy,
            *orientation_refusal,
        ),
{
    if policy == MetadataPolicy::Preserve {
        let (first, count) = exif_summary(segs);
        if count > 1 {
            return Err(metadata_invalid("multiple EXIF segments are ambiguous"));
        }
        if first.is_some() {
            if let Some(e) = orientation_refusal {
                return Err(e.copy());
            }
        }
        let icc = collect_icc_profile(segs, false)?;
        return Ok(
            JpegMetadataPlan {
                policy,
                source_exif: first,
                source_icc: icc,
                normalize_preserve_exif: true,
            },
        );
    }
    if policy == MetadataPolicy::RemovePersonal && has_icc_segments(segs) {
        return Err(
            metadata_invalid("Remove personal data is unavailable for JPEGs with an ICC profile"),
        );
    }
    let parsed = strict_jpeg_metadata(segs)?;
    if parsed.exif.is_some() {
        if let Some(e) = orientation_refusal {
            return Err(e.copy());
        }
    }
    if policy == MetadataPolicy::RemovePersonal && (parsed.components != 3 || output_color
        != JpegOutputColor::Rgb) {
        return Err(
            metadata_invalid("Remove personal data currently requires RGB JPEG input and RGB output"),
        );
    }
    Ok(
        JpegMetadataPlan {
            policy,
            source_exif: parsed.exif,
            source_icc: None,
            normalize_preserve_exif: false,
        },
    )
}

/// The target-size Preserve plan: the first EXIF payload exactly as stored
/// and the ICC profile as found, with no orientation normalization.
pub fn prepare_jpeg_target_plan_from_parsed(segs: &Vec<JpegSegment>) -> (r: Result<
    JpegMetadataPlan,
    GoopError,
>)
    ensures
        match spec_collect_icc(segs_view(segs@), false) {
            Ok(icc) => (r matches Ok(p) && p.policy == MetadataPolicy::Preserve && opt_bytes(
                p.source_exif,
            ) == spec_first_exif(segs_view(segs@)) && opt_bytes(p.source_icc) == icc
                && !p.normalize_preserve_exif),
            Err(d) => (r matches Err(e) && is_metadata_error(e, d)),
        },
{
    let (first, _count) = exif_summary(segs);
    let icc = collect_icc_profile(segs, false)?;
    Ok(
        JpegMetadataPlan {
            policy: MetadataPolicy::Preserve,
            source_exif: first,
            source_icc: icc,
            normalize_preserve_exif: false,
        },
    )
}

/// The metadata plan for `policy` from the bytes of a source JPEG, with
/// the orientation rules' verdict on the EXIF payload it reads.
pub fn prepare_jpeg_plan(
    bytes: &[u8],
    policy: MetadataPolicy,
    output_color: JpegOutputColor,
    orientation_refusal: &Option<GoopError>,
) -> (r: Result<JpegMetadataPlan, GoopError>)
    ensures
        spec_preflight(bytes@) != PreflightOutcome::Sound ==> (r matches Err(e) && is_metadata_error(
            e,
            spec_preflight_detail("source JPEG"@, spec_preflight(bytes@)),
        )),
        spec_preflight(bytes@) == PreflightOutcome::Sound ==> match spec_img_parts_jpeg(bytes@) {
            Err(m) => (r matches Err(e) && is_metadata_error(e, "source JPEG"@ + " is malformed: "@ + m)),
            Ok(segs) => is_plan_outcome(
                r,
                spec_prepare_plan(segs, policy, orientation_refusal is Some),
                policy,
                *orientation_refusal,
            ),
        },
{
    let segs = match parse_jpeg(bytes, "source JPEG") {
        Ok(s) => s,
        Err(e) => return Err(e),
    };
    prepare_jpeg_plan_from_parsed(&segs, policy, output_color, orientation_refusal)
}

/// The target-side Preserve plan from the bytes of a source JPEG.
pub fn prepare_jpeg_target_plan(bytes: &[u8]) -> (r: Result<JpegMetadataPlan, GoopError>)
    ensures
        spec_preflight(bytes@) != PreflightOutcome::Sound ==> (r matches Err(e) && is_metadata_error(
            e,
            spec_preflight_detail("source JPEG"@, spec_preflight(bytes@)),
        )),
        spec_preflight(bytes@) == PreflightOutcome::Sound ==> match spec_img_parts_jpeg(bytes@) {
            Err(m) => (r matches Err(e) && is_metadata_error(e, "source JPEG"@ + " is malformed: "@ + m)),
            Ok(segs) => match spec_collect_icc(segs, false) {
                Ok(icc) => (r matches Ok(p) && p.policy == MetadataPolicy::Preserve && opt_bytes(
                    p.source_exif,
                ) == spec_first_exif(segs) && opt_bytes(p.source_icc) == icc
                    && !p.normalize_preserve_exif),
                Err(d) => (r matches Err(e) && is_metadata_error(e, d)),
            },
        },
{
    let segs = match parse_jpeg(bytes, "source JPEG") {
        Ok(s) => s,
        Err(e) => return Err(e),
    };
    prepare_jpeg_target_plan_from_parsed(&segs)
}

impl JpegMetadataPlan {
    /// The ICC profile the finished file must carry: none under StripAll,
    /// else the plan's source profile.
    pub fn expected_icc(&self) -> (r: Option<&Vec<u8>>)
        ensures
            match r {
                Some(v) => self.policy != MetadataPolicy::StripAll && self.source_icc == Some(*v),
                None => self.policy == MetadataPolicy::StripAll || self.source_icc is None,
            },
    {
        if self.policy == MetadataPolicy::StripAll {
            None
        } else {
            self.source_icc.as_ref()
        }
    }
}

/// Under either privacy policy the plan never carries an ICC profile, and
/// RemovePersonal never admits a source that has one.
pub proof fn lemma_privacy_plans_carry_no_icc(
    segs: Seq<(u8, Seq<u8>)>,
    policy: MetadataPolicy,
    orientation_malformed: bool,
)
    requires
        !(policy is Preserve),
        spec_prepare_plan(segs, policy, orientation_malformed) is Ok,
    ensures
        spec_prepare_plan(segs, policy, orientation_malformed)->Ok_0.1 is None,
        policy is RemovePersonal ==> !spec_has_icc_segments(segs),
{
}

} // verus!
