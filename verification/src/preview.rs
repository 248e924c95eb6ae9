//! Admission rules for bounded sample previews: the decoded-pixel budget,
//! request identity, which source families can be sampled for which
//! targets, and the bookkeeping of artifact cleanup.
use vstd::prelude::*;
use crate::error::{invalid, is_invalid_with, GoopError};
use crate::formats::TargetFormat;
use crate::text::str_eq;
use vstd::string::StringSliceAdditionalSpecFns;
use crate::video_options::ResolutionCap;

verus! {

/// The longest edge of a sample preview, in pixels.
pub const EDGE: u32 = 1280;

/// The decoded-pixel budget of a preview source.
pub const MAX_SOURCE_PIXELS: u64 = 4_000_000;

/// The largest source file a preview reads, in bytes.
pub const MAX_INPUT_BYTES: u64 = 67_108_864;

/// The longest axis a preview source may have, in pixels.
pub const MAX_SOURCE_AXIS: u32 = 32_768;

/// Whether a source of `width`×`height` pixels fits the preview budget:
/// both axes in `1..=32768` and at most four million pixels.
pub open spec fn pixels_admitted(width: u32, height: u32) -> bool {
    0 < width <= MAX_SOURCE_AXIS && 0 < height <= MAX_SOURCE_AXIS && width * height
        <= MAX_SOURCE_PIXELS
}

/// The refusal of a source over the pixel budget.
pub open spec fn pixel_refusal() -> Seq<char> {
    "Sample preview unavailable: source exceeds the 4 million decoded-pixel limit"@
}

/// Checks a source against the decoded-pixel budget of previews.
pub fn validate_pixels(width: u32, height: u32) -> (r: Result<(), GoopError>)
    ensures
        r is Ok <==> pixels_admitted(width, height),
        r matches Err(e) ==> is_invalid_with(e, pixel_refusal()),
{
    if width == 0 || height == 0 || width > MAX_SOURCE_AXIS || height > MAX_SOURCE_AXIS {
        return Err(
            invalid("Sample preview unavailable: source exceeds the 4 million decoded-pixel limit"),
        );
    }
    assert((width as u64) * (height as u64) <= 32768 * 32768) by (nonlinear_arith)
        requires
            width <= 32768,
            height <= 32768,
    ;
    if (width as u64) * (height as u64) > MAX_SOURCE_PIXELS {
        Err(invalid("Sample preview unavailable: source exceeds the 4 million decoded-pixel limit"))
    } else {
        Ok(())
    }
}

/// Checks that a request id is present and at most 200 bytes long.
pub fn validate_request_identity(request_id: &str) -> (r: Result<(), GoopError>)
    ensures
        r is Ok <==> (0 < request_id.len() <= 200),
        r matches Err(e) ==> is_invalid_with(e, "Invalid preview request identity"@),
{
    let n = request_id.len();
    if n == 0 || n > 200 {
        Err(invalid("Invalid preview request identity"))
    } else {
        Ok(())
    }
}

// ---------------------------------------------------------------------------
// Artifact cleanup
// ---------------------------------------------------------------------------

/// A published preview output awaiting removal.
#[derive(Debug, Clone, PartialEq, Eq)]
pub struct PublishedArtifacts {
    pub request_id: String,
    pub path: String,
}

/// What removing one artifact's file came to.
#[derive(Debug, Clone, PartialEq, Eq)]
pub enum RemovalOutcome {
    /// The file was removed.
    Removed,
    /// The file was already gone.
    NotFound,
    /// Removal failed; the message says why.
    Failed(String),
}

/// The artifacts whose removal failed, in order.
pub open spec fn spec_retained(a: Seq<PublishedArtifacts>, o: Seq<RemovalOutcome>) -> Seq<
    PublishedArtifacts,
>
    decreases a.len(),
{
    if a.len() == 0 || o.len() < a.len() {
        Seq::empty()
    } else {
        let rest = spec_retained(a.drop_last(), o.take(a.len() - 1));
        if o[a.len() - 1] is Failed {
            rest.push(a.last())
        } else {
            rest
        }
    }
}

/// The message of the first failed removal among the first `n` outcomes.
pub open spec fn spec_first_error(o: Seq<RemovalOutcome>) -> Option<Seq<char>>
    decreases o.len(),
{
    if o.len() == 0 {
        None
    } else {
        match spec_first_error(o.drop_last()) {
            Some(m) => Some(m),
            None => match o.last() {
                RemovalOutcome::Failed(m) => Some(m@),
                _ => None,
            },
        }
    }
}

/// Settles a cleanup pass: `outcomes[i]` is what removing `artifacts[i]`
/// came to. Artifacts whose removal failed are retained for a later retry,
/// in order; removed and already missing files are dropped. The first
/// failure's message is returned beside them.
pub fn remove_artifacts(artifacts: Vec<PublishedArtifacts>, outcomes: &Vec<RemovalOutcome>) -> (r: (
    Vec<PublishedArtifacts>,
    Option<String>,
))
    requires
        outcomes@.len() == artifacts@.len(),
    ensures
        r.0@ == spec_retained(artifacts@, outcomes@),
        crate::media::opt_string(r.1) == spec_first_error(outcomes@),
{
    let ghost all = artifacts@;
    let mut retained: Vec<PublishedArtifacts> = Vec::new();
    let mut first_error: Option<String> = None;
    let mut i: usize = 0;
    let n: usize = outcomes.len();
    for a in it: artifacts.into_iter()
        invariant
            n == outcomes@.len(),
            outcomes@.len() == all.len(),
            it.seq() == all,
            i == it.index(),
            i <= all.len(),
            all.len() == outcomes@.len(),
            retained@ == spec_retained(all.take(i as int), outcomes@.take(i as int)),
            crate::media::opt_string(first_error) == spec_first_error(outcomes@.take(i as int)),
    {
        proof {
            assert(all.take(i + 1).drop_last() =~= all.take(i as int));
            assert(outcomes@.take(i + 1).take(i as int) =~= outcomes@.take(i as int));
            assert(outcomes@.take(i + 1).drop_last() =~= outcomes@.take(i as int));
        }
        match &outcomes[i] {
            RemovalOutcome::Failed(m) => {
                if first_error.is_none() {
                    first_error = Some(m.clone());
                }
                retained.push(a);
            },
            _ => {},
        }
        assert(i < outcomes@.len());
        i = i + 1;
    }
    proof {
        assert(all.take(all.len() as int) =~= all);
        assert(outcomes@.take(outcomes@.len() as int) =~= outcomes@);
    }
    (retained, first_error)
}

/// A cleanup pass reports an error exactly when it keeps an artifact for a
/// later retry.
pub proof fn lemma_cleanup_error_iff_retained(a: Seq<PublishedArtifacts>, o: Seq<RemovalOutcome>)
    requires
        a.len() == o.len(),
    ensures
        (spec_first_error(o) is None) <==> spec_retained(a, o).len() == 0,
    decreases a.len(),
{
    if a.len() > 0 {
        assert(o.take(a.len() - 1) =~= o.drop_last());
        lemma_cleanup_error_iff_retained(a.drop_last(), o.drop_last());
    }
}

// ---------------------------------------------------------------------------
// Source families
// ---------------------------------------------------------------------------

/// How a preview source is sampled.
#[derive(Debug, Clone, Copy, PartialEq, Eq, Structural)]
pub enum PreviewSourceFamily {
    Raster,
    Heic,
    Video,
}

/// How a conversion compresses its output.
#[derive(Debug, Clone, Copy, PartialEq, Eq, Structural)]
pub enum CompressMode {
    Quality(u8),
    TargetSizeBytes(u64),
    LosslessReoptimize,
}

/// The settings of a preview request that decide whether a source family
/// can be sampled.
#[derive(Debug, Clone, Copy, PartialEq, Eq, Structural)]
pub struct PreviewSettings {
    pub target: TargetFormat,
    pub resolution_cap: Option<ResolutionCap>,
    pub compress_mode: Option<CompressMode>,
    /// The video quality preset: `None` when unset, else whether it is
    /// `Original`.
    pub quality_preset_original: Option<bool>,
    /// Explicit image settings: `None` when absent, else whether their
    /// resize is `Original`.
    pub image_resize_original: Option<bool>,
}

/// Whether a target is an image format previews can produce.
pub open spec fn is_preview_image_target(t: TargetFormat) -> bool {
    t == TargetFormat::Jpeg || t == TargetFormat::Png || t == TargetFormat::Webp
}

/// The family of a source extension (lower case) before the request is
/// consulted: raster, HEIC, a format only the ImageMagick backend decodes
/// (`None`), or video.
pub open spec fn spec_family_of(extension: Seq<char>, imagemagick_only: bool) -> Option<
    PreviewSourceFamily,
> {
    if extension == "png"@ || extension == "jpg"@ || extension == "jpeg"@ || extension == "webp"@ {
        Some(PreviewSourceFamily::Raster)
    } else if extension == "heic"@ || extension == "heif"@ {
        Some(PreviewSourceFamily::Heic)
    } else if imagemagick_only {
        None
    } else {
        Some(PreviewSourceFamily::Video)
    }
}

/// Why a preview refuses a source family for these settings, or `Ok` with
/// the family. `imagemagick_only` says whether the conversion backend for the
/// extension is ImageMagick; `heic_enabled` whether bounded HEIC sampling is
/// built in. A refusal is `Err((true, m))` for an unavailable preview and
/// `Err((false, m))` for an invalid request.
pub open spec fn spec_preview_source_family(
    s: PreviewSettings,
    extension: Seq<char>,
    imagemagick_only: bool,
    heic_enabled: bool,
) -> Result<PreviewSourceFamily, (bool, Seq<char>)> {
    let is_heic = extension == "heic"@ || extension == "heif"@;
    let image = |f: PreviewSourceFamily|
        f == PreviewSourceFamily::Raster || f == PreviewSourceFamily::Heic;
    if is_heic && !heic_enabled {
        Err((true, "Bounded HEIC preview is not enabled in this build."@))
    } else if is_heic && (s.image_resize_original is None || s.target != TargetFormat::Jpeg) {
        Err((false, "Bounded HEIC preview requires explicit JPEG conversion settings"@))
    } else {
        match spec_family_of(extension, imagemagick_only) {
            None => Err(
                (
                    false,
                    "Sample preview unavailable for this image source; bounded decoding is not supported"@,
                ),
            ),
            Some(f) => if f == PreviewSourceFamily::Raster && s.image_resize_original
                == Some(false) {
                Err((false, "Fit within image samples are not available yet"@))
            } else if image(f) && !is_preview_image_target(s.target) {
                Err((false, "Sample preview unavailable for this image target"@))
            } else if image(f) && s.resolution_cap is Some && s.resolution_cap
                != Some(ResolutionCap::Original) {
                Err((false, "Image conversion does not support resolution caps"@))
            } else if image(f) && s.target == TargetFormat::Jpeg && s.compress_mode == Some(
                CompressMode::LosslessReoptimize,
            ) {
                Err((false, "Lossless JPEG sample preview is unavailable"@))
            } else if f == PreviewSourceFamily::Video && s.target != TargetFormat::Mp4 {
                Err((false, "Video sample preview is available for MP4 only"@))
            } else if image(f) && s.quality_preset_original == Some(false) {
                Err((false, "Image sample does not support video quality presets"@))
            } else if image(f) && (s.compress_mode matches Some(CompressMode::Quality(_))) && !(
            s.target == TargetFormat::Jpeg || s.target == TargetFormat::Webp) {
                Err((false, "Sample quality control is available for JPEG and WebP only"@))
            } else if f == PreviewSourceFamily::Video && s.compress_mode == Some(
                CompressMode::LosslessReoptimize,
            ) {
                Err((false, "Lossless video sample preview is unavailable"@))
            } else if s.image_resize_original is Some && f == PreviewSourceFamily::Video {
                Err((false, "Explicit image samples are available for JPEG sources only"@))
            } else {
                Ok(f)
            },
        }
    }
}

/// The extensions of still raster images that previews decode directly.
pub open spec fn raster_preview_extensions() -> Set<Seq<char>> {
    set!["png"@, "jpg"@, "jpeg"@, "webp"@]
}

/// The extensions of HEIC images.
pub open spec fn heic_preview_extensions() -> Set<Seq<char>> {
    set!["heic"@, "heif"@]
}

/// Image sources are never sampled as video. A source with a PNG, JPEG or
/// WebP extension is admitted only in the raster family, and it is admitted
/// whenever the request asks for a plain image sample: an image target, no
/// resolution cap other than `Original`, no compression mode, no video
/// quality preset other than `Original`, and no fit-within image resize. A
/// HEIC source, when admitted, is never admitted as video.
pub proof fn lemma_image_sources_are_not_video(
    s: PreviewSettings,
    extension: Seq<char>,
    imagemagick_only: bool,
    heic_enabled: bool,
)
    ensures
        raster_preview_extensions().contains(extension) ==> match spec_preview_source_family(
            s,
            extension,
            imagemagick_only,
            heic_enabled,
        ) {
            Ok(f) => f == PreviewSourceFamily::Raster,
            Err(_) => true,
        },
        (raster_preview_extensions().contains(extension) && is_preview_image_target(s.target)
            && (s.resolution_cap is None || s.resolution_cap == Some(ResolutionCap::Original))
            && s.compress_mode is None && s.quality_preset_original != Some(false)
            && s.image_resize_original != Some(false)) ==> spec_preview_source_family(
            s,
            extension,
            imagemagick_only,
            heic_enabled,
        ) == Ok::<PreviewSourceFamily, (bool, Seq<char>)>(PreviewSourceFamily::Raster),
        heic_preview_extensions().contains(extension) ==> spec_preview_source_family(
            s,
            extension,
            imagemagick_only,
            heic_enabled,
        ) != Ok::<PreviewSourceFamily, (bool, Seq<char>)>(PreviewSourceFamily::Video),
{
    reveal_strlit("png");
    reveal_strlit("jpg");
    reveal_strlit("jpeg");
    reveal_strlit("webp");
    reveal_strlit("heic");
    reveal_strlit("heif");
    assert("png"@[0] != "heic"@[0]);
    assert("jpg"@[0] != "heic"@[0]);
    assert("jpeg"@[0] != "heic"@[0]);
    assert("webp"@[0] != "heic"@[0]);
    assert("png"@[0] != "heif"@[0]);
    assert("jpg"@[0] != "heif"@[0]);
    assert("jpeg"@[0] != "heif"@[0]);
    assert("webp"@[0] != "heif"@[0]);
}

/// What every admitted preview request satisfies. An image source (raster or
/// HEIC) is admitted only for a JPEG, PNG or WebP target, with no resolution
/// cap other than `Original`, no lossless JPEG re-optimisation, no video
/// quality preset other than `Original`, and a quality setting only for JPEG
/// or WebP; a raster source only without a fit-within resize; a HEIC source
/// only when HEIC sampling is built in and explicit JPEG settings are given.
/// A video source is admitted only for an MP4 target, without lossless
/// re-optimisation and without explicit image settings. A source that only
/// the ImageMagick backend decodes is never admitted unless it is a raster
/// or HEIC image.
pub proof fn lemma_admitted_preview_requests(
    s: PreviewSettings,
    extension: Seq<char>,
    imagemagick_only: bool,
    heic_enabled: bool,
)
    ensures
        spec_preview_source_family(s, extension, imagemagick_only, heic_enabled) matches Ok(f)
            ==> {
            &&& (f == PreviewSourceFamily::Raster || f == PreviewSourceFamily::Heic) ==> {
                &&& s.target == TargetFormat::Jpeg || s.target == TargetFormat::Png || s.target
                    == TargetFormat::Webp
                &&& s.resolution_cap is None || s.resolution_cap == Some(ResolutionCap::Original)
                &&& !(s.target == TargetFormat::Jpeg && s.compress_mode == Some(
                    CompressMode::LosslessReoptimize,
                ))
                &&& s.quality_preset_original != Some(false)
                &&& (s.compress_mode matches Some(CompressMode::Quality(_))) ==> (s.target
                    == TargetFormat::Jpeg || s.target == TargetFormat::Webp)
            }
            &&& f == PreviewSourceFamily::Raster ==> s.image_resize_original != Some(false)
                && raster_preview_extensions().contains(extension)
            &&& f == PreviewSourceFamily::Heic ==> heic_enabled && s.image_resize_original is Some
                && s.target == TargetFormat::Jpeg && heic_preview_extensions().contains(extension)
            &&& f == PreviewSourceFamily::Video ==> {
                &&& s.target == TargetFormat::Mp4
                &&& s.compress_mode != Some(CompressMode::LosslessReoptimize)
                &&& s.image_resize_original is None
                &&& !imagemagick_only
                &&& !raster_preview_extensions().contains(extension)
                &&& !heic_preview_extensions().contains(extension)
            }
        },
{
}

/// Whether `e` carries the refusal `(unavailable, m)`.
pub open spec fn is_refusal(e: GoopError, refusal: (bool, Seq<char>)) -> bool {
    if refusal.0 {
        e matches GoopError::PreviewUnavailable(x) && x@ == refusal.1
    } else {
        is_invalid_with(e, refusal.1)
    }
}

/// Whether a preview target is one of the image formats previews produce.
fn image_target(t: TargetFormat) -> (r: bool)
    ensures
        r == is_preview_image_target(t),
{
    t == TargetFormat::Jpeg || t == TargetFormat::Png || t == TargetFormat::Webp
}

/// Decides how a preview samples a source with this (lower-case)
/// extension, or why it cannot.
pub fn preview_source_family(
    settings: &PreviewSettings,
    extension: &str,
    imagemagick_only: bool,
    heic_enabled: bool,
) -> (r: Result<PreviewSourceFamily, GoopError>)
    ensures
        match spec_preview_source_family(*settings, extension@, imagemagick_only, heic_enabled) {
            Ok(f) => r == Ok::<PreviewSourceFamily, GoopError>(f),
            Err(m) => (r matches Err(e) && is_refusal(e, m)),
        },
{
    let is_heic = str_eq(extension, "heic") || str_eq(extension, "heif");
    if is_heic && !heic_enabled {
        return Err(
            GoopError::PreviewUnavailable(
                crate::text::owned("Bounded HEIC preview is not enabled in this build."),
            ),
        );
    }
    if is_heic && (settings.image_resize_original.is_none() || settings.target
        != TargetFormat::Jpeg) {
        return Err(invalid("Bounded HEIC preview requires explicit JPEG conversion settings"));
    }
    let family = if str_eq(extension, "png") || str_eq(extension, "jpg") || str_eq(
        extension,
        "jpeg",
    ) || str_eq(extension, "webp") {
        PreviewSourceFamily::Raster
    } else if is_heic {
        PreviewSourceFamily::Heic
    } else if imagemagick_only {
        return Err(
            invalid(
                "Sample preview unavailable for this image source; bounded decoding is not supported",
            ),
        );
    } else {
        PreviewSourceFamily::Video
    };
    let image = family == PreviewSourceFamily::Raster || family == PreviewSourceFamily::Heic;
    let video = family == PreviewSourceFamily::Video;
    if family == PreviewSourceFamily::Raster && settings.image_resize_original == Some(false) {
        return Err(invalid("Fit within image samples are not available yet"));
    }
    if image && !image_target(settings.target) {
        return Err(invalid("Sample preview unavailable for this image target"));
    }
    if image && settings.resolution_cap.is_some() && settings.resolution_cap != Some(
        ResolutionCap::Original,
    ) {
        return Err(invalid("Image conversion does not support resolution caps"));
    }
    if image && settings.target == TargetFormat::Jpeg && settings.compress_mode == Some(
        CompressMode::LosslessReoptimize,
    ) {
        return Err(invalid("Lossless JPEG sample preview is unavailable"));
    }
    if video && settings.target != TargetFormat::Mp4 {
        return Err(invalid("Video sample preview is available for MP4 only"));
    }
    if image && settings.quality_preset_original == Some(false) {
        return Err(invalid("Image sample does not support video quality presets"));
    }
    let quality = match settings.compress_mode {
        Some(CompressMode::Quality(_)) => true,
        _ => false,
    };
    if image && quality && !(settings.target == TargetFormat::Jpeg || settings.target
        == TargetFormat::Webp) {
        return Err(invalid("Sample quality control is available for JPEG and WebP only"));
    }
    if video && settings.compress_mode == Some(CompressMode::LosslessReoptimize) {
        return Err(invalid("Lossless video sample preview is unavailable"));
    }
    if settings.image_resize_original.is_some() && video {
        return Err(invalid("Explicit image samples are available for JPEG sources only"));
    }
    Ok(family)
}

// ---------------------------------------------------------------------------
// HEIC sample geometry
// ---------------------------------------------------------------------------

/// One axis of a planned size carried from the primary image onto its
/// embedded sample: `sample * planned / primary`, rounded half up; `None`
/// when that does not fit in `u32`, else kept within `1..=sample`.
pub open spec fn spec_sample_axis(sample: u32, planned: u32, primary: u32) -> Option<u32> {
    let x = (sample * planned + primary / 2) / (primary as int);
    if x > u32::MAX {
        None
    } else if x < 1 {
        Some(1)
    } else if x > sample {
        Some(sample)
    } else {
        Some(x as u32)
    }
}

/// One sample axis, computed.
fn sample_axis(sample: u32, planned: u32, primary: u32) -> (r: Option<u32>)
    requires
        primary > 0,
        sample > 0,
    ensures
        r == spec_sample_axis(sample, planned, primary),
{
    assert((sample as u64) * (planned as u64) <= 0xffff_ffffu64 * 0xffff_ffffu64) by (nonlinear_arith)
        requires
            sample <= 0xffff_ffffu64,
            planned <= 0xffff_ffffu64,
    ;
    let x: u64 = ((sample as u64) * (planned as u64) + (primary as u64) / 2) / (primary as u64);
    if x > 0xffff_ffffu64 {
        None
    } else if x < 1 {
        Some(1)
    } else if x > sample as u64 {
        Some(sample)
    } else {
        Some(x as u32)
    }
}

/// Carries a size planned for the primary HEIC image onto its embedded
/// sample, axis by axis (before the preview edge bound is applied).
pub fn scale_heic_sample_dimensions(
    primary: (u32, u32),
    sample: (u32, u32),
    planned: (u32, u32),
) -> (r: Result<(u32, u32), GoopError>)
    requires
        primary.0 > 0,
        primary.1 > 0,
        sample.0 > 0,
        sample.1 > 0,
    ensures
        match (
            spec_sample_axis(sample.0, planned.0, primary.0),
            spec_sample_axis(sample.1, planned.1, primary.1),
        ) {
            (None, _) => (r matches Err(e) && is_invalid_with(e, "HEIC sample width overflowed"@)),
            (Some(_), None) => (r matches Err(e) && is_invalid_with(
                e,
                "HEIC sample height overflowed"@,
            )),
            (Some(w), Some(h)) => r == Ok::<(u32, u32), GoopError>((w, h)),
        },
        r matches Ok((w, h)) ==> 1 <= w <= sample.0 && 1 <= h <= sample.1,
{
    let w = match sample_axis(sample.0, planned.0, primary.0) {
        Some(w) => w,
        None => return Err(invalid("HEIC sample width overflowed")),
    };
    let h = match sample_axis(sample.1, planned.1, primary.1) {
        Some(h) => h,
        None => return Err(invalid("HEIC sample height overflowed")),
    };
    Ok((w, h))
}

// ---------------------------------------------------------------------------
// Sample geometry and admission answers
// ---------------------------------------------------------------------------

/// The longest edge of a sample for a resolution cap.
pub open spec fn spec_edge(cap: Option<ResolutionCap>) -> u32 {
    match cap {
        Some(ResolutionCap::R480p) => 854,
        Some(ResolutionCap::R720p) => 1280,
        _ => EDGE,
    }
}

/// The longest edge of a sample for a resolution cap: the cap's width for
/// 480p and 720p, the preview edge otherwise.
pub fn edge(cap: Option<ResolutionCap>) -> (r: u32)
    ensures
        r == spec_edge(cap),
{
    match cap {
        Some(ResolutionCap::R480p) => 854,
        Some(ResolutionCap::R720p) => 1280,
        _ => EDGE,
    }
}

/// Whether a sample preview can be produced, and why not.
#[derive(Debug, Clone, PartialEq, Eq)]
pub struct PreviewEligibility {
    pub available: bool,
    pub reason: Option<String>,
}

/// Whether an error is a refusal of the deterministic admission checks.
pub open spec fn is_admission_refusal(e: GoopError) -> bool {
    e is InvalidRequest || e is PreviewUnavailable
}

/// The answer an admission refusal gives: unavailable, for the refusal's
/// reason. Only refusals qualify; other errors are retried by the caller.
pub fn deterministic_unavailable(error: GoopError) -> (r: PreviewEligibility)
    requires
        is_admission_refusal(error),
    ensures
        !r.available,
        error matches GoopError::InvalidRequest(m) ==> r.reason == Some(m),
        error matches GoopError::PreviewUnavailable(m) ==> r.reason == Some(m),
{
    match error {
        GoopError::InvalidRequest(reason) => PreviewEligibility { available: false, reason: Some(reason) },
        GoopError::PreviewUnavailable(reason) => PreviewEligibility {
            available: false,
            reason: Some(reason),
        },
        _ => PreviewEligibility { available: false, reason: None },
    }
}

// ---------------------------------------------------------------------------
// Request admission and source facts
// ---------------------------------------------------------------------------

/// What the admission rules read of a preview request. The validity of
/// explicit image settings is decided by the image-settings rules and
/// handed in as their verdict.
#[derive(Debug, Clone, PartialEq, Eq)]
pub struct PreviewAdmission {
    pub has_video_options: bool,
    /// `None` without explicit image settings; else their verdict.
    pub image_options_verdict: Option<Result<(), GoopError>>,
    pub compress_mode: Option<CompressMode>,
    pub target: TargetFormat,
    pub has_subtitle: bool,
    pub has_gif_options: bool,
}

/// The refusal message of an admission check, or `None` when the request
/// is admitted; an image-settings refusal is passed on as it came.
pub open spec fn spec_admission_refusal(r: PreviewAdmission) -> Option<Seq<char>> {
    if r.has_video_options {
        Some(
            "Explicit video previews are not available yet. Use Automatic for a viewing sample."@,
        )
    } else if r.image_options_verdict matches Some(Ok(_)) && r.compress_mode is Some {
        Some("Image settings cannot be combined with compression"@)
    } else if r.image_options_verdict matches Some(Ok(_)) && r.target != TargetFormat::Jpeg {
        Some("Explicit image samples require a JPEG target"@)
    } else if r.compress_mode matches Some(CompressMode::TargetSizeBytes(_)) {
        Some("Sample preview unavailable for target-size compression"@)
    } else if r.has_subtitle || r.has_gif_options {
        Some("Sample preview unavailable for subtitles or GIF settings"@)
    } else if r.compress_mode matches Some(CompressMode::Quality(q)) && (q == 0 || q > 100) {
        Some("Quality must be between 1 and 100"@)
    } else {
        None
    }
}

/// Whether the image-settings rules refuse the request's explicit image
/// settings (and no earlier rule refused it).
pub open spec fn spec_image_settings_refused(r: PreviewAdmission) -> bool {
    !r.has_video_options && r.image_options_verdict matches Some(Err(_))
}

/// Checks that a preview request asks for something a sample can show.
pub fn validate_request_admission(request: &PreviewAdmission) -> (r: Result<(), GoopError>)
    ensures
        request.image_options_verdict matches Some(Err(e)) ==> (!request.has_video_options ==> r
            == Err::<(), GoopError>(e)),
        !spec_image_settings_refused(*request) ==> match spec_admission_refusal(*request) {
            Some(m) => (r matches Err(e) && is_invalid_with(e, m)),
            None => r is Ok,
        },
{
    if request.has_video_options {
        return Err(invalid(crate::video_options::PREVIEW_REASON));
    }
    match &request.image_options_verdict {
        Some(verdict) => {
            match verdict {
                Err(e) => return Err(e.copy()),
                Ok(_) => {},
            }
            if request.compress_mode.is_some() {
                return Err(invalid("Image settings cannot be combined with compression"));
            }
            if request.target != TargetFormat::Jpeg {
                return Err(invalid("Explicit image samples require a JPEG target"));
            }
        },
        None => {},
    }
    if let Some(CompressMode::TargetSizeBytes(_)) = request.compress_mode {
        return Err(invalid("Sample preview unavailable for target-size compression"));
    }
    if request.has_subtitle || request.has_gif_options {
        return Err(invalid("Sample preview unavailable for subtitles or GIF settings"));
    }
    if let Some(CompressMode::Quality(q)) = request.compress_mode {
        if q == 0 || q > 100 {
            return Err(invalid("Quality must be between 1 and 100"));
        }
    }
    Ok(())
}

/// What every admitted preview request satisfies: it has no explicit video
/// settings; explicit image settings, when present, were accepted by the
/// image-settings rules, come without compression, and target JPEG; it asks
/// for no target-size compression, no subtitles and no GIF settings; and a
/// quality setting lies in `1..=100`.
pub proof fn lemma_admitted_requests(r: PreviewAdmission)
    ensures
        (!spec_image_settings_refused(r) && spec_admission_refusal(r) is None) ==> {
            &&& !r.has_video_options
            &&& r.image_options_verdict is Some ==> (r.image_options_verdict matches Some(Ok(_))
                && r.compress_mode is None && r.target == TargetFormat::Jpeg)
            &&& !(r.compress_mode matches Some(CompressMode::TargetSizeBytes(_)))
            &&& !r.has_subtitle && !r.has_gif_options
            &&& r.compress_mode matches Some(CompressMode::Quality(q)) ==> 1 <= q <= 100
        },
{
}

/// What every admitted preview source satisfies. A raster source has a
/// JPEG, PNG or WebP encoding (JPEG when explicit image settings bypass the
/// managed decoding path), fits the pixel budget and the decoded-memory
/// limit, and keeps no transparency that a JPEG target would drop without
/// an explicit background. A HEIC source reported no reason it is
/// unavailable. A video source has a video stream of known, nonzero
/// duration, fits the pixel budget, and scales to at least 2×2 pixels. A
/// source found unavailable is never admitted.
pub proof fn lemma_admitted_sources(r: SourceFactsRequest, f: PreviewSourceFacts, bounded: (
    u32,
    u32,
))
    ensures
        spec_source_facts_refusal(r, f, bounded) is None ==> match f {
            PreviewSourceFacts::Raster { format, width, height, decoded_bytes, has_alpha } => {
                &&& format != RasterEncoding::Other
                &&& (r.has_image_options && !r.uses_managed_image_path) ==> format
                    == RasterEncoding::Jpeg
                &&& 0 < width <= 32_768 && 0 < height <= 32_768
                &&& width * height <= 4_000_000
                &&& decoded_bytes <= 64_000_000
                &&& (r.target == TargetFormat::Jpeg && has_alpha) ==> r.has_alpha_policy
            },
            PreviewSourceFacts::Heic { unavailable_reason } => unavailable_reason is None,
            PreviewSourceFacts::Unavailable(_) => false,
            PreviewSourceFacts::Video { has_video, duration_ms, width, height } => {
                &&& has_video && duration_ms > 0
                &&& width matches Some(w) && 0 < w <= 32_768
                &&& height matches Some(h) && 0 < h <= 32_768
                &&& width->0 * height->0 <= 4_000_000
                &&& bounded.0 >= 2 && bounded.1 >= 2
            },
        },
{
}

/// The encoding of a decoded raster source, as far as the rules tell them
/// apart.
#[derive(Debug, Clone, Copy, PartialEq, Eq, Structural)]
pub enum RasterEncoding {
    Jpeg,
    Png,
    WebP,
    Other,
}

/// What inspecting a preview source established.
#[derive(Debug, Clone, PartialEq, Eq)]
pub enum PreviewSourceFacts {
    Raster { format: RasterEncoding, width: u32, height: u32, decoded_bytes: u64, has_alpha: bool },
    Heic { unavailable_reason: Option<String> },
    Unavailable(String),
    Video { has_video: bool, duration_ms: u64, width: Option<u32>, height: Option<u32> },
}

/// What the source-fact rules read of a preview request.
#[derive(Debug, Clone, Copy, PartialEq, Eq, Structural)]
pub struct SourceFactsRequest {
    pub target: TargetFormat,
    pub has_image_options: bool,
    /// Whether the sample goes through colour- or alpha-managed decoding.
    pub uses_managed_image_path: bool,
    pub has_alpha_policy: bool,
}

/// How a source's facts decide a preview: admitted (`None`), refused with
/// a message (`Some((false, m))`), or unavailable with a reason
/// (`Some((true, m))`). `bounded` is the video size scaled to the sample
/// edge.
pub open spec fn spec_source_facts_refusal(
    r: SourceFactsRequest,
    f: PreviewSourceFacts,
    bounded: (u32, u32),
) -> Option<(bool, Seq<char>)> {
    match f {
        PreviewSourceFacts::Raster { format, width, height, decoded_bytes, has_alpha } => {
            if format == RasterEncoding::Other {
                Some((false, "Sample preview unavailable for this image encoding"@))
            } else if r.has_image_options && format != RasterEncoding::Jpeg
                && !r.uses_managed_image_path {
                Some((false, "Explicit image samples are available for JPEG sources only"@))
            } else if !pixels_admitted(width, height) {
                Some((false, pixel_refusal()))
            } else if decoded_bytes > MAX_SOURCE_PIXELS * 16 {
                Some((false, "Decoded image exceeds preview memory limit"@))
            } else if r.target == TargetFormat::Jpeg && has_alpha && !r.has_alpha_policy {
                Some(
                    (
                        false,
                        "JPEG removes transparency; choose an explicit background before previewing."@,
                    ),
                )
            } else {
                None
            }
        },
        PreviewSourceFacts::Heic { unavailable_reason } => match unavailable_reason {
            Some(m) => Some((true, m@)),
            None => None,
        },
        PreviewSourceFacts::Unavailable(m) => Some((true, m@)),
        PreviewSourceFacts::Video { has_video, duration_ms, width, height } => {
            let w = match width {
                Some(x) => x,
                None => 0,
            };
            let h = match height {
                Some(x) => x,
                None => 0,
            };
            if !has_video || duration_ms == 0 {
                Some((false, "Video sample requires a video stream with known duration"@))
            } else if !pixels_admitted(w, h) {
                Some((false, pixel_refusal()))
            } else if bounded.0 < 2 || bounded.1 < 2 {
                Some((false, "Invalid video dimensions"@))
            } else {
                None
            }
        },
    }
}

/// Whether `e` is the refusal `m`: invalid (`unavailable` false) or an
/// unavailable preview.
pub open spec fn is_facts_refusal(e: GoopError, unavailable: bool, m: Seq<char>) -> bool {
    if unavailable {
        e matches GoopError::PreviewUnavailable(x) && x@ == m
    } else {
        is_invalid_with(e, m)
    }
}

/// Checks inspected source facts against a preview request. `bounded` is
/// the video's size scaled to the sample edge (see `edge`).
pub fn validate_source_facts(
    request: &SourceFactsRequest,
    facts: &PreviewSourceFacts,
    bounded: (u32, u32),
) -> (r: Result<(), GoopError>)
    ensures
        match spec_source_facts_refusal(*request, *facts, bounded) {
            None => r is Ok,
            Some((u, m)) => (r matches Err(e) && is_facts_refusal(e, u, m)),
        },
{
    match facts {
        PreviewSourceFacts::Raster { format, width, height, decoded_bytes, has_alpha } => {
            if *format == RasterEncoding::Other {
                return Err(invalid("Sample preview unavailable for this image encoding"));
            }
            if request.has_image_options && *format != RasterEncoding::Jpeg
                && !request.uses_managed_image_path {
                return Err(invalid("Explicit image samples are available for JPEG sources only"));
            }
            match validate_pixels(*width, *height) {
                Ok(_) => {},
                Err(e) => return Err(e),
            }
            if *decoded_bytes > MAX_SOURCE_PIXELS * 16 {
                return Err(invalid("Decoded image exceeds preview memory limit"));
            }
            if request.target == TargetFormat::Jpeg && *has_alpha && !request.has_alpha_policy {
                return Err(
                    invalid(
                        "JPEG removes transparency; choose an explicit background before previewing.",
                    ),
                );
            }
            Ok(())
        },
        PreviewSourceFacts::Heic { unavailable_reason } => match unavailable_reason {
            Some(m) => Err(GoopError::PreviewUnavailable(m.clone())),
            None => Ok(()),
        },
        PreviewSourceFacts::Unavailable(m) => Err(GoopError::PreviewUnavailable(m.clone())),
        PreviewSourceFacts::Video { has_video, duration_ms, width, height } => {
            if !*has_video || *duration_ms == 0 {
                return Err(invalid("Video sample requires a video stream with known duration"));
            }
            let w = match width {
                Some(x) => *x,
                None => 0,
            };
            let h = match height {
                Some(x) => *x,
                None => 0,
            };
            match validate_pixels(w, h) {
                Ok(_) => {},
                Err(e) => return Err(e),
            }
            if bounded.0 < 2 || bounded.1 < 2 {
                return Err(invalid("Invalid video dimensions"));
            }
            Ok(())
        },
    }
}

// ---------------------------------------------------------------------------
// Colour-managed samples
// ---------------------------------------------------------------------------

/// What the colour-managed sample rules read of a preview request. The
/// validity of explicit image settings is decided by the image-settings
/// rules and handed in as their verdict.
#[derive(Debug, Clone, PartialEq, Eq)]
pub struct ColorSampleRequest {
    pub target: TargetFormat,
    /// Whether the colour policy (its default when unset) is Preserve.
    pub color_policy_preserve: bool,
    pub has_alpha_policy: bool,
    pub has_compress_mode: bool,
    pub has_video_options: bool,
    pub has_gif_options: bool,
    pub has_subtitle: bool,
    /// The video quality preset: `None` when unset, else whether it is
    /// `Original`.
    pub quality_preset_original: Option<bool>,
    pub resolution_cap: Option<ResolutionCap>,
    /// `None` without explicit image settings; else their verdict.
    pub image_options_verdict: Option<Result<(), GoopError>>,
}

/// The refusal of a colour-managed sample request, or `None` when it is
/// admitted (or refused by the image-settings verdict, which is passed on
/// as it came).
pub open spec fn spec_color_sample_refusal(r: ColorSampleRequest) -> Option<Seq<char>> {
    if r.has_alpha_policy && r.target != TargetFormat::Jpeg {
        Some("Transparency flattening is currently available only for JPEG output"@)
    } else if r.has_alpha_policy && r.color_policy_preserve {
        Some("JPEG transparency flattening requires Convert to sRGB or Assume sRGB"@)
    } else if !(r.target == TargetFormat::Jpeg || r.target == TargetFormat::Png) {
        Some("Color-managed conversion is available only for JPEG and PNG output"@)
    } else if r.has_compress_mode {
        Some("Explicit color handling is currently available in Convert only"@)
    } else if r.has_video_options || r.has_gif_options || r.has_subtitle
        || r.quality_preset_original == Some(false) || (r.resolution_cap is Some
        && r.resolution_cap != Some(ResolutionCap::Original)) {
        Some(
            "Explicit image color handling cannot be combined with media, GIF, subtitle, or video quality controls"@,
        )
    } else if r.image_options_verdict matches Some(Ok(_)) && r.target != TargetFormat::Jpeg {
        Some("Explicit JPEG quality and resize settings require JPEG output"@)
    } else {
        None
    }
}

/// Whether the request passes every check before the image-settings
/// verdict, and that verdict refuses.
pub open spec fn spec_color_settings_refused(r: ColorSampleRequest) -> bool {
    &&& r.image_options_verdict matches Some(Err(_))
    &&& !r.has_alpha_policy || (r.target == TargetFormat::Jpeg && !r.color_policy_preserve)
    &&& (r.target == TargetFormat::Jpeg || r.target == TargetFormat::Png)
    &&& !r.has_compress_mode
    &&& !(r.has_video_options || r.has_gif_options || r.has_subtitle || r.quality_preset_original
        == Some(false) || (r.resolution_cap is Some && r.resolution_cap != Some(
        ResolutionCap::Original,
    )))
}

/// Checks a colour-managed sample request before any source is read.
pub fn validate_color_sample_request(request: &ColorSampleRequest) -> (r: Result<(), GoopError>)
    ensures
        spec_color_settings_refused(*request) ==> r == Err::<(), GoopError>(
            request.image_options_verdict->0->Err_0,
        ),
        !spec_color_settings_refused(*request) ==> match spec_color_sample_refusal(*request) {
            Some(m) => (r matches Err(e) && is_invalid_with(e, m)),
            None => r is Ok,
        },
{
    if request.has_alpha_policy && request.target != TargetFormat::Jpeg {
        return Err(invalid("Transparency flattening is currently available only for JPEG output"));
    }
    if request.has_alpha_policy && request.color_policy_preserve {
        return Err(invalid("JPEG transparency flattening requires Convert to sRGB or Assume sRGB"));
    }
    if !(request.target == TargetFormat::Jpeg || request.target == TargetFormat::Png) {
        return Err(invalid("Color-managed conversion is available only for JPEG and PNG output"));
    }
    if request.has_compress_mode {
        return Err(invalid("Explicit color handling is currently available in Convert only"));
    }
    let capped = match request.resolution_cap {
        Some(ResolutionCap::Original) => false,
        Some(_) => true,
        None => false,
    };
    let preset = match request.quality_preset_original {
        Some(false) => true,
        _ => false,
    };
    if request.has_video_options || request.has_gif_options || request.has_subtitle || preset
        || capped {
        return Err(
            invalid(
                "Explicit image color handling cannot be combined with media, GIF, subtitle, or video quality controls",
            ),
        );
    }
    match &request.image_options_verdict {
        Some(verdict) => {
            match verdict {
                Err(e) => return Err(e.copy()),
                Ok(_) => {},
            }
            if request.target != TargetFormat::Jpeg {
                return Err(invalid("Explicit JPEG quality and resize settings require JPEG output"));
            }
        },
        None => {},
    }
    Ok(())
}

} // verus!
